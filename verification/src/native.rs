//! The built-in operators.
//!
//! `+` folds its arguments with exact two's-complement addition starting
//! from zero; `-` subtracts the fold of the rest from the first argument and
//! demands at least one number. The ordered comparisons `= > >= < <=` share
//! one tonicity pattern: all arguments must be numbers, at least one is
//! required, and the result says whether every adjacent pair satisfies the
//! comparison.

use vstd::prelude::*;

use crate::data::ExpV;
use crate::data::FelispErr;
use crate::data::FelispExp;
use crate::data::NativeFn;
use crate::data::res_v;
use crate::parser::ints_view;
use crate::parser::nums_of;
use crate::parser::parse_list_of_floats;

verus! {

/// Two's-complement wrap of a mathematical integer into the `i64` range,
/// for sums and differences of in-range values.
pub open spec fn wrap_i64(x: int) -> int {
    if x > i64::MAX {
        x - 0x1_0000_0000_0000_0000
    } else if x < i64::MIN {
        x + 0x1_0000_0000_0000_0000
    } else {
        x
    }
}

/// Left fold of wrapping addition over a sequence, from zero.
pub open spec fn sum_wrap(ns: Seq<int>) -> int
    decreases ns.len(),
{
    if ns.len() == 0 {
        0
    } else {
        wrap_i64(sum_wrap(ns.drop_last()) + ns.last())
    }
}

/// Does one ordered comparison hold of a pair?
pub open spec fn cmp_holds(f: NativeFn, a: int, b: int) -> bool {
    match f {
        NativeFn::Equal => a == b,
        NativeFn::Greater => a > b,
        NativeFn::GreaterEq => a >= b,
        NativeFn::Less => a < b,
        NativeFn::LessEq => a <= b,
        _ => false,
    }
}

/// Does the comparison hold of every adjacent pair?
pub open spec fn chain_ok(f: NativeFn, ns: Seq<int>) -> bool {
    forall|i: int| 0 <= i && i + 1 < ns.len() ==> #[trigger] cmp_holds(f, ns[i], ns[i + 1])
}

/// What applying a built-in operator to evaluated arguments yields.
pub open spec fn apply_native_s(f: NativeFn, args: Seq<ExpV>) -> Result<ExpV, Seq<char>> {
    match nums_of(args) {
        Err(m) => Err(m),
        Ok(ns) => match f {
            NativeFn::Add => Ok(ExpV::Number(sum_wrap(ns))),
            NativeFn::Sub => if ns.len() == 0 {
                Err("expected atleast one number"@)
            } else {
                Ok(ExpV::Number(wrap_i64(ns[0] - sum_wrap(ns.drop_first()))))
            },
            _ => if ns.len() == 0 {
                Err("expected at least one number"@)
            } else {
                Ok(ExpV::Bool(chain_ok(f, ns)))
            },
        },
    }
}

/// Does one ordered comparison hold of a pair?
fn cmp_exec(f: NativeFn, a: i64, b: i64) -> (r: bool)
    ensures
        r == cmp_holds(f, a as int, b as int),
{
    match f {
        NativeFn::Equal => a == b,
        NativeFn::Greater => a > b,
        NativeFn::GreaterEq => a >= b,
        NativeFn::Less => a < b,
        NativeFn::LessEq => a <= b,
        _ => false,
    }
}

/// Fold of wrapping addition over machine integers.
fn sum_all(nums: &Vec<i64>) -> (s: i64)
    ensures
        s as int == sum_wrap(ints_view(nums@)),
{
    let ghost ns = ints_view(nums@);
    let mut acc: i64 = 0;
    let mut i: usize = 0;
    proof {
        assert(ns.take(0) =~= Seq::<int>::empty());
    }
    while i < nums.len()
        invariant
            i <= nums@.len(),
            ns == ints_view(nums@),
            ns.len() == nums@.len(),
            acc as int == sum_wrap(ns.take(i as int)),
        decreases nums@.len() - i,
    {
        proof {
            assert(ns.take(i as int + 1).drop_last() =~= ns.take(i as int));
            assert(ns.take(i as int + 1).last() == ns[i as int]);
        }
        acc = acc.wrapping_add(nums[i]);
        i += 1;
    }
    proof {
        assert(ns.take(nums@.len() as int) =~= ns);
    }
    acc
}

/// Apply a built-in operator to evaluated arguments.
pub fn apply_native(f: NativeFn, args: &[FelispExp]) -> (r: Result<FelispExp, FelispErr>)
    ensures
        res_v(r) == apply_native_s(f, args.deep_view()),
{
    let nums = match parse_list_of_floats(args) {
        Ok(v) => v,
        Err(e) => {
            return Err(e);
        }
    };
    let ghost ns = ints_view(nums@);
    match f {
        NativeFn::Add => Ok(FelispExp::Number(sum_all(&nums))),
        NativeFn::Sub => {
            if nums.len() == 0 {
                return Err(FelispErr::Reason("expected atleast one number".to_owned()));
            }
            let first = nums[0];
            let mut acc: i64 = 0;
            let mut i: usize = 1;
            let ghost rest = ns.drop_first();
            proof {
                assert(rest.take(0) =~= Seq::<int>::empty());
            }
            while i < nums.len()
                invariant
                    1 <= i <= nums@.len(),
                    ns == ints_view(nums@),
                    ns.len() == nums@.len(),
                    rest == ns.drop_first(),
                    acc as int == sum_wrap(rest.take(i - 1)),
                decreases nums@.len() - i,
            {
                proof {
                    assert(rest.take(i as int).drop_last() =~= rest.take(i - 1));
                    assert(rest.take(i as int).last() == rest[i - 1]);
                    assert(rest[i - 1] == ns[i as int]);
                }
                acc = acc.wrapping_add(nums[i]);
                i += 1;
            }
            proof {
                assert(rest.take(nums@.len() - 1) =~= rest);
            }
            Ok(FelispExp::Number(first.wrapping_sub(acc)))
        }
        _ => {
            if nums.len() == 0 {
                return Err(FelispErr::Reason("expected at least one number".to_owned()));
            }
            let mut i: usize = 0;
            while i < nums.len() - 1
                invariant
                    i <= nums@.len() - 1,
                    nums@.len() >= 1,
                    ns == ints_view(nums@),
                    ns.len() == nums@.len(),
                    nums_of(args.deep_view()) == Ok::<Seq<int>, Seq<char>>(ns),
                    !(f is Add) && !(f is Sub),
                    forall|k: int|
                        0 <= k && k + 1 <= i ==> #[trigger] cmp_holds(f, ns[k], ns[k + 1]),
                decreases nums@.len() - i,
            {
                proof {
                    assert(ns[i as int] == nums@[i as int] as int);
                    assert(ns[i as int + 1] == nums@[i as int + 1] as int);
                }
                if !cmp_exec(f, nums[i], nums[i + 1]) {
                    proof {
                        assert(!cmp_holds(f, ns[i as int], ns[i as int + 1]));
                        assert(!chain_ok(f, ns));
                    }
                    return Ok(FelispExp::Bool(false));
                }
                i += 1;
            }
            assert(chain_ok(f, ns));
            Ok(FelispExp::Bool(true))
        }
    }
}

} // verus!
