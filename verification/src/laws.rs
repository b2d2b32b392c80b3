//! Laws of the evaluator, stated over the spec-level interpreter.
//!
//! These proof functions pin down the arithmetic folds at the evaluation
//! level, the meaning of `defn` followed by a lookup, and the read-only
//! nature of `select`.

use vstd::prelude::*;
use vstd::arithmetic::div_mod::lemma_add_mod_noop;
use vstd::arithmetic::div_mod::lemma_mod_multiples_vanish;
use vstd::arithmetic::div_mod::lemma_small_mod;

use crate::data::ExpV;
use crate::data::NativeFn;
use crate::env::EnvV;
use crate::env::bind_in;
use crate::env::default_env_v;
use crate::env::default_bindings;
use crate::env::assoc_map;
use crate::env::lookup;
use crate::eval::EvalOut;
use crate::eval::FormsOut;
use crate::eval::eval_built_in_s;
use crate::eval::eval_defn_s;
use crate::eval::eval_select_s;
use crate::eval::eval_forms_s;
use crate::eval::eval_s;
use crate::data::RowV;
use crate::native::apply_native_s;
use crate::native::sum_wrap;
use crate::native::wrap_i64;
use crate::parser::nums_of;
use crate::table::selected_rows;

verus! {

/// The arithmetic sum of a sequence of integers.
pub open spec fn seq_sum(ns: Seq<int>) -> int
    decreases ns.len(),
{
    if ns.len() == 0 {
        0
    } else {
        seq_sum(ns.drop_last()) + ns.last()
    }
}

/// An integer congruent to another modulo 2^64, both in the `i64` range,
/// equals it.
proof fn lemma_congruent_in_range_eq(a: int, b: int)
    requires
        (a - b) % 0x1_0000_0000_0000_0000 == 0,
        i64::MIN <= a <= i64::MAX,
        i64::MIN <= b <= i64::MAX,
    ensures
        a == b,
{
    let w = 0x1_0000_0000_0000_0000int;
    let d = a - b;
    if d > 0 {
        lemma_small_mod(d as nat, w as nat);
    } else if d < 0 {
        lemma_mod_multiples_vanish(1, d, w);
        lemma_small_mod((w + d) as nat, w as nat);
    }
}

/// Wrapping keeps the value's residue modulo 2^64, and lands in the `i64`
/// range whenever the input is the sum of two in-range values.
proof fn lemma_wrap_congruent(x: int)
    ensures
        (wrap_i64(x) - x) % 0x1_0000_0000_0000_0000 == 0,
        2 * (i64::MIN as int) <= x <= 2 * (i64::MAX as int) ==> i64::MIN <= wrap_i64(x)
            <= i64::MAX,
{
    let w = 0x1_0000_0000_0000_0000int;
    lemma_small_mod(0nat, w as nat);
    if wrap_i64(x) - x == w {
        lemma_mod_multiples_vanish(1, 0, w);
    } else if wrap_i64(x) - x == -w {
        lemma_mod_multiples_vanish(-1, 0, w);
    }
}

/// The wrapping fold stays in the `i64` range and congruent to the true sum.
proof fn lemma_sum_wrap_congruent(ns: Seq<int>)
    requires
        forall|i: int| 0 <= i < ns.len() ==> i64::MIN <= #[trigger] ns[i] <= i64::MAX,
    ensures
        i64::MIN <= sum_wrap(ns) <= i64::MAX,
        (seq_sum(ns) - sum_wrap(ns)) % 0x1_0000_0000_0000_0000 == 0,
    decreases ns.len(),
{
    let w = 0x1_0000_0000_0000_0000int;
    if ns.len() == 0 {
        lemma_small_mod(0nat, w as nat);
    } else {
        let dl = ns.drop_last();
        assert(forall|i: int| 0 <= i < dl.len() ==> i64::MIN <= #[trigger] dl[i] <= i64::MAX);
        lemma_sum_wrap_congruent(dl);
        let x = sum_wrap(dl) + ns.last();
        lemma_wrap_congruent(x);
        let d1 = seq_sum(dl) - sum_wrap(dl);
        let d2 = x - wrap_i64(x);
        lemma_add_mod_noop(d1, d2, w);
        lemma_small_mod(0nat, w as nat);
        assert(seq_sum(ns) - sum_wrap(ns) == d1 + d2);
    }
}

/// When the arithmetic sum fits in an `i64`, the wrapping fold computes it
/// exactly.
pub proof fn lemma_sum_wrap_exact(ns: Seq<int>)
    requires
        forall|i: int| 0 <= i < ns.len() ==> i64::MIN <= #[trigger] ns[i] <= i64::MAX,
        i64::MIN <= seq_sum(ns) <= i64::MAX,
    ensures
        sum_wrap(ns) == seq_sum(ns),
{
    lemma_sum_wrap_congruent(ns);
    lemma_congruent_in_range_eq(seq_sum(ns), sum_wrap(ns));
}

/// Number expressions coerce back to exactly their values.
proof fn lemma_nums_of_numbers(ns: Seq<int>)
    ensures
        nums_of(ns.map_values(|n: int| ExpV::Number(n))) == Ok::<Seq<int>, Seq<char>>(ns),
    decreases ns.len(),
{
    let args = ns.map_values(|n: int| ExpV::Number(n));
    if ns.len() == 0 {
        assert(args.len() == 0);
        assert(nums_of(args) == Ok::<Seq<int>, Seq<char>>(Seq::empty()));
        assert(Seq::<int>::empty() =~= ns);
    } else {
        lemma_nums_of_numbers(ns.drop_last());
        assert(args.drop_last() =~= ns.drop_last().map_values(|n: int| ExpV::Number(n)));
        assert(args.last() == ExpV::Number(ns.last()));
        assert(ns.drop_last().push(ns.last()) =~= ns);
    }
}

/// Evaluating a sequence of number literals touches nothing and yields the
/// literals.
proof fn lemma_eval_forms_numbers(
    fuel: nat,
    args: Seq<ExpV>,
    envs: Seq<EnvV>,
    cur: int,
    shown: Seq<RowV>,
)
    requires
        fuel >= 2,
        (forall|i: int| 0 <= i < args.len() ==> (#[trigger] args[i]) is Number),
    ensures
        eval_forms_s(fuel, args, envs, cur, shown) == (FormsOut {
            res: Ok::<Seq<ExpV>, Seq<char>>(args),
            envs,
            shown,
        }),
    decreases args.len(),
{
    if args.len() == 0 {
        assert(Seq::<ExpV>::empty() =~= args);
    } else {
        let o = eval_s((fuel - 1) as nat, args[0], envs, cur, shown);
        assert(args[0] is Number);
        assert(o == EvalOut { res: Ok::<ExpV, Seq<char>>(args[0]), envs, shown });
        assert(forall|i: int|
            0 <= i < args.drop_first().len() ==> (#[trigger] args.drop_first()[i]) is Number);
        lemma_eval_forms_numbers(fuel, args.drop_first(), envs, cur, shown);
        assert(seq![args[0]] + args.drop_first() =~= args);
    }
}

/// In the default environment, `+` and `-` resolve to their operators.
proof fn lemma_default_lookup_ops()
    ensures
        lookup(default_env_v(), 0, "+"@) == Some(ExpV::Func(NativeFn::Add)),
        lookup(default_env_v(), 0, "-"@) == Some(ExpV::Func(NativeFn::Sub)),
{
    reveal_strlit("+");
    reveal_strlit("-");
    reveal_strlit("=");
    reveal_strlit(">");
    reveal_strlit(">=");
    reveal_strlit("<");
    reveal_strlit("<=");
    reveal_strlit("mytable1");
    reveal_with_fuel(assoc_map, 9);
    assert("+"@.len() == 1 && "+"@[0] == '+');
    assert("-"@.len() == 1 && "-"@[0] == '-');
    assert("="@.len() == 1 && "="@[0] == '=');
    assert(">"@.len() == 1 && ">"@[0] == '>');
    assert("<"@.len() == 1 && "<"@[0] == '<');
    assert(">="@.len() == 2);
    assert("<="@.len() == 2);
    assert("mytable1"@.len() == 8);
    let m = assoc_map(default_bindings());
    assert(m.contains_key("+"@));
    assert(m["+"@] == ExpV::Func(NativeFn::Add));
    assert(m.contains_key("-"@));
    assert(m["-"@] == ExpV::Func(NativeFn::Sub));
}

/// `+` and `-` are no special forms.
proof fn lemma_ops_not_special(
    fuel: nat,
    s: Seq<char>,
    args: Seq<ExpV>,
    envs: Seq<EnvV>,
    cur: int,
    shown: Seq<RowV>,
)
    requires
        s == "+"@ || s == "-"@,
    ensures
        eval_built_in_s(fuel, ExpV::Symbol(s), args, envs, cur, shown) is None,
{
    reveal_strlit("+");
    reveal_strlit("-");
    reveal_strlit("if");
    reveal_strlit("defn");
    reveal_strlit("fn");
    reveal_strlit("select");
    reveal_strlit("insert");
    reveal_strlit("exit");
    assert("+"@.len() == 1);
    assert("-"@.len() == 1);
    assert("if"@.len() == 2);
    assert("defn"@.len() == 4);
    assert("fn"@.len() == 2);
    assert("select"@.len() == 6);
    assert("insert"@.len() == 6);
    assert("exit"@.len() == 4);
}

/// Folding `+` over number literals: in the default environment, evaluating
/// `(+ n1 ... nk)` yields exactly the arithmetic sum whenever that sum fits
/// in an `i64`, and neither the environments nor the displayed rows change.
pub proof fn lemma_eval_add_sums(fuel: nat, ns: Seq<int>, shown: Seq<RowV>)
    requires
        fuel >= 3,
        ns.len() >= 1,
        forall|i: int| 0 <= i < ns.len() ==> i64::MIN <= #[trigger] ns[i] <= i64::MAX,
        i64::MIN <= seq_sum(ns) <= i64::MAX,
    ensures
        ({
            let form = ExpV::List(
                seq![ExpV::Symbol("+"@)] + ns.map_values(|n: int| ExpV::Number(n)),
            );
            let o = eval_s(fuel, form, default_env_v(), 0, shown);
            &&& o.res == Ok::<ExpV, Seq<char>>(ExpV::Number(seq_sum(ns)))
            &&& o.envs == default_env_v()
            &&& o.shown == shown
        }),
{
    let args = ns.map_values(|n: int| ExpV::Number(n));
    let l = seq![ExpV::Symbol("+"@)] + args;
    let form = ExpV::List(l);
    let envs = default_env_v();
    assert(l[0] == ExpV::Symbol("+"@));
    assert(l.drop_first() =~= args);
    lemma_ops_not_special(fuel, "+"@, args, envs, 0, shown);
    let o0 = eval_s((fuel - 1) as nat, l[0], envs, 0, shown);
    lemma_default_lookup_ops();
    assert(o0.res == Ok::<ExpV, Seq<char>>(ExpV::Func(NativeFn::Add)));
    assert(forall|i: int| 0 <= i < args.len() ==> (#[trigger] args[i]) is Number);
    lemma_eval_forms_numbers(fuel, args, envs, 0, shown);
    lemma_nums_of_numbers(ns);
    lemma_sum_wrap_exact(ns);
    assert(apply_native_s(NativeFn::Add, args) == Ok::<ExpV, Seq<char>>(
        ExpV::Number(seq_sum(ns)),
    ));
}

/// Folding `-` over number literals: in the default environment, evaluating
/// `(- n1 ... nk)` yields exactly `n1 - (n2 + ... + nk)` whenever both that
/// difference and the inner sum arithmetic stay within `i64`, and neither
/// the environments nor the displayed rows change.
pub proof fn lemma_eval_sub_folds(fuel: nat, ns: Seq<int>, shown: Seq<RowV>)
    requires
        fuel >= 3,
        ns.len() >= 1,
        forall|i: int| 0 <= i < ns.len() ==> i64::MIN <= #[trigger] ns[i] <= i64::MAX,
        i64::MIN <= ns[0] - seq_sum(ns.drop_first()) <= i64::MAX,
    ensures
        ({
            let form = ExpV::List(
                seq![ExpV::Symbol("-"@)] + ns.map_values(|n: int| ExpV::Number(n)),
            );
            let o = eval_s(fuel, form, default_env_v(), 0, shown);
            &&& o.res == Ok::<ExpV, Seq<char>>(
                ExpV::Number(ns[0] - seq_sum(ns.drop_first())),
            )
            &&& o.envs == default_env_v()
            &&& o.shown == shown
        }),
{
    let args = ns.map_values(|n: int| ExpV::Number(n));
    let l = seq![ExpV::Symbol("-"@)] + args;
    let envs = default_env_v();
    assert(l[0] == ExpV::Symbol("-"@));
    assert(l.drop_first() =~= args);
    lemma_ops_not_special(fuel, "-"@, args, envs, 0, shown);
    let o0 = eval_s((fuel - 1) as nat, l[0], envs, 0, shown);
    lemma_default_lookup_ops();
    assert(o0.res == Ok::<ExpV, Seq<char>>(ExpV::Func(NativeFn::Sub)));
    assert(forall|i: int| 0 <= i < args.len() ==> (#[trigger] args[i]) is Number);
    lemma_eval_forms_numbers(fuel, args, envs, 0, shown);
    lemma_nums_of_numbers(ns);
    let rest = ns.drop_first();
    let w = 0x1_0000_0000_0000_0000int;
    assert(forall|i: int| 0 <= i < rest.len() ==> i64::MIN <= #[trigger] rest[i] <= i64::MAX);
    lemma_sum_wrap_congruent(rest);
    let x = ns[0] - sum_wrap(rest);
    lemma_wrap_congruent(x);
    let goal = ns[0] - seq_sum(rest);
    let d1 = x - wrap_i64(x);
    let d2 = seq_sum(rest) - sum_wrap(rest);
    lemma_add_mod_noop(d2, -d1, w);
    lemma_small_mod(0nat, w as nat);
    lemma_mod_multiples_vanish(-1, 0, w);
    assert((goal - wrap_i64(x)) % w == 0) by {
        assert(goal - wrap_i64(x) == d2 - d1 + (x - x));
        assert((d2 + -d1) % w == 0);
    };
    lemma_congruent_in_range_eq(goal, wrap_i64(x));
    assert(apply_native_s(NativeFn::Sub, args) == Ok::<ExpV, Seq<char>>(ExpV::Number(goal)));
}

/// `defn` then lookup: evaluating `(defn name v)` returns the bare name,
/// binds the value of `v` in the current scope alone, and a later
/// evaluation of the symbol in that scope resolves to exactly that value.
pub proof fn lemma_defn_then_lookup(
    fuel: nat,
    name: Seq<char>,
    value_form: ExpV,
    envs: Seq<EnvV>,
    cur: int,
    shown: Seq<RowV>,
    fuel2: nat,
)
    requires
        fuel >= 2,
        fuel2 >= 1,
    ensures
        ({
            let form = ExpV::List(
                seq![ExpV::Symbol("defn"@), ExpV::Symbol(name), value_form],
            );
            let ov = eval_s((fuel - 1) as nat, value_form, envs, cur, shown);
            let o = eval_s(fuel, form, envs, cur, shown);
            ov.res matches Ok(v) ==> {
                &&& o.res == Ok::<ExpV, Seq<char>>(ExpV::Symbol(name))
                &&& o.envs == bind_in(ov.envs, cur, name, v)
                &&& o.shown == ov.shown
                &&& (0 <= cur < ov.envs.len() ==> eval_s(
                    fuel2,
                    ExpV::Symbol(name),
                    o.envs,
                    cur,
                    o.shown,
                ).res == Ok::<ExpV, Seq<char>>(v))
            }
        }),
{
    reveal_strlit("defn");
    reveal_strlit("if");
    assert("defn"@.len() == 4);
    assert("if"@.len() == 2);
    let l = seq![ExpV::Symbol("defn"@), ExpV::Symbol(name), value_form];
    let args = l.drop_first();
    assert(l[0] == ExpV::Symbol("defn"@));
    assert(args.len() == 2);
    assert(args[0] == ExpV::Symbol(name));
    assert(args[1] == value_form);
    assert(eval_built_in_s(fuel, l[0], args, envs, cur, shown) == Some(
        eval_defn_s(fuel, args, envs, cur, shown),
    ));
    let ov = eval_s((fuel - 1) as nat, value_form, envs, cur, shown);
    match ov.res {
        Ok(v) => {
            let o = eval_s(fuel, ExpV::List(l), envs, cur, shown);
            assert(o.envs == bind_in(ov.envs, cur, name, v));
            if 0 <= cur < ov.envs.len() {
                let bound = bind_in(ov.envs, cur, name, v);
                assert(bound[cur].data.contains_key(name));
                assert(bound[cur].data[name] == v);
                assert(lookup(bound, cur, name) == Some(v));
            }
        }
        Err(_) => {}
    }
}

/// `select` is read-only: evaluating `(select name)` where `name` resolves
/// to a table leaves every environment — and so the table, its row count and
/// its page count — unchanged, appends exactly the table's occupied rows to
/// the displayed rows, and returns the bare name.
pub proof fn lemma_select_readonly(
    fuel: nat,
    name: Seq<char>,
    envs: Seq<EnvV>,
    cur: int,
    shown: Seq<RowV>,
)
    requires
        fuel >= 2,
        lookup(envs, cur, name) matches Some(v) && v is Table,
    ensures
        ({
            let form = ExpV::List(seq![ExpV::Symbol("select"@), ExpV::Symbol(name)]);
            let o = eval_s(fuel, form, envs, cur, shown);
            &&& o.envs == envs
            &&& o.res == Ok::<ExpV, Seq<char>>(ExpV::Symbol(name))
            &&& (lookup(envs, cur, name) matches Some(ExpV::Table(t)) ==> o.shown == shown
                + selected_rows(t.pages))
        }),
{
    reveal_strlit("select");
    reveal_strlit("if");
    reveal_strlit("defn");
    reveal_strlit("fn");
    assert("select"@.len() == 6);
    assert("if"@.len() == 2);
    assert("defn"@.len() == 4);
    assert("fn"@.len() == 2);
    let l = seq![ExpV::Symbol("select"@), ExpV::Symbol(name)];
    let args = l.drop_first();
    assert(l[0] == ExpV::Symbol("select"@));
    assert(args.len() == 1);
    assert(args[0] == ExpV::Symbol(name));
    assert(eval_built_in_s(fuel, l[0], args, envs, cur, shown) == Some(
        eval_select_s(fuel, args, envs, cur, shown),
    ));
    match lookup(envs, cur, name) {
        Some(v) => {
            match v {
                ExpV::Table(t) => {
                    let ov = eval_s((fuel - 1) as nat, ExpV::Symbol(name), envs, cur, shown);
                    assert(ov.res == Ok::<ExpV, Seq<char>>(ExpV::Table(t)));
                    assert(ov.envs == envs && ov.shown == shown);
                }
                _ => {}
            }
        }
        None => {}
    }
}

} // verus!
