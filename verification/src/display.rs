//! Rendering expressions as text.
//!
//! `display_of` is the canonical rendering: symbols and booleans as
//! themselves, numbers in decimal, lists as comma-joined renderings in
//! parentheses, opaque markers for built-ins and lambdas, and a short header
//! for tables. The evaluator quotes this rendering inside error messages and
//! uses it for the `insert` form's stringified arguments.

use vstd::prelude::*;

use crate::data::ExpV;
use crate::data::FelispExp;
use crate::data::exp_view;
use crate::data::exps_view;
use crate::data::lemma_exps_view;
use crate::num::int_str;
use crate::num::i64_to_string;

verus! {

/// The text an expression displays as.
pub open spec fn display_of(e: ExpV) -> Seq<char>
    decreases e,
{
    match e {
        ExpV::Bool(b) => if b {
            "true"@
        } else {
            "false"@
        },
        ExpV::Symbol(s) => s,
        ExpV::Number(n) => int_str(n),
        ExpV::List(l) => "("@ + display_join(l) + ")"@,
        ExpV::Func(_) => "Function {}"@,
        ExpV::Lambda { .. } => "Lambda {}"@,
        ExpV::Table(t) => "Table: Name: "@ + t.name + " Rows: "@ + int_str(t.num_rows),
    }
}

/// Comma-joined renderings of a list's elements.
pub open spec fn display_join(l: Seq<ExpV>) -> Seq<char>
    decreases l,
{
    if l.len() == 0 {
        Seq::empty()
    } else if l.len() == 1 {
        display_of(l[0])
    } else {
        display_join(l.drop_last()) + ","@ + display_of(l.last())
    }
}

impl FelispExp {
    /// Render this expression as text.
    pub fn display_string(&self) -> (s: String)
        ensures
            s@ == display_of(self@),
        decreases *self,
    {
        match self {
            FelispExp::Bool(b) => {
                if *b {
                    "true".to_owned()
                } else {
                    "false".to_owned()
                }
            }
            FelispExp::Symbol(sym) => sym.clone(),
            FelispExp::Number(n) => i64_to_string(*n),
            FelispExp::List(elems) => {
                let mut s = "(".to_owned();
                let inner = display_list(elems);
                s.append(inner.as_str());
                s.append(")");
                assert(s@ =~= display_of(self@));
                s
            }
            FelispExp::Func(_) => "Function {}".to_owned(),
            FelispExp::Lambda(_) => "Lambda {}".to_owned(),
            FelispExp::Table(t) => {
                let mut s = "Table: Name: ".to_owned();
                s.append(t.name.as_str());
                s.append(" Rows: ");
                let count = i64_to_string(t.num_rows as i64);
                s.append(count.as_str());
                assert(s@ =~= display_of(self@));
                s
            }
        }
    }
}

/// Comma-joined renderings of a list's elements.
fn display_list(elems: &Vec<FelispExp>) -> (s: String)
    ensures
        s@ == display_join(exps_view(elems@)),
    decreases *elems,
{
    let mut s = String::new();
    let mut i: usize = 0;
    proof {
        lemma_exps_view(elems@);
    }
    while i < elems.len()
        invariant
            i <= elems.len(),
            s@ == display_join(exps_view(elems@.take(i as int))),
        decreases elems.len() - i,
    {
        proof {
            assert(decreases_to!(*elems => elems@[i as int]));
        }
        if i > 0 {
            s.append(",");
        }
        let rendered = elems[i].display_string();
        s.append(rendered.as_str());
        proof {
            lemma_exps_view(elems@.take(i as int));
            lemma_exps_view(elems@.take(i as int + 1));
            let cur = exps_view(elems@.take(i as int + 1));
            assert(cur.len() == i + 1);
            if i > 0 {
                assert(cur.drop_last() =~= exps_view(elems@.take(i as int)));
                assert(cur.last() == exp_view(elems@[i as int]));
                assert(s@ =~= display_join(cur));
            } else {
                assert(cur.last() == exp_view(elems@[i as int]));
                assert(s@ =~= display_join(cur));
            }
        }
        i += 1;
    }
    proof {
        assert(elems@.take(elems@.len() as int) =~= elems@);
    }
    s
}

} // verus!
