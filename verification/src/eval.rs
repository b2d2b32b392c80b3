//! The evaluator.
//!
//! `eval` reduces an expression against an environment arena: terminal
//! variants return or fail at once, symbols resolve through the environment
//! chain, and a list is dispatched first against the special forms (`if`,
//! `defn`, `fn`, `select`, `insert`, `exit`), then as an application of a
//! built-in operator or user lambda. `select` and `insert` route through the
//! table store; the rows they display are appended to an output buffer that
//! the caller owns. `exit` does not end the process: it returns the
//! distinguished reason `exit requested`, which an embedding shell may act
//! on.
//!
//! Evaluation depth is bounded by an explicit `fuel` parameter; runaway
//! recursion reports `recursion depth exceeded` instead of exhausting the
//! call stack. The whole evaluator is specified by the spec-level
//! interpreter `eval_s` and its companions: every executable function
//! returns exactly the result, environment arena, and displayed rows that
//! its spec counterpart computes.

use vstd::prelude::*;
use vstd::slice::slice_subrange;

use crate::data::ExpV;
use crate::data::FelispErr;
use crate::data::FelispExp;
use crate::data::FelispLambda;
use crate::data::Row;
use crate::data::RowV;
use crate::data::exp_view;
use crate::data::exps_view;
use crate::data::lemma_exps_view;
use crate::data::res_v;
use crate::data::str_eq;
use crate::display::display_of;
use crate::env::EnvArena;
use crate::env::FelispEnv;
use crate::env::EnvV;
use crate::env::assoc_map;
use crate::env::bind_in;
use crate::env::lookup;
use crate::env::wf_arena;
use crate::native::apply_native;
use crate::native::apply_native_s;
use crate::num::dec_digits;
use crate::num::u64_to_string;
use crate::parser::parse;
use crate::parser::parse_s;
use crate::parser::parse_list_of_symbol_strings;
use crate::parser::symbols_of;
use crate::parser::tokenize;
use crate::parser::tokens_of;
use crate::table::execute_insert;
use crate::table::execute_select;
use crate::table::insert_spec;
use crate::table::selected_rows;
use crate::table::table_wf_check;
use crate::table::wf_table;

verus! {

/// Outcome of evaluating one expression: the result, the arena afterwards,
/// and everything displayed so far.
pub struct EvalOut {
    pub res: Result<ExpV, Seq<char>>,
    pub envs: Seq<EnvV>,
    pub shown: Seq<RowV>,
}

/// Outcome of evaluating a sequence of argument forms in order.
pub struct FormsOut {
    pub res: Result<Seq<ExpV>, Seq<char>>,
    pub envs: Seq<EnvV>,
    pub shown: Seq<RowV>,
}

/// Outcome of building a lambda's call environment: the new scope's index.
pub struct LambdaEnvOut {
    pub res: Result<int, Seq<char>>,
    pub envs: Seq<EnvV>,
    pub shown: Seq<RowV>,
}

/// Resolving a symbol: the bound value, or the unbound-symbol complaint
/// quoting the name.
pub open spec fn lookup_res(envs: Seq<EnvV>, cur: int, k: Seq<char>) -> Result<ExpV, Seq<char>> {
    match lookup(envs, cur, k) {
        Some(v) => Ok(v),
        None => Err("<< unexpected symbol k='"@ + k + "'"@),
    }
}

/// What the `fn` form yields: a lambda from its two argument forms.
pub open spec fn lambda_args_s(args: Seq<ExpV>) -> Result<ExpV, Seq<char>> {
    if args.len() == 0 {
        Err("expected args form"@)
    } else if args.len() == 1 {
        Err("expected second form"@)
    } else if args.len() > 2 {
        Err("pub fn definition can only have two forms"@)
    } else {
        Ok(ExpV::Lambda { params: Box::new(args[0]), body: Box::new(args[1]) })
    }
}

/// The parameters a lambda binds, each to its argument, later names winning.
pub open spec fn bind_params(ks: Seq<Seq<char>>, vs: Seq<ExpV>) -> Map<Seq<char>, ExpV>
    decreases ks.len(),
{
    if ks.len() == 0 || vs.len() == 0 {
        Map::empty()
    } else {
        bind_params(ks.drop_last(), vs.drop_last()).insert(ks.last(), vs.last())
    }
}

/// What `eval` yields. Terminal variants — numbers, booleans, tables —
/// return at once and built-ins and bare lambdas fail at once; symbols
/// resolve by name; a non-empty list is a special form or an application.
pub open spec fn eval_s(fuel: nat, e: ExpV, envs: Seq<EnvV>, cur: int, shown: Seq<RowV>) -> EvalOut
    decreases fuel, 4int, 0int,
{
    if fuel == 0 {
        EvalOut { res: Err("recursion depth exceeded"@), envs, shown }
    } else {
        match e {
            ExpV::Number(_) => EvalOut { res: Ok(e), envs, shown },
            ExpV::Bool(_) => EvalOut { res: Ok(e), envs, shown },
            ExpV::Func(_) => EvalOut { res: Err("unexpected form"@), envs, shown },
            ExpV::Lambda { .. } => EvalOut {
                res: Err("unexpected form in lambda"@),
                envs,
                shown,
            },
            ExpV::Symbol(k) => EvalOut { res: lookup_res(envs, cur, k), envs, shown },
            ExpV::Table(_) => EvalOut { res: Ok(e), envs, shown },
            ExpV::List(l) => {
                if l.len() == 0 {
                    EvalOut { res: Err("expected a non-empty list"@), envs, shown }
                } else {
                    match eval_built_in_s(fuel, l[0], l.drop_first(), envs, cur, shown) {
                        Some(o) => o,
                        None => eval_apply_s(fuel, l[0], l.drop_first(), envs, cur, shown),
                    }
                }
            }
        }
    }
}

/// The general application path: evaluate the head, then apply a built-in
/// operator to the evaluated arguments or a lambda in a fresh scope.
pub open spec fn eval_apply_s(
    fuel: nat,
    head: ExpV,
    args: Seq<ExpV>,
    envs: Seq<EnvV>,
    cur: int,
    shown: Seq<RowV>,
) -> EvalOut
    decreases fuel, 3int, 0int,
{
    if fuel == 0 {
        EvalOut { res: Err("recursion depth exceeded"@), envs, shown }
    } else {
        let o0 = eval_s((fuel - 1) as nat, head, envs, cur, shown);
        match o0.res {
            Err(m) => EvalOut { res: Err(m), envs: o0.envs, shown: o0.shown },
            Ok(hv) => match hv {
                ExpV::Func(nf) => {
                    let fo = eval_forms_s(fuel, args, o0.envs, cur, o0.shown);
                    match fo.res {
                        Ok(vals) => EvalOut {
                            res: apply_native_s(nf, vals),
                            envs: fo.envs,
                            shown: fo.shown,
                        },
                        Err(m) => EvalOut { res: Err(m), envs: fo.envs, shown: fo.shown },
                    }
                }
                ExpV::Lambda { params, body } => {
                    let lo = env_for_lambda_s(fuel, *params, args, o0.envs, cur, o0.shown);
                    match lo.res {
                        Ok(child) => eval_s((fuel - 1) as nat, *body, lo.envs, child, lo.shown),
                        Err(m) => EvalOut { res: Err(m), envs: lo.envs, shown: lo.shown },
                    }
                }
                _ => EvalOut {
                    res: Err("first form must be a function"@),
                    envs: o0.envs,
                    shown: o0.shown,
                },
            },
        }
    }
}

/// Special-form dispatch: `None` when the head is no special-form symbol.
pub open spec fn eval_built_in_s(
    fuel: nat,
    head: ExpV,
    args: Seq<ExpV>,
    envs: Seq<EnvV>,
    cur: int,
    shown: Seq<RowV>,
) -> Option<EvalOut>
    decreases fuel, 3int, 0int,
{
    match head {
        ExpV::Symbol(s) => {
            if s == "if"@ {
                Some(eval_if_s(fuel, args, envs, cur, shown))
            } else if s == "defn"@ {
                Some(eval_defn_s(fuel, args, envs, cur, shown))
            } else if s == "fn"@ {
                Some(EvalOut { res: lambda_args_s(args), envs, shown })
            } else if s == "select"@ {
                Some(eval_select_s(fuel, args, envs, cur, shown))
            } else if s == "insert"@ {
                Some(eval_insert_s(fuel, args, envs, cur, shown))
            } else if s == "exit"@ {
                Some(EvalOut { res: Err("exit requested"@), envs, shown })
            } else {
                None
            }
        }
        _ => None,
    }
}

/// The `if` form: the test must reduce to a boolean, which picks the branch
/// to evaluate.
pub open spec fn eval_if_s(
    fuel: nat,
    args: Seq<ExpV>,
    envs: Seq<EnvV>,
    cur: int,
    shown: Seq<RowV>,
) -> EvalOut
    decreases fuel, 2int, 0int,
{
    if fuel == 0 {
        EvalOut { res: Err("recursion depth exceeded"@), envs, shown }
    } else if args.len() == 0 {
        EvalOut { res: Err("expected test form"@), envs, shown }
    } else {
        let o = eval_s((fuel - 1) as nat, args[0], envs, cur, shown);
        match o.res {
            Err(m) => EvalOut { res: Err(m), envs: o.envs, shown: o.shown },
            Ok(tv) => match tv {
                ExpV::Bool(b) => {
                    let idx: int = if b {
                        1
                    } else {
                        2
                    };
                    if args.len() <= idx {
                        EvalOut {
                            res: Err(
                                if b {
                                    "expected form idx=1"@
                                } else {
                                    "expected form idx=2"@
                                },
                            ),
                            envs: o.envs,
                            shown: o.shown,
                        }
                    } else {
                        eval_s((fuel - 1) as nat, args[idx], o.envs, cur, o.shown)
                    }
                }
                _ => EvalOut {
                    res: Err("unexpected test form='"@ + display_of(args[0]) + "'"@),
                    envs: o.envs,
                    shown: o.shown,
                },
            },
        }
    }
}

/// The `defn` form: a bare symbol, one value form, bind the evaluated value
/// in the current scope, return the name form unevaluated.
pub open spec fn eval_defn_s(
    fuel: nat,
    args: Seq<ExpV>,
    envs: Seq<EnvV>,
    cur: int,
    shown: Seq<RowV>,
) -> EvalOut
    decreases fuel, 2int, 0int,
{
    if fuel == 0 {
        EvalOut { res: Err("recursion depth exceeded"@), envs, shown }
    } else if args.len() == 0 {
        EvalOut { res: Err("expected first form"@), envs, shown }
    } else {
        match args[0] {
            ExpV::Symbol(name) => {
                if args.len() < 2 {
                    EvalOut { res: Err("expected second form"@), envs, shown }
                } else if args.len() > 2 {
                    EvalOut { res: Err("depub fn can only have two forms "@), envs, shown }
                } else {
                    let o = eval_s((fuel - 1) as nat, args[1], envs, cur, shown);
                    match o.res {
                        Ok(v) => EvalOut {
                            res: Ok(args[0]),
                            envs: bind_in(o.envs, cur, name, v),
                            shown: o.shown,
                        },
                        Err(m) => EvalOut { res: Err(m), envs: o.envs, shown: o.shown },
                    }
                }
            }
            _ => EvalOut { res: Err("expected first form to be a symbol"@), envs, shown },
        }
    }
}

/// The `select` form: evaluate the table form; a table displays its
/// occupied rows, anything else is silently a no-op; the unevaluated form
/// comes back either way.
pub open spec fn eval_select_s(
    fuel: nat,
    args: Seq<ExpV>,
    envs: Seq<EnvV>,
    cur: int,
    shown: Seq<RowV>,
) -> EvalOut
    decreases fuel, 2int, 0int,
{
    if fuel == 0 {
        EvalOut { res: Err("recursion depth exceeded"@), envs, shown }
    } else if args.len() == 0 {
        EvalOut { res: Err("expected first form"@), envs, shown }
    } else {
        let o = eval_s((fuel - 1) as nat, args[0], envs, cur, shown);
        match o.res {
            Err(m) => EvalOut { res: Err(m), envs: o.envs, shown: o.shown },
            Ok(tv) => match tv {
                ExpV::Table(t) => EvalOut {
                    res: Ok(args[0]),
                    envs: o.envs,
                    shown: o.shown + selected_rows(t.pages),
                },
                _ => EvalOut { res: Ok(args[0]), envs: o.envs, shown: o.shown },
            },
        }
    }
}

/// The `insert` form: evaluate the table form; into a well-formed table
/// goes a row with id 1 and the two remaining forms rendered as text; the
/// grown table is displayed and re-bound in the current scope under the
/// rendering of the table form. Anything but a table, or a table whose
/// geometry is broken or full, is silently a no-op. The unevaluated table
/// form comes back either way.
pub open spec fn eval_insert_s(
    fuel: nat,
    args: Seq<ExpV>,
    envs: Seq<EnvV>,
    cur: int,
    shown: Seq<RowV>,
) -> EvalOut
    decreases fuel, 2int, 0int,
{
    if fuel == 0 {
        EvalOut { res: Err("recursion depth exceeded"@), envs, shown }
    } else if args.len() == 0 {
        EvalOut { res: Err("expected first form"@), envs, shown }
    } else if args.len() == 1 {
        EvalOut { res: Err("expected second form"@), envs, shown }
    } else if args.len() == 2 {
        EvalOut { res: Err("expected second form"@), envs, shown }
    } else {
        let o = eval_s((fuel - 1) as nat, args[0], envs, cur, shown);
        match o.res {
            Err(m) => EvalOut { res: Err(m), envs: o.envs, shown: o.shown },
            Ok(tv) => match tv {
                ExpV::Table(t) => {
                    if wf_table(t) && t.num_rows < i32::MAX {
                        let t2 = insert_spec(t, 1, display_of(args[1]), display_of(args[2]));
                        EvalOut {
                            res: Ok(args[0]),
                            envs: bind_in(o.envs, cur, display_of(args[0]), ExpV::Table(t2)),
                            shown: o.shown + selected_rows(t2.pages),
                        }
                    } else {
                        EvalOut { res: Ok(args[0]), envs: o.envs, shown: o.shown }
                    }
                }
                _ => EvalOut { res: Ok(args[0]), envs: o.envs, shown: o.shown },
            },
        }
    }
}

/// Building a lambda's call scope: the parameter form must be a list of
/// bare symbols matching the argument count; the arguments are evaluated in
/// the caller's scope and bound in a fresh scope chained to it.
pub open spec fn env_for_lambda_s(
    fuel: nat,
    params: ExpV,
    args: Seq<ExpV>,
    envs: Seq<EnvV>,
    cur: int,
    shown: Seq<RowV>,
) -> LambdaEnvOut
    decreases fuel, 1int, 0int,
{
    if fuel == 0 {
        LambdaEnvOut { res: Err("recursion depth exceeded"@), envs, shown }
    } else {
        match symbols_of(params) {
            Err(m) => LambdaEnvOut { res: Err(m), envs, shown },
            Ok(ks) => if ks.len() != args.len() {
                LambdaEnvOut {
                    res: Err(
                        "expected "@ + dec_digits(ks.len()) + " arguments, got "@ + dec_digits(
                            args.len(),
                        ),
                    ),
                    envs,
                    shown,
                }
            } else {
                let fo = eval_forms_s(fuel, args, envs, cur, shown);
                match fo.res {
                    Err(m) => LambdaEnvOut { res: Err(m), envs: fo.envs, shown: fo.shown },
                    Ok(vals) => LambdaEnvOut {
                        res: Ok(fo.envs.len() as int),
                        envs: fo.envs.push(
                            EnvV { data: bind_params(ks, vals), outer: Some(cur) },
                        ),
                        shown: fo.shown,
                    },
                }
            },
        }
    }
}

/// Evaluating argument forms left to right, the first failure ending the
/// walk.
pub open spec fn eval_forms_s(
    fuel: nat,
    args: Seq<ExpV>,
    envs: Seq<EnvV>,
    cur: int,
    shown: Seq<RowV>,
) -> FormsOut
    decreases fuel, 0int, args.len(),
{
    if args.len() == 0 {
        FormsOut { res: Ok(Seq::empty()), envs, shown }
    } else if fuel == 0 {
        FormsOut { res: Err("recursion depth exceeded"@), envs, shown }
    } else {
        let o = eval_s((fuel - 1) as nat, args[0], envs, cur, shown);
        match o.res {
            Err(m) => FormsOut { res: Err(m), envs: o.envs, shown: o.shown },
            Ok(v) => {
                let rest = eval_forms_s(fuel, args.drop_first(), o.envs, cur, o.shown);
                match rest.res {
                    Ok(vs) => FormsOut {
                        res: Ok(seq![v] + vs),
                        envs: rest.envs,
                        shown: rest.shown,
                    },
                    Err(m) => FormsOut { res: Err(m), envs: rest.envs, shown: rest.shown },
                }
            },
        }
    }
}

/// What `parse_eval` yields: tokenize, parse one form, evaluate it.
pub open spec fn parse_eval_s(
    fuel: nat,
    src: Seq<char>,
    envs: Seq<EnvV>,
    cur: int,
    shown: Seq<RowV>,
) -> EvalOut {
    match parse_s(tokens_of(src)) {
        Err(m) => EvalOut { res: Err(m), envs, shown },
        Ok((e, _)) => eval_s(fuel, e, envs, cur, shown),
    }
}

/// Evaluating argument forms yields one value per form.
pub proof fn lemma_eval_forms_len(
    fuel: nat,
    args: Seq<ExpV>,
    envs: Seq<EnvV>,
    cur: int,
    shown: Seq<RowV>,
)
    ensures
        eval_forms_s(fuel, args, envs, cur, shown).res matches Ok(vs) ==> vs.len() == args.len(),
    decreases fuel, 0int, args.len(),
{
    if args.len() == 0 || fuel == 0 {
    } else {
        let o = eval_s((fuel - 1) as nat, args[0], envs, cur, shown);
        match o.res {
            Ok(_) => {
                lemma_eval_forms_len(fuel, args.drop_first(), o.envs, cur, o.shown);
            }
            Err(_) => {}
        }
    }
}

/// Search the first `n` bindings, later entries winning.
fn assoc_get(data: &Vec<(String, FelispExp)>, n: usize, k: &str) -> (r: Option<FelispExp>)
    requires
        n <= data@.len(),
    ensures
        (match r {
            Some(v) => assoc_map(data.deep_view().take(n as int)).contains_key(k@) && assoc_map(
                data.deep_view().take(n as int),
            )[k@] == v@,
            None => !assoc_map(data.deep_view().take(n as int)).contains_key(k@),
        }),
    decreases n,
{
    if n == 0 {
        proof {
            assert(data.deep_view().take(0) =~= Seq::<(Seq<char>, ExpV)>::empty());
        }
        None
    } else {
        proof {
            assert(data.deep_view().take(n as int).drop_last() =~= data.deep_view().take(
                n - 1,
            ));
            assert(data.deep_view().take(n as int).last() == data.deep_view()[n - 1]);
        }
        let pair = &data[n - 1];
        if str_eq(pair.0.as_str(), k) {
            Some(pair.1.clone())
        } else {
            assoc_get(data, n - 1, k)
        }
    }
}

/// Resolve a name: search the scope's own bindings, then walk outward.
pub fn env_get(k: &str, arena: &EnvArena, env_id: usize) -> (r: Option<FelispExp>)
    requires
        wf_arena(arena@),
        env_id < arena@.len(),
    ensures
        (match r {
            Some(v) => lookup(arena@, env_id as int, k@) == Some(v@),
            None => lookup(arena@, env_id as int, k@) is None,
        }),
    decreases env_id,
{
    let env: &FelispEnv = &arena.envs[env_id];
    proof {
        assert(arena@[env_id as int] == env@);
    }
    match assoc_get(&env.data, env.data.len(), k) {
        Some(v) => {
            proof {
                assert(env.data.deep_view().take(env.data@.len() as int) =~= env.data.deep_view());
            }
            Some(v)
        }
        None => {
            proof {
                assert(env.data.deep_view().take(env.data@.len() as int) =~= env.data.deep_view());
            }
            match env.outer {
                Some(o) => {
                    proof {
                        assert(arena@[env_id as int].outer == Some(o as int));
                    }
                    env_get(k, arena, o)
                }
                None => None,
            }
        }
    }
}

/// The `exit` form: a cooperative halt. Evaluation never ends the process;
/// it reports this distinguished reason, and an embedding shell may stop.
#[allow(unused_variables)]
pub fn eval_exit_args(arg_forms: &[FelispExp]) -> (r: Result<FelispExp, FelispErr>)
    ensures
        res_v(r) == Err::<ExpV, Seq<char>>("exit requested"@),
{
    Err(FelispErr::Reason("exit requested".to_owned()))
}

/// The `if` form: evaluate the test, demand a boolean, then evaluate the
/// branch it picks.
pub fn eval_if_args(
    arg_forms: &[FelispExp],
    arena: &mut EnvArena,
    env_id: usize,
    fuel: u64,
    shown: &mut Vec<Row>,
) -> (r: Result<FelispExp, FelispErr>)
    requires
        wf_arena(old(arena)@),
        env_id < old(arena)@.len(),
    ensures
        ({
            let o = eval_if_s(
                fuel as nat,
                arg_forms.deep_view(),
                old(arena)@,
                env_id as int,
                old(shown).deep_view(),
            );
            &&& res_v(r) == o.res
            &&& final(arena)@ == o.envs
            &&& final(shown).deep_view() == o.shown
        }),
        wf_arena(final(arena)@),
        old(arena)@.len() <= final(arena)@.len(),
    decreases fuel, 2int, 0int,
{
    if fuel == 0 {
        return Err(FelispErr::Reason("recursion depth exceeded".to_owned()));
    }
    if arg_forms.len() == 0 {
        return Err(FelispErr::Reason("expected test form".to_owned()));
    }
    let test_eval = match eval(&arg_forms[0], arena, env_id, fuel - 1, shown) {
        Ok(v) => v,
        Err(e) => {
            return Err(e);
        }
    };
    match test_eval {
        FelispExp::Bool(b) => {
            let idx: usize = if b {
                1
            } else {
                2
            };
            if arg_forms.len() <= idx {
                if b {
                    Err(FelispErr::Reason("expected form idx=1".to_owned()))
                } else {
                    Err(FelispErr::Reason("expected form idx=2".to_owned()))
                }
            } else {
                eval(&arg_forms[idx], arena, env_id, fuel - 1, shown)
            }
        }
        _ => {
            let rendered = test_form_display(&arg_forms[0]);
            Err(FelispErr::Reason(rendered))
        }
    }
}

/// The complaint for a test form that did not reduce to a boolean, quoting
/// the form.
fn test_form_display(form: &FelispExp) -> (m: String)
    ensures
        m@ == "unexpected test form='"@ + display_of(form@) + "'"@,
{
    let rendered = form.display_string();
    let mut m = "unexpected test form='".to_owned();
    m.append(rendered.as_str());
    m.append("'");
    m
}

/// The `defn` form: evaluate the value form, bind the result under the bare
/// symbol in the current scope, return the name form unevaluated.
pub fn eval_defn_args(
    arg_forms: &[FelispExp],
    arena: &mut EnvArena,
    env_id: usize,
    fuel: u64,
    shown: &mut Vec<Row>,
) -> (r: Result<FelispExp, FelispErr>)
    requires
        wf_arena(old(arena)@),
        env_id < old(arena)@.len(),
    ensures
        ({
            let o = eval_defn_s(
                fuel as nat,
                arg_forms.deep_view(),
                old(arena)@,
                env_id as int,
                old(shown).deep_view(),
            );
            &&& res_v(r) == o.res
            &&& final(arena)@ == o.envs
            &&& final(shown).deep_view() == o.shown
        }),
        wf_arena(final(arena)@),
        old(arena)@.len() <= final(arena)@.len(),
    decreases fuel, 2int, 0int,
{
    if fuel == 0 {
        return Err(FelispErr::Reason("recursion depth exceeded".to_owned()));
    }
    if arg_forms.len() == 0 {
        return Err(FelispErr::Reason("expected first form".to_owned()));
    }
    let name: String = match &arg_forms[0] {
        FelispExp::Symbol(s) => s.clone(),
        _ => {
            return Err(FelispErr::Reason("expected first form to be a symbol".to_owned()));
        }
    };
    if arg_forms.len() < 2 {
        return Err(FelispErr::Reason("expected second form".to_owned()));
    }
    if arg_forms.len() > 2 {
        return Err(FelispErr::Reason("depub fn can only have two forms ".to_owned()));
    }
    let value = match eval(&arg_forms[1], arena, env_id, fuel - 1, shown) {
        Ok(v) => v,
        Err(e) => {
            return Err(e);
        }
    };
    arena.bind(env_id, name, value);
    Ok(arg_forms[0].clone())
}

/// The `select` form: evaluate the table form; a table displays its
/// occupied rows, anything else is silently a no-op.
pub fn eval_select_args(
    arg_forms: &[FelispExp],
    arena: &mut EnvArena,
    env_id: usize,
    fuel: u64,
    shown: &mut Vec<Row>,
) -> (r: Result<FelispExp, FelispErr>)
    requires
        wf_arena(old(arena)@),
        env_id < old(arena)@.len(),
    ensures
        ({
            let o = eval_select_s(
                fuel as nat,
                arg_forms.deep_view(),
                old(arena)@,
                env_id as int,
                old(shown).deep_view(),
            );
            &&& res_v(r) == o.res
            &&& final(arena)@ == o.envs
            &&& final(shown).deep_view() == o.shown
        }),
        wf_arena(final(arena)@),
        old(arena)@.len() <= final(arena)@.len(),
    decreases fuel, 2int, 0int,
{
    if fuel == 0 {
        return Err(FelispErr::Reason("recursion depth exceeded".to_owned()));
    }
    if arg_forms.len() == 0 {
        return Err(FelispErr::Reason("expected first form".to_owned()));
    }
    let evaluated = match eval(&arg_forms[0], arena, env_id, fuel - 1, shown) {
        Ok(v) => v,
        Err(e) => {
            return Err(e);
        }
    };
    match evaluated {
        FelispExp::Table(t) => {
            let mut rows = execute_select(&t);
            let ghost pre = shown.deep_view();
            let ghost added = rows.deep_view();
            shown.append(&mut rows);
            proof {
                assert(shown.deep_view() =~= pre + added);
            }
            Ok(arg_forms[0].clone())
        }
        _ => Ok(arg_forms[0].clone()),
    }
}

/// The `insert` form: evaluate the table form; a well-formed table takes a
/// row with id 1 and the two remaining forms rendered as text, displays
/// itself, and is re-bound in the current scope under the table form's
/// rendering; anything else is silently a no-op.
pub fn eval_insert_args(
    arg_forms: &[FelispExp],
    arena: &mut EnvArena,
    env_id: usize,
    fuel: u64,
    shown: &mut Vec<Row>,
) -> (r: Result<FelispExp, FelispErr>)
    requires
        wf_arena(old(arena)@),
        env_id < old(arena)@.len(),
    ensures
        ({
            let o = eval_insert_s(
                fuel as nat,
                arg_forms.deep_view(),
                old(arena)@,
                env_id as int,
                old(shown).deep_view(),
            );
            &&& res_v(r) == o.res
            &&& final(arena)@ == o.envs
            &&& final(shown).deep_view() == o.shown
        }),
        wf_arena(final(arena)@),
        old(arena)@.len() <= final(arena)@.len(),
    decreases fuel, 2int, 0int,
{
    if fuel == 0 {
        return Err(FelispErr::Reason("recursion depth exceeded".to_owned()));
    }
    if arg_forms.len() == 0 {
        return Err(FelispErr::Reason("expected first form".to_owned()));
    }
    if arg_forms.len() == 1 {
        return Err(FelispErr::Reason("expected second form".to_owned()));
    }
    if arg_forms.len() == 2 {
        return Err(FelispErr::Reason("expected second form".to_owned()));
    }
    let evaluated = match eval(&arg_forms[0], arena, env_id, fuel - 1, shown) {
        Ok(v) => v,
        Err(e) => {
            return Err(e);
        }
    };
    match evaluated {
        FelispExp::Table(mut t) => {
            if table_wf_check(&t) && t.num_rows < i32::MAX {
                let username = arg_forms[1].display_string();
                let email = arg_forms[2].display_string();
                execute_insert(&mut t, 1, username, email);
                let mut rows = execute_select(&t);
                let ghost pre = shown.deep_view();
                let ghost added = rows.deep_view();
                shown.append(&mut rows);
                proof {
                    assert(shown.deep_view() =~= pre + added);
                }
                let key = arg_forms[0].display_string();
                arena.bind(env_id, key, FelispExp::Table(t));
                Ok(arg_forms[0].clone())
            } else {
                Ok(arg_forms[0].clone())
            }
        }
        _ => Ok(arg_forms[0].clone()),
    }
}

/// An association list of distinct-position pairs denotes the map that
/// binds each name to its value, later names winning.
proof fn lemma_bind_params(pairs: Seq<(Seq<char>, ExpV)>, ks: Seq<Seq<char>>, vs: Seq<ExpV>)
    requires
        pairs.len() == ks.len(),
        ks.len() == vs.len(),
        forall|i: int| 0 <= i < pairs.len() ==> #[trigger] pairs[i] == (ks[i], vs[i]),
    ensures
        assoc_map(pairs) == bind_params(ks, vs),
    decreases pairs.len(),
{
    if pairs.len() > 0 {
        assert forall|i: int|
            0 <= i < pairs.drop_last().len() implies #[trigger] pairs.drop_last()[i] == (
            ks.drop_last()[i],
            vs.drop_last()[i],
        ) by {
            assert(pairs[i] == (ks[i], vs[i]));
        }
        lemma_bind_params(pairs.drop_last(), ks.drop_last(), vs.drop_last());
        assert(pairs.last() == (ks.last(), vs.last()));
    }
}

/// Build a lambda's call scope: check the parameter form and the arity,
/// evaluate the arguments in the caller's scope, and append a fresh scope
/// binding the parameters, chained to the caller's scope.
pub fn env_for_lambda(
    params: &FelispExp,
    arg_forms: &[FelispExp],
    arena: &mut EnvArena,
    env_id: usize,
    fuel: u64,
    shown: &mut Vec<Row>,
) -> (r: Result<usize, FelispErr>)
    requires
        wf_arena(old(arena)@),
        env_id < old(arena)@.len(),
    ensures
        ({
            let o = env_for_lambda_s(
                fuel as nat,
                params@,
                arg_forms.deep_view(),
                old(arena)@,
                env_id as int,
                old(shown).deep_view(),
            );
            &&& (match r {
                Ok(id) => o.res == Ok::<int, Seq<char>>(id as int) && (id as int)
                    < final(arena)@.len(),
                Err(e) => o.res == Err::<int, Seq<char>>(e.msg()),
            })
            &&& final(arena)@ == o.envs
            &&& final(shown).deep_view() == o.shown
        }),
        wf_arena(final(arena)@),
        old(arena)@.len() <= final(arena)@.len(),
    decreases fuel, 1int, 0int,
{
    if fuel == 0 {
        return Err(FelispErr::Reason("recursion depth exceeded".to_owned()));
    }
    let ks = match parse_list_of_symbol_strings(params) {
        Ok(ks) => ks,
        Err(e) => {
            return Err(e);
        }
    };
    if ks.len() != arg_forms.len() {
        let mut m = "expected ".to_owned();
        let a = u64_to_string(ks.len() as u64);
        m.append(a.as_str());
        m.append(" arguments, got ");
        let b = u64_to_string(arg_forms.len() as u64);
        m.append(b.as_str());
        return Err(FelispErr::Reason(m));
    }
    let vals = match eval_forms(arg_forms, arena, env_id, fuel, shown) {
        Ok(v) => v,
        Err(e) => {
            return Err(e);
        }
    };
    proof {
        lemma_eval_forms_len(
            fuel as nat,
            arg_forms.deep_view(),
            old(arena)@,
            env_id as int,
            old(shown).deep_view(),
        );
        lemma_exps_view(vals@);
    }
    let mut data: Vec<(String, FelispExp)> = Vec::new();
    let mut i: usize = 0;
    while i < ks.len()
        invariant
            i <= ks@.len(),
            ks@.len() == vals@.len(),
            data@.len() == i,
            forall|j: int|
                0 <= j < i ==> #[trigger] data@[j].deep_view() == (ks@[j]@, exp_view(vals@[j])),
        decreases ks@.len() - i,
    {
        data.push((ks[i].clone(), vals[i].clone()));
        i += 1;
    }
    proof {
        lemma_exps_view(vals@);
        assert forall|j: int|
            0 <= j < data.deep_view().len() implies #[trigger] data.deep_view()[j] == (
            ks.deep_view()[j],
            exps_view(vals@)[j],
        ) by {
            assert(data@[j].deep_view() == (ks@[j]@, exp_view(vals@[j])));
        }
        lemma_bind_params(data.deep_view(), ks.deep_view(), exps_view(vals@));
    }
    let child = arena.envs.len();
    arena.push_env(data, env_id);
    Ok(child)
}

/// Evaluate argument forms left to right, the first failure ending the
/// walk.
pub fn eval_forms(
    arg_forms: &[FelispExp],
    arena: &mut EnvArena,
    env_id: usize,
    fuel: u64,
    shown: &mut Vec<Row>,
) -> (r: Result<Vec<FelispExp>, FelispErr>)
    requires
        wf_arena(old(arena)@),
        env_id < old(arena)@.len(),
    ensures
        ({
            let o = eval_forms_s(
                fuel as nat,
                arg_forms.deep_view(),
                old(arena)@,
                env_id as int,
                old(shown).deep_view(),
            );
            &&& (match r {
                Ok(v) => o.res == Ok::<Seq<ExpV>, Seq<char>>(exps_view(v@)),
                Err(e) => o.res == Err::<Seq<ExpV>, Seq<char>>(e.msg()),
            })
            &&& final(arena)@ == o.envs
            &&& final(shown).deep_view() == o.shown
        }),
        wf_arena(final(arena)@),
        old(arena)@.len() <= final(arena)@.len(),
    decreases fuel, 0int, arg_forms@.len(),
{
    let ghost args = arg_forms.deep_view();
    let ghost envs0 = arena@;
    let ghost shown0 = shown.deep_view();
    let ghost full = eval_forms_s(fuel as nat, args, envs0, env_id as int, shown0);
    if arg_forms.len() == 0 {
        let out: Vec<FelispExp> = Vec::new();
        proof {
            assert(exps_view(out@) =~= Seq::<ExpV>::empty());
        }
        return Ok(out);
    }
    if fuel == 0 {
        return Err(FelispErr::Reason("recursion depth exceeded".to_owned()));
    }
    let mut out: Vec<FelispExp> = Vec::new();
    let mut i: usize = 0;
    proof {
        assert(args.skip(0) =~= args);
    }
    while i < arg_forms.len()
        invariant
            i <= args.len(),
            args == arg_forms.deep_view(),
            args.len() == arg_forms@.len(),
            fuel >= 1,
            wf_arena(arena@),
            env_id < old(arena)@.len(),
            old(arena)@.len() <= arena@.len(),
            out@.len() == i,
            envs0 == old(arena)@,
            shown0 == old(shown).deep_view(),
            full == eval_forms_s(fuel as nat, args, envs0, env_id as int, shown0),
            ({
                let rest = eval_forms_s(
                    fuel as nat,
                    args.skip(i as int),
                    arena@,
                    env_id as int,
                    shown.deep_view(),
                );
                &&& (rest.res matches Ok(vs) ==> full.res == Ok::<Seq<ExpV>, Seq<char>>(
                    exps_view(out@) + vs,
                ) && full.envs == rest.envs && full.shown == rest.shown)
                &&& (rest.res matches Err(m) ==> full.res == Err::<Seq<ExpV>, Seq<char>>(m)
                    && full.envs == rest.envs && full.shown == rest.shown)
            }),
        decreases arg_forms@.len() - i,
    {
        let ghost envs_h = arena@;
        let ghost shown_h = shown.deep_view();
        proof {
            assert(args.skip(i as int)[0] == args[i as int]);
            assert(args[i as int] == arg_forms@[i as int]@);
            assert(args.skip(i as int).drop_first() =~= args.skip(i as int + 1));
        }
        match eval(&arg_forms[i], arena, env_id, fuel - 1, shown) {
            Ok(v) => {
                let ghost prev_out = out@;
                out.push(v);
                proof {
                    lemma_exps_view(prev_out);
                    lemma_exps_view(out@);
                    assert(out@.drop_last() =~= prev_out);
                    let rest_new = eval_forms_s(
                        fuel as nat,
                        args.skip(i as int + 1),
                        arena@,
                        env_id as int,
                        shown.deep_view(),
                    );
                    match rest_new.res {
                        Ok(vs) => {
                            assert(exps_view(prev_out) + (seq![exp_view(v)] + vs) =~= exps_view(
                                out@,
                            ) + vs);
                        }
                        Err(_) => {}
                    }
                }
                i += 1;
            }
            Err(e) => {
                proof {
                    let o = eval_s(
                        (fuel - 1) as nat,
                        args[i as int],
                        envs_h,
                        env_id as int,
                        shown_h,
                    );
                    let rest = eval_forms_s(
                        fuel as nat,
                        args.skip(i as int),
                        envs_h,
                        env_id as int,
                        shown_h,
                    );
                    assert(o.res == Err::<ExpV, Seq<char>>(e.msg()));
                    assert(rest.res == Err::<Seq<ExpV>, Seq<char>>(e.msg()) && rest.envs == o.envs
                        && rest.shown == o.shown);
                }
                return Err(e);
            }
        }
    }
    proof {
        assert(args.skip(args.len() as int) =~= Seq::<ExpV>::empty());
        assert(exps_view(out@) + Seq::<ExpV>::empty() =~= exps_view(out@));
    }
    Ok(out)
}

/// Special-form dispatch: hand the argument forms to the special form the
/// head names, or report that the head is no special form.
pub fn eval_built_in_form(
    exp: &FelispExp,
    arg_forms: &[FelispExp],
    arena: &mut EnvArena,
    env_id: usize,
    fuel: u64,
    shown: &mut Vec<Row>,
) -> (r: Option<Result<FelispExp, FelispErr>>)
    requires
        wf_arena(old(arena)@),
        env_id < old(arena)@.len(),
    ensures
        ({
            let o = eval_built_in_s(
                fuel as nat,
                exp@,
                arg_forms.deep_view(),
                old(arena)@,
                env_id as int,
                old(shown).deep_view(),
            );
            match r {
                Some(res) => o matches Some(oo) && res_v(res) == oo.res && final(arena)@
                    == oo.envs && final(shown).deep_view() == oo.shown,
                None => o is None && final(arena)@ == old(arena)@ && final(shown)@ == old(
                    shown,
                )@,
            }
        }),
        wf_arena(final(arena)@),
        old(arena)@.len() <= final(arena)@.len(),
    decreases fuel, 3int, 0int,
{
    match exp {
        FelispExp::Symbol(s) => {
            if str_eq(s.as_str(), "if") {
                Some(eval_if_args(arg_forms, arena, env_id, fuel, shown))
            } else if str_eq(s.as_str(), "defn") {
                Some(eval_defn_args(arg_forms, arena, env_id, fuel, shown))
            } else if str_eq(s.as_str(), "fn") {
                Some(eval_lambda_args(arg_forms))
            } else if str_eq(s.as_str(), "select") {
                Some(eval_select_args(arg_forms, arena, env_id, fuel, shown))
            } else if str_eq(s.as_str(), "insert") {
                Some(eval_insert_args(arg_forms, arena, env_id, fuel, shown))
            } else if str_eq(s.as_str(), "exit") {
                Some(eval_exit_args(arg_forms))
            } else {
                None
            }
        }
        _ => None,
    }
}

/// Evaluate one expression against the arena, the scope `env_id` being
/// current; rows displayed by `select`/`insert` forms are appended to
/// `shown`. The result, the arena afterwards, and the displayed rows are
/// exactly what the spec-level interpreter `eval_s` gives for `fuel` steps.
pub fn eval(
    exp: &FelispExp,
    arena: &mut EnvArena,
    env_id: usize,
    fuel: u64,
    shown: &mut Vec<Row>,
) -> (r: Result<FelispExp, FelispErr>)
    requires
        wf_arena(old(arena)@),
        env_id < old(arena)@.len(),
    ensures
        ({
            let o = eval_s(
                fuel as nat,
                exp@,
                old(arena)@,
                env_id as int,
                old(shown).deep_view(),
            );
            &&& res_v(r) == o.res
            &&& final(arena)@ == o.envs
            &&& final(shown).deep_view() == o.shown
        }),
        wf_arena(final(arena)@),
        old(arena)@.len() <= final(arena)@.len(),
    decreases fuel, 4int, 0int,
{
    if fuel == 0 {
        return Err(FelispErr::Reason("recursion depth exceeded".to_owned()));
    }
    match exp {
        FelispExp::Number(_) => Ok(exp.clone()),
        FelispExp::Bool(_) => Ok(exp.clone()),
        FelispExp::Func(_) => Err(FelispErr::Reason("unexpected form".to_owned())),
        FelispExp::Lambda(_) => Err(
            FelispErr::Reason("unexpected form in lambda".to_owned()),
        ),
        FelispExp::Symbol(k) => match env_get(k.as_str(), arena, env_id) {
            Some(v) => Ok(v),
            None => Err(FelispErr::Reason(unbound_symbol_message(k.as_str()))),
        },
        FelispExp::Table(_) => Ok(exp.clone()),
        FelispExp::List(list) => {
            proof {
                lemma_exps_view(list@);
            }
            if list.len() == 0 {
                return Err(FelispErr::Reason("expected a non-empty list".to_owned()));
            }
            let ghost lv = exps_view(list@);
            let head: &FelispExp = &list[0];
            let args: &[FelispExp] = slice_subrange(list.as_slice(), 1, list.len());
            proof {
                assert(head@ == lv[0]);
                assert(args.deep_view() =~= lv.drop_first());
            }
            let ghost envs0 = arena@;
            let ghost shown0 = shown.deep_view();
            match eval_built_in_form(head, args, arena, env_id, fuel, shown) {
                Some(res) => res,
                None => {
                    let first_eval = match eval(head, arena, env_id, fuel - 1, shown) {
                        Ok(v) => v,
                        Err(e) => {
                            return Err(e);
                        }
                    };
                    match first_eval {
                        FelispExp::Func(f) => {
                            let vals = match eval_forms(args, arena, env_id, fuel, shown) {
                                Ok(v) => v,
                                Err(e) => {
                                    return Err(e);
                                }
                            };
                            let vs = vals.as_slice();
                            proof {
                                lemma_exps_view(vals@);
                                assert(vs.deep_view() =~= exps_view(vals@));
                            }
                            apply_native(f, vs)
                        }
                        FelispExp::Lambda(lam) => {
                            let params_ref: &FelispExp = &*lam.params_exp;
                            let child_res = env_for_lambda(
                                params_ref,
                                args,
                                arena,
                                env_id,
                                fuel,
                                shown,
                            );
                            match child_res {
                                Ok(child) => eval(&*lam.body_exp, arena, child, fuel - 1, shown),
                                Err(e) => Err(e),
                            }
                        }
                        _ => Err(
                            FelispErr::Reason("first form must be a function".to_owned()),
                        ),
                    }
                }
            }
        }
    }
}

/// The complaint for an unbound symbol, quoting the name.
fn unbound_symbol_message(k: &str) -> (m: String)
    ensures
        m@ == "<< unexpected symbol k='"@ + k@ + "'"@,
{
    let mut m = "<< unexpected symbol k='".to_owned();
    m.append(k);
    m.append("'");
    m
}

/// Tokenize a line of source text, parse its first form, and evaluate it.
pub fn parse_eval(
    expr: String,
    arena: &mut EnvArena,
    env_id: usize,
    fuel: u64,
    shown: &mut Vec<Row>,
) -> (r: Result<FelispExp, FelispErr>)
    requires
        wf_arena(old(arena)@),
        env_id < old(arena)@.len(),
    ensures
        ({
            let o = parse_eval_s(
                fuel as nat,
                expr@,
                old(arena)@,
                env_id as int,
                old(shown).deep_view(),
            );
            &&& res_v(r) == o.res
            &&& final(arena)@ == o.envs
            &&& final(shown).deep_view() == o.shown
        }),
        wf_arena(final(arena)@),
{
    let tokens = tokenize(expr);
    let tv = tokens.as_slice();
    proof {
        assert(tv.deep_view() =~= tokens.deep_view());
    }
    match parse(tv) {
        Ok((parsed, _rest)) => eval(&parsed, arena, env_id, fuel, shown),
        Err(e) => Err(e),
    }
}

/// The `fn` form: build a lambda from the parameter form and body form,
/// evaluating neither.
pub fn eval_lambda_args(arg_forms: &[FelispExp]) -> (r: Result<FelispExp, FelispErr>)
    ensures
        res_v(r) == lambda_args_s(arg_forms.deep_view()),
{
    if arg_forms.len() == 0 {
        Err(FelispErr::Reason("expected args form".to_owned()))
    } else if arg_forms.len() == 1 {
        Err(FelispErr::Reason("expected second form".to_owned()))
    } else if arg_forms.len() > 2 {
        Err(FelispErr::Reason("pub fn definition can only have two forms".to_owned()))
    } else {
        Ok(FelispExp::Lambda(FelispLambda {
            params_exp: Box::new(arg_forms[0].clone()),
            body_exp: Box::new(arg_forms[1].clone()),
        }))
    }
}

} // verus!
