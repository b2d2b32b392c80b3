//! Tokenizer and parser.
//!
//! Tokenizing treats `(` and `)` as one-character tokens, ASCII whitespace
//! as a separator, and any other maximal run of characters as one token; it
//! is total and deterministic. Parsing is recursive descent over the token
//! sequence: `(` opens a list read to the matching `)`, a stray `)` is an
//! error, and anything else is an atom (boolean literal, decimal number, or
//! symbol). `parse` returns the first complete form and the unconsumed
//! tokens.

use vstd::prelude::*;
use vstd::slice::slice_subrange;

use crate::data::ExpV;
use crate::data::FelispErr;
use crate::data::FelispExp;
use crate::data::exp_view;
use crate::data::exps_view;
use crate::data::lemma_exps_view;
use crate::data::str_eq;
use crate::num::token_is_number;
use crate::num::token_number_val;
use crate::num::parse_i64;

verus! {

/// ASCII whitespace, the token separator.
pub open spec fn is_space(c: char) -> bool {
    c == ' ' || c == '\t' || c == '\n' || c == '\r' || c == '\u{b}' || c == '\u{c}'
}

/// The two one-character tokens.
pub open spec fn is_paren(c: char) -> bool {
    c == '(' || c == ')'
}

/// Length of the maximal token run at the head of `s`.
pub open spec fn word_len(s: Seq<char>) -> nat
    decreases s.len(),
{
    if s.len() == 0 || is_space(s[0]) || is_paren(s[0]) {
        0
    } else {
        1 + word_len(s.drop_first())
    }
}

/// A token run never reaches past the end of the text, and is non-empty
/// where one starts.
pub proof fn lemma_word_len_bounds(t: Seq<char>)
    ensures
        word_len(t) <= t.len(),
        t.len() > 0 && !is_space(t[0]) && !is_paren(t[0]) ==> word_len(t) >= 1,
    decreases t.len(),
{
    if t.len() > 0 && !is_space(t[0]) && !is_paren(t[0]) {
        lemma_word_len_bounds(t.drop_first());
    }
}

/// The token sequence of a piece of source text.
pub open spec fn tokens_of(s: Seq<char>) -> Seq<Seq<char>>
    decreases s.len(),
    via tokens_of_dec
{
    if s.len() == 0 {
        Seq::empty()
    } else if is_space(s[0]) {
        tokens_of(s.drop_first())
    } else if is_paren(s[0]) {
        seq![seq![s[0]]] + tokens_of(s.drop_first())
    } else {
        seq![s.take(word_len(s) as int)] + tokens_of(s.skip(word_len(s) as int))
    }
}

#[via_fn]
proof fn tokens_of_dec(s: Seq<char>) {
    if s.len() != 0 && !is_space(s[0]) && !is_paren(s[0]) {
        lemma_word_len_bounds(s);
    }
}

/// `word_len` is the position of the first separator or paren.
pub proof fn lemma_word_len(t: Seq<char>, m: int)
    requires
        0 <= m <= t.len(),
        forall|k: int| 0 <= k < m ==> !is_space(#[trigger] t[k]) && !is_paren(t[k]),
        m == t.len() || is_space(t[m]) || is_paren(t[m]),
    ensures
        word_len(t) == m,
    decreases m,
{
    if m > 0 {
        lemma_word_len(t.drop_first(), m - 1);
    }
}

fn is_space_c(c: char) -> (b: bool)
    ensures
        b == is_space(c),
{
    c == ' ' || c == '\t' || c == '\n' || c == '\r' || c == '\u{b}' || c == '\u{c}'
}

fn is_paren_c(c: char) -> (b: bool)
    ensures
        b == is_paren(c),
{
    c == '(' || c == ')'
}

/// First position at or after `j` holding a separator or paren.
fn scan_word(s: &str, j: usize) -> (end: usize)
    requires
        j <= s@.len(),
    ensures
        j <= end <= s@.len(),
        forall|k: int| j <= k < end ==> !is_space(#[trigger] s@[k]) && !is_paren(s@[k]),
        end == s@.len() || is_space(s@[end as int]) || is_paren(s@[end as int]),
    decreases s@.len() - j,
{
    if j == s.unicode_len() {
        return j;
    }
    let c = s.get_char(j);
    if is_space_c(c) || is_paren_c(c) {
        j
    } else {
        scan_word(s, j + 1)
    }
}

/// Split source text into tokens: parens stand alone, whitespace separates,
/// all other characters are kept as written.
pub fn tokenize(expr: String) -> (tokens: Vec<String>)
    ensures
        tokens.deep_view() == tokens_of(expr@),
{
    let s = expr.as_str();
    let n = s.unicode_len();
    let mut tokens: Vec<String> = Vec::new();
    let mut i: usize = 0;
    proof {
        assert(expr@.skip(0) =~= expr@);
    }
    while i < n
        invariant
            i <= n,
            n == s@.len(),
            s@ == expr@,
            tokens_of(expr@) =~= tokens.deep_view() + tokens_of(expr@.skip(i as int)),
        decreases n - i,
    {
        let c = s.get_char(i);
        let ghost rest = expr@.skip(i as int);
        proof {
            assert(rest[0] == expr@[i as int]);
            assert(rest.drop_first() =~= expr@.skip(i as int + 1));
        }
        if is_space_c(c) {
            i += 1;
        } else if is_paren_c(c) {
            let tok = s.substring_char(i, i + 1).to_owned();
            proof {
                assert(tok@ =~= seq![expr@[i as int]]);
            }
            let ghost prev = tokens.deep_view();
            tokens.push(tok);
            proof {
                assert(tokens.deep_view() =~= prev.push(seq![expr@[i as int]]));
                assert(tokens_of(expr@) =~= tokens.deep_view() + tokens_of(
                    expr@.skip(i as int + 1),
                ));
            }
            i += 1;
        } else {
            let j = scan_word(s, i + 1);
            proof {
                lemma_word_len(rest, j - i);
                assert(rest.take(j - i) =~= expr@.subrange(i as int, j as int));
                assert(rest.skip(j - i) =~= expr@.skip(j as int));
            }
            let tok = s.substring_char(i, j).to_owned();
            let ghost prev = tokens.deep_view();
            tokens.push(tok);
            proof {
                assert(tokens.deep_view() =~= prev.push(expr@.subrange(i as int, j as int)));
                assert(tokens_of(expr@) =~= tokens.deep_view() + tokens_of(expr@.skip(j as int)));
            }
            i = j;
        }
    }
    proof {
        assert(expr@.skip(n as int) =~= Seq::<char>::empty());
        assert(tokens.deep_view() =~= tokens.deep_view() + tokens_of(expr@.skip(n as int)));
    }
    tokens
}

/// What an atom token denotes: a boolean literal, a number, or a symbol.
pub open spec fn atom_of(t: Seq<char>) -> ExpV {
    if t == "true"@ {
        ExpV::Bool(true)
    } else if t == "false"@ {
        ExpV::Bool(false)
    } else if token_is_number(t) {
        ExpV::Number(token_number_val(t))
    } else {
        ExpV::Symbol(t)
    }
}

/// What `parse` yields on a token sequence: the first complete form and the
/// remaining tokens, or the reason no form starts here.
pub open spec fn parse_s(toks: Seq<Seq<char>>) -> Result<(ExpV, Seq<Seq<char>>), Seq<char>>
    decreases toks.len(), 0int,
{
    if toks.len() == 0 {
        Err("Could not get token"@)
    } else if toks[0] == "("@ {
        match read_seq_s(toks.drop_first()) {
            Ok((elems, rest)) => Ok((ExpV::List(elems), rest)),
            Err(m) => Err(m),
        }
    } else if toks[0] == ")"@ {
        Err("unexpected `)`"@)
    } else {
        Ok((atom_of(toks[0]), toks.drop_first()))
    }
}

/// What reading a list body yields: the elements up to the matching `)` and
/// the tokens after it.
pub open spec fn read_seq_s(toks: Seq<Seq<char>>) -> Result<(Seq<ExpV>, Seq<Seq<char>>), Seq<char>>
    decreases toks.len(), 1int,
{
    if toks.len() == 0 {
        Err("could not find closing `)`"@)
    } else if toks[0] == ")"@ {
        Ok((Seq::empty(), toks.drop_first()))
    } else {
        match parse_s(toks) {
            Ok((exp, rest)) => if rest.len() < toks.len() {
                match read_seq_s(rest) {
                    Ok((elems, rest2)) => Ok((seq![exp] + elems, rest2)),
                    Err(m) => Err(m),
                }
            } else {
                Err("could not find closing `)`"@)
            },
            Err(m) => Err(m),
        }
    }
}

/// `parse` always consumes at least one token on success.
pub proof fn lemma_parse_consumes(toks: Seq<Seq<char>>)
    ensures
        parse_s(toks) matches Ok((e, r)) ==> r.len() < toks.len(),
    decreases toks.len(), 0int,
{
    if toks.len() > 0 && toks[0] == "("@ {
        lemma_read_seq_consumes(toks.drop_first());
    }
}

/// Reading a list body always consumes at least one token on success.
pub proof fn lemma_read_seq_consumes(toks: Seq<Seq<char>>)
    ensures
        read_seq_s(toks) matches Ok((l, r)) ==> r.len() < toks.len(),
    decreases toks.len(), 1int,
{
    if toks.len() == 0 || toks[0] == ")"@ {
    } else {
        lemma_parse_consumes(toks);
        match parse_s(toks) {
            Ok(p) => {
                if p.1.len() < toks.len() {
                    lemma_read_seq_consumes(p.1);
                }
            }
            Err(_) => {}
        }
    }
}

/// View of a parser result: the parsed form, the leftover tokens, or the
/// error message.
pub open spec fn parse_res_v(r: Result<(FelispExp, &[String]), FelispErr>) -> Result<
    (ExpV, Seq<Seq<char>>),
    Seq<char>,
> {
    match r {
        Ok((e, rest)) => Ok((e@, rest.deep_view())),
        Err(e) => Err(e.msg()),
    }
}

/// Parse the first complete form from `tokens`, returning it with the
/// unconsumed tokens; fails on an empty sequence or a stray `)`.
pub fn parse<'a>(tokens: &'a [String]) -> (r: Result<(FelispExp, &'a [String]), FelispErr>)
    ensures
        parse_res_v(r) == parse_s(tokens.deep_view()),
    decreases tokens@.len(), 0int,
{
    if tokens.len() == 0 {
        return Err(FelispErr::Reason("Could not get token".to_owned()));
    }
    let tok: &String = &tokens[0];
    let rest: &[String] = slice_subrange(tokens, 1, tokens.len());
    proof {
        assert(rest.deep_view() =~= tokens.deep_view().drop_first());
    }
    if str_eq(tok.as_str(), "(") {
        read_seq(rest)
    } else if str_eq(tok.as_str(), ")") {
        Err(FelispErr::Reason("unexpected `)`".to_owned()))
    } else {
        Ok((parse_atom(tok.as_str()), rest))
    }
}

/// Read list elements up to the matching `)`; fails when the tokens run out
/// first.
pub fn read_seq<'a>(tokens: &'a [String]) -> (r: Result<(FelispExp, &'a [String]), FelispErr>)
    ensures
        parse_res_v(r) == (match read_seq_s(tokens.deep_view()) {
            Ok((elems, rest)) => Ok::<(ExpV, Seq<Seq<char>>), Seq<char>>(
                (ExpV::List(elems), rest),
            ),
            Err(m) => Err(m),
        }),
    decreases tokens@.len(), 1int,
{
    let mut res: Vec<FelispExp> = Vec::new();
    let mut xs: &[String] = tokens;
    loop
        invariant
            xs.deep_view().len() <= tokens.deep_view().len(),
            (match read_seq_s(xs.deep_view()) {
                Ok((elems, rest)) => read_seq_s(tokens.deep_view()) == Ok::<
                    (Seq<ExpV>, Seq<Seq<char>>),
                    Seq<char>,
                >((exps_view(res@) + elems, rest)),
                Err(m) => read_seq_s(tokens.deep_view()) == Err::<
                    (Seq<ExpV>, Seq<Seq<char>>),
                    Seq<char>,
                >(m),
            }),
        decreases xs@.len(),
    {
        if xs.len() == 0 {
            return Err(FelispErr::Reason("could not find closing `)`".to_owned()));
        }
        let next: &String = &xs[0];
        if str_eq(next.as_str(), ")") {
            let after = slice_subrange(xs, 1, xs.len());
            proof {
                assert(after.deep_view() =~= xs.deep_view().drop_first());
                lemma_exps_view(res@);
                assert(exps_view(res@) + Seq::<ExpV>::empty() =~= exps_view(res@));
            }
            return Ok((FelispExp::List(res), after));
        }
        let ghost old_xs = xs.deep_view();
        let ghost old_res = res@;
        proof {
            lemma_parse_consumes(old_xs);
        }
        match parse(xs) {
            Ok((exp, new_xs)) => {
                res.push(exp);
                xs = new_xs;
                proof {
                    lemma_exps_view(old_res);
                    lemma_exps_view(res@);
                    assert(res@.drop_last() =~= old_res);
                    match read_seq_s(xs.deep_view()) {
                        Ok(p) => {
                            assert(exps_view(old_res) + (seq![exp@] + p.0) =~= exps_view(res@)
                                + p.0);
                        }
                        Err(_) => {}
                    }
                }
            }
            Err(e) => {
                return Err(e);
            }
        }
    }
}

/// The number an expression stands for, or the complaint for anything that
/// is not a number.
pub open spec fn num_of_exp(e: ExpV) -> Result<int, Seq<char>> {
    match e {
        ExpV::Number(n) => Ok(n),
        _ => Err("expected a number"@),
    }
}

/// The numbers a whole argument list stands for; the first non-number fails.
pub open spec fn nums_of(args: Seq<ExpV>) -> Result<Seq<int>, Seq<char>>
    decreases args.len(),
{
    if args.len() == 0 {
        Ok(Seq::empty())
    } else {
        match nums_of(args.drop_last()) {
            Ok(v) => match num_of_exp(args.last()) {
                Ok(n) => Ok(v.push(n)),
                Err(m) => Err(m),
            },
            Err(m) => Err(m),
        }
    }
}

/// Pointwise mathematical values of machine integers.
pub open spec fn ints_view(s: Seq<i64>) -> Seq<int> {
    Seq::new(s.len(), |i: int| s[i] as int)
}

/// Demand that one argument is a number.
pub fn parse_single_float(exp: &FelispExp) -> (r: Result<i64, FelispErr>)
    ensures
        r matches Ok(v) ==> num_of_exp(exp@) == Ok::<int, Seq<char>>(v as int),
        r matches Err(e) ==> num_of_exp(exp@) == Err::<int, Seq<char>>(e.msg()),
{
    match exp {
        FelispExp::Number(n) => Ok(*n),
        _ => Err(FelispErr::Reason("expected a number".to_owned())),
    }
}

/// Demand that every argument is a number, in order.
pub fn parse_list_of_floats(args: &[FelispExp]) -> (r: Result<Vec<i64>, FelispErr>)
    ensures
        r matches Ok(v) ==> nums_of(args.deep_view()) == Ok::<Seq<int>, Seq<char>>(
            ints_view(v@),
        ),
        r matches Err(e) ==> nums_of(args.deep_view()) == Err::<Seq<int>, Seq<char>>(e.msg()),
{
    let mut out: Vec<i64> = Vec::new();
    let mut i: usize = 0;
    proof {
        assert(args.deep_view().take(0) =~= Seq::<ExpV>::empty());
        assert(ints_view(out@) =~= Seq::<int>::empty());
    }
    while i < args.len()
        invariant
            i <= args@.len(),
            out@.len() == i,
            nums_of(args.deep_view().take(i as int)) == Ok::<Seq<int>, Seq<char>>(
                ints_view(out@),
            ),
        decreases args@.len() - i,
    {
        let ghost prefix = args.deep_view().take(i as int);
        let ghost next = args.deep_view().take(i as int + 1);
        proof {
            assert(next.drop_last() =~= prefix);
            assert(next.last() == args.deep_view()[i as int]);
        }
        match parse_single_float(&args[i]) {
            Ok(v) => {
                let ghost prevv = out@;
                out.push(v);
                proof {
                    assert(ints_view(out@) =~= ints_view(prevv).push(v as int));
                }
            }
            Err(e) => {
                proof {
                    lemma_nums_of_extend_err(args.deep_view(), i as int + 1);
                }
                return Err(e);
            }
        }
        i += 1;
    }
    proof {
        assert(args.deep_view().take(args@.len() as int) =~= args.deep_view());
    }
    Ok(out)
}

/// Once a prefix of the arguments fails as numbers, the whole list fails
/// with the same complaint.
proof fn lemma_nums_of_extend_err(args: Seq<ExpV>, k: int)
    requires
        0 <= k <= args.len(),
        nums_of(args.take(k)) is Err,
    ensures
        nums_of(args) == nums_of(args.take(k)),
    decreases args.len() - k,
{
    if k < args.len() {
        assert(args.take(k + 1).drop_last() =~= args.take(k));
        lemma_nums_of_extend_err(args, k + 1);
    } else {
        assert(args.take(k) =~= args);
    }
}

/// The parameter names a lambda's parameter form declares, or the complaint
/// when the form is not a list of bare symbols.
pub open spec fn symbols_of(e: ExpV) -> Result<Seq<Seq<char>>, Seq<char>> {
    match e {
        ExpV::List(l) => symbol_names(l),
        _ => Err("expected args form to be a list"@),
    }
}

/// The names of a sequence of symbol expressions; anything else fails.
pub open spec fn symbol_names(l: Seq<ExpV>) -> Result<Seq<Seq<char>>, Seq<char>>
    decreases l.len(),
{
    if l.len() == 0 {
        Ok(Seq::empty())
    } else {
        match symbol_names(l.drop_last()) {
            Ok(ks) => match l.last() {
                ExpV::Symbol(s) => Ok(ks.push(s)),
                _ => Err("expected symbols in the argument list"@),
            },
            Err(m) => Err(m),
        }
    }
}

/// Once a prefix fails as symbols, the whole list fails the same way.
proof fn lemma_symbol_names_extend_err(l: Seq<ExpV>, k: int)
    requires
        0 <= k <= l.len(),
        symbol_names(l.take(k)) is Err,
    ensures
        symbol_names(l) == symbol_names(l.take(k)),
    decreases l.len() - k,
{
    if k < l.len() {
        assert(l.take(k + 1).drop_last() =~= l.take(k));
        lemma_symbol_names_extend_err(l, k + 1);
    } else {
        assert(l.take(k) =~= l);
    }
}

/// Demand that a lambda's parameter form is a list of bare symbols, and
/// collect their names.
pub fn parse_list_of_symbol_strings(form: &FelispExp) -> (r: Result<Vec<String>, FelispErr>)
    ensures
        r matches Ok(ks) ==> symbols_of(form@) == Ok::<Seq<Seq<char>>, Seq<char>>(
            ks.deep_view(),
        ),
        r matches Err(e) ==> symbols_of(form@) == Err::<Seq<Seq<char>>, Seq<char>>(e.msg()),
{
    let elems: &Vec<FelispExp> = match form {
        FelispExp::List(elems) => elems,
        _ => {
            return Err(FelispErr::Reason("expected args form to be a list".to_owned()));
        }
    };
    proof {
        lemma_exps_view(elems@);
    }
    let ghost l = exps_view(elems@);
    let mut out: Vec<String> = Vec::new();
    let mut i: usize = 0;
    proof {
        assert(l.take(0) =~= Seq::<ExpV>::empty());
        assert(out.deep_view() =~= Seq::<Seq<char>>::empty());
    }
    while i < elems.len()
        invariant
            i <= elems@.len(),
            form@ == ExpV::List(l),
            l == exps_view(elems@),
            l.len() == elems@.len(),
            forall|k: int| 0 <= k < l.len() ==> l[k] == exp_view(elems@[k]),
            symbol_names(l.take(i as int)) == Ok::<Seq<Seq<char>>, Seq<char>>(out.deep_view()),
        decreases elems@.len() - i,
    {
        proof {
            assert(l.take(i as int + 1).drop_last() =~= l.take(i as int));
            assert(l.take(i as int + 1).last() == l[i as int]);
        }
        match &elems[i] {
            FelispExp::Symbol(s) => {
                let ghost prev = out.deep_view();
                out.push(s.clone());
                proof {
                    assert(out.deep_view() =~= prev.push(s@));
                }
            }
            _ => {
                proof {
                    lemma_symbol_names_extend_err(l, i as int + 1);
                }
                return Err(FelispErr::Reason("expected symbols in the argument list".to_owned()));
            }
        }
        i += 1;
    }
    proof {
        assert(l.take(elems@.len() as int) =~= l);
    }
    Ok(out)
}

/// Turn one token into an atom: `true`/`false`, else a number when the token
/// denotes one, else a symbol holding the raw text.
pub fn parse_atom(token: &str) -> (e: FelispExp)
    ensures
        e@ == atom_of(token@),
{
    if str_eq(token, "true") {
        FelispExp::Bool(true)
    } else if str_eq(token, "false") {
        FelispExp::Bool(false)
    } else {
        match parse_i64(token) {
            Some(v) => FelispExp::Number(v),
            None => FelispExp::Symbol(token.to_owned()),
        }
    }
}

} // verus!
