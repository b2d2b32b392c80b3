//! The expression model and the table store's data types, together with
//! their mathematical views.
//!
//! An expression is a closed, tagged union: booleans, symbols, numbers,
//! lists, built-in operators, user lambdas, and embedded tables. Numbers are
//! 64-bit signed integers: the interpreter's arithmetic is exact two's
//! complement arithmetic, stated precisely in the evaluator's model.
//!
//! Each executable type has a view: symbols and names become `Seq<char>`,
//! lists become sequences of views, tables become a `TableV`. All contracts
//! in the crate speak of these views.

use vstd::prelude::*;

verus! {

/// Number of row slots in one table page.
pub const ROWS_PER_PAGE: usize = 10;

/// Size in bytes reserved for a serialized page by the storage shell.
pub const PAGE_SIZE: u32 = 4096;

/// Upper bound on pages a table may hold in the storage shell's file format.
pub const TABLE_MAX_PAGES: usize = 100;

/// Upper bound on rows implied by `ROWS_PER_PAGE` and `TABLE_MAX_PAGES`.
pub const TABLE_MAX_ROWS: usize = ROWS_PER_PAGE * TABLE_MAX_PAGES;

/// A stored row: an id and two text fields.
#[derive(Debug)]
pub struct Row {
    pub id: i32,
    pub username: String,
    pub email: String,
}

/// Mathematical view of a `Row`.
pub struct RowV {
    pub id: int,
    pub username: Seq<char>,
    pub email: Seq<char>,
}

impl View for Row {
    type V = RowV;

    open spec fn view(&self) -> RowV {
        RowV { id: self.id as int, username: self.username@, email: self.email@ }
    }
}

impl DeepView for Row {
    type V = RowV;

    open spec fn deep_view(&self) -> RowV {
        self.view()
    }
}

impl Clone for Row {
    fn clone(&self) -> (r: Self)
        ensures
            r@ == self@,
    {
        Row { id: self.id, username: self.username.clone(), email: self.email.clone() }
    }
}

/// A paged table: rows live in fixed-capacity pages of `ROWS_PER_PAGE`
/// optional slots; pages are allocated lazily and never removed.
#[derive(Debug)]
pub struct Table {
    pub name: String,
    pub num_rows: i32,
    pub num_pages: i32,
    pub pages: Vec<Vec<Option<Row>>>,
}

/// Mathematical view of a `Table`.
pub struct TableV {
    pub name: Seq<char>,
    pub num_rows: int,
    pub num_pages: int,
    pub pages: Seq<Seq<Option<RowV>>>,
}

impl View for Table {
    type V = TableV;

    open spec fn view(&self) -> TableV {
        TableV {
            name: self.name@,
            num_rows: self.num_rows as int,
            num_pages: self.num_pages as int,
            pages: self.pages.deep_view(),
        }
    }
}

impl Clone for Table {
    fn clone(&self) -> (r: Self)
        ensures
            r@ == self@,
    {
        let mut pages: Vec<Vec<Option<Row>>> = Vec::new();
        let mut i: usize = 0;
        while i < self.pages.len()
            invariant
                i <= self.pages.len(),
                pages@.len() == i,
                forall|k: int|
                    0 <= k < i ==> pages@[k].deep_view() == self.pages@[k].deep_view(),
            decreases self.pages.len() - i,
        {
            let src = &self.pages[i];
            let mut page: Vec<Option<Row>> = Vec::new();
            let mut j: usize = 0;
            while j < src.len()
                invariant
                    j <= src.len(),
                    page@.len() == j,
                    forall|k: int| 0 <= k < j ==> page@[k].deep_view() == src@[k].deep_view(),
                decreases src.len() - j,
            {
                let slot = match &src[j] {
                    Some(row) => Some(row.clone()),
                    None => None,
                };
                page.push(slot);
                j += 1;
            }
            assert(page.deep_view() =~= src.deep_view());
            pages.push(page);
            i += 1;
        }
        assert(pages.deep_view() =~= self.pages.deep_view());
        Table {
            name: self.name.clone(),
            num_rows: self.num_rows,
            num_pages: self.num_pages,
            pages,
        }
    }
}

/// The built-in operators pre-bound in the default environment.
#[derive(Clone, Copy, Debug, PartialEq, Eq, Structural)]
pub enum NativeFn {
    Add,
    Sub,
    Equal,
    Greater,
    GreaterEq,
    Less,
    LessEq,
}

/// A user-defined lambda: an unevaluated parameter form and body form.
#[derive(Debug)]
pub struct FelispLambda {
    pub params_exp: Box<FelispExp>,
    pub body_exp: Box<FelispExp>,
}

/// A Felisp expression: the closed set of runtime value/AST variants.
#[derive(Debug)]
pub enum FelispExp {
    Bool(bool),
    Symbol(String),
    Number(i64),
    List(Vec<FelispExp>),
    Func(NativeFn),
    Lambda(FelispLambda),
    Table(Table),
}

/// The single error kind: a human-readable reason string.
#[derive(Debug)]
pub enum FelispErr {
    Reason(String),
}

impl FelispErr {
    /// The message carried by this error.
    pub fn message(&self) -> (m: &str)
        ensures
            m@ == self.msg(),
    {
        match self {
            FelispErr::Reason(s) => s.as_str(),
        }
    }

    /// Spec view of the message.
    pub open spec fn msg(&self) -> Seq<char> {
        match self {
            FelispErr::Reason(s) => s@,
        }
    }
}

/// View of an evaluation result: the value's view or the error message.
pub open spec fn res_v(r: Result<FelispExp, FelispErr>) -> Result<ExpV, Seq<char>> {
    match r {
        Ok(e) => Ok(exp_view(e)),
        Err(e) => Err(e.msg()),
    }
}

/// Text equality, decided on the character sequences.
pub fn str_eq(a: &str, b: &str) -> (r: bool)
    ensures
        r == (a@ == b@),
{
    let ao = a.to_owned();
    let bo = b.to_owned();
    ao == bo
}

/// Mathematical view of an expression.
pub enum ExpV {
    Bool(bool),
    Symbol(Seq<char>),
    Number(int),
    List(Seq<ExpV>),
    Func(NativeFn),
    Lambda { params: Box<ExpV>, body: Box<ExpV> },
    Table(TableV),
}

/// View of one expression; lists map their elements through `exps_view`.
pub open spec fn exp_view(e: FelispExp) -> ExpV
    decreases e,
{
    match e {
        FelispExp::Bool(b) => ExpV::Bool(b),
        FelispExp::Symbol(s) => ExpV::Symbol(s@),
        FelispExp::Number(n) => ExpV::Number(n as int),
        FelispExp::List(elems) => ExpV::List(exps_view(elems@)),
        FelispExp::Func(f) => ExpV::Func(f),
        FelispExp::Lambda(l) => ExpV::Lambda {
            params: Box::new(exp_view(*l.params_exp)),
            body: Box::new(exp_view(*l.body_exp)),
        },
        FelispExp::Table(t) => ExpV::Table(t@),
    }
}

/// Pointwise view of a sequence of expressions.
pub open spec fn exps_view(s: Seq<FelispExp>) -> Seq<ExpV>
    decreases s,
{
    if s.len() == 0 {
        Seq::empty()
    } else {
        exps_view(s.drop_last()).push(exp_view(s.last()))
    }
}

/// `exps_view` is the pointwise map of `exp_view`.
pub proof fn lemma_exps_view(s: Seq<FelispExp>)
    ensures
        exps_view(s).len() == s.len(),
        forall|i: int| 0 <= i < s.len() ==> exps_view(s)[i] == exp_view(s[i]),
    decreases s.len(),
{
    if s.len() > 0 {
        lemma_exps_view(s.drop_last());
    }
}

impl View for FelispExp {
    type V = ExpV;

    open spec fn view(&self) -> ExpV {
        exp_view(*self)
    }
}

impl DeepView for FelispExp {
    type V = ExpV;

    open spec fn deep_view(&self) -> ExpV {
        exp_view(*self)
    }
}

/// Element-wise copy of a list's items, preserving their views.
fn clone_exps(elems: &Vec<FelispExp>) -> (out: Vec<FelispExp>)
    ensures
        exps_view(out@) == exps_view(elems@),
    decreases *elems,
{
    let mut out: Vec<FelispExp> = Vec::new();
    let mut i: usize = 0;
    while i < elems.len()
        invariant
            i <= elems.len(),
            exps_view(out@) =~= exps_view(elems@.take(i as int)),
        decreases elems.len() - i,
    {
        proof {
            lemma_exps_view(out@);
            assert(decreases_to!(*elems => elems@[i as int]));
        }
        out.push(elems[i].clone());
        proof {
            lemma_exps_view(out@);
            lemma_exps_view(elems@.take(i as int));
            lemma_exps_view(elems@.take(i as int + 1));
            assert(elems@.take(i as int + 1).drop_last() =~= elems@.take(i as int));
            assert(elems@.take(i as int + 1).last() == elems@[i as int]);
            assert(exps_view(out@) =~= exps_view(elems@.take(i as int + 1)));
        }
        i += 1;
    }
    proof {
        assert(elems@.take(elems@.len() as int) =~= elems@);
    }
    out
}

impl Clone for FelispExp {
    fn clone(&self) -> (r: Self)
        ensures
            r@ == self@,
        decreases self,
    {
        match self {
            FelispExp::Bool(b) => FelispExp::Bool(*b),
            FelispExp::Symbol(s) => FelispExp::Symbol(s.clone()),
            FelispExp::Number(n) => FelispExp::Number(*n),
            FelispExp::List(elems) => FelispExp::List(clone_exps(elems)),
            FelispExp::Func(f) => FelispExp::Func(*f),
            FelispExp::Lambda(l) => FelispExp::Lambda(FelispLambda {
                params_exp: Box::new((*l.params_exp).clone()),
                body_exp: Box::new((*l.body_exp).clone()),
            }),
            FelispExp::Table(t) => FelispExp::Table(t.clone()),
        }
    }
}

} // verus!
