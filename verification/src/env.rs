//! Lexical environments.
//!
//! An environment maps symbol names to expressions and optionally points at
//! an enclosing environment. All environments live in one arena and refer to
//! their parent by index, so a child never outlives or mutates its parent's
//! bindings; binding writes to the owning environment only, and lookup walks
//! outward until a name is found or the chain ends.
//!
//! The bindings are held as an association list read from the end, so the
//! view is a map where the last write wins.

use vstd::prelude::*;

use crate::data::ExpV;
use crate::data::FelispExp;
use crate::data::NativeFn;
use crate::data::Table;
use crate::data::TableV;

verus! {

/// One scope: its bindings and the index of the enclosing scope, if any.
pub struct FelispEnv {
    pub data: Vec<(String, FelispExp)>,
    pub outer: Option<usize>,
}

/// Mathematical view of one scope.
pub struct EnvV {
    pub data: Map<Seq<char>, ExpV>,
    pub outer: Option<int>,
}

/// The map an association list denotes: later entries win.
pub open spec fn assoc_map(s: Seq<(Seq<char>, ExpV)>) -> Map<Seq<char>, ExpV>
    decreases s.len(),
{
    if s.len() == 0 {
        Map::empty()
    } else {
        assoc_map(s.drop_last()).insert(s.last().0, s.last().1)
    }
}

impl View for FelispEnv {
    type V = EnvV;

    open spec fn view(&self) -> EnvV {
        EnvV {
            data: assoc_map(self.data.deep_view()),
            outer: match self.outer {
                Some(o) => Some(o as int),
                None => None,
            },
        }
    }
}

impl DeepView for FelispEnv {
    type V = EnvV;

    open spec fn deep_view(&self) -> EnvV {
        self.view()
    }
}

/// The arena holding every scope; scopes name their parent by index.
pub struct EnvArena {
    pub envs: Vec<FelispEnv>,
}

impl View for EnvArena {
    type V = Seq<EnvV>;

    open spec fn view(&self) -> Seq<EnvV> {
        self.envs.deep_view()
    }
}

/// Every scope's parent comes earlier in the arena, so lookup terminates.
pub open spec fn wf_arena(a: Seq<EnvV>) -> bool {
    forall|i: int|
        0 <= i < a.len() ==> ((#[trigger] a[i]).outer matches Some(o) ==> 0 <= o < i)
}

/// Resolve a name: search the scope, then its ancestors, in order.
pub open spec fn lookup(a: Seq<EnvV>, id: int, k: Seq<char>) -> Option<ExpV>
    decreases id,
{
    if !(0 <= id < a.len()) {
        None
    } else if a[id].data.contains_key(k) {
        Some(a[id].data[k])
    } else {
        match a[id].outer {
            Some(o) => if 0 <= o < id {
                lookup(a, o, k)
            } else {
                None
            },
            None => None,
        }
    }
}

/// Overwrite or add one binding in the scope `id` alone.
pub open spec fn bind_in(a: Seq<EnvV>, id: int, k: Seq<char>, v: ExpV) -> Seq<EnvV> {
    a.update(id, EnvV { data: a[id].data.insert(k, v), outer: a[id].outer })
}

/// Element-wise copy of an association list, preserving its view.
fn clone_bindings(src: &Vec<(String, FelispExp)>) -> (out: Vec<(String, FelispExp)>)
    ensures
        out.deep_view() == src.deep_view(),
{
    let mut out: Vec<(String, FelispExp)> = Vec::new();
    let mut i: usize = 0;
    while i < src.len()
        invariant
            i <= src.len(),
            out@.len() == i,
            forall|k: int| 0 <= k < i ==> out@[k].deep_view() == src@[k].deep_view(),
        decreases src.len() - i,
    {
        let pair = &src[i];
        out.push((pair.0.clone(), pair.1.clone()));
        i += 1;
    }
    assert(out.deep_view() =~= src.deep_view());
    out
}

impl EnvArena {
    /// Add or overwrite `name` in scope `env_id` alone; ancestors are never
    /// written.
    pub fn bind(&mut self, env_id: usize, name: String, value: FelispExp)
        requires
            env_id < old(self)@.len(),
        ensures
            final(self)@ == bind_in(old(self)@, env_id as int, name@, value@),
            final(self)@.len() == old(self)@.len(),
            wf_arena(old(self)@) ==> wf_arena(final(self)@),
    {
        let ghost prev = self@;
        let outer = self.envs[env_id].outer;
        let mut data = clone_bindings(&self.envs[env_id].data);
        let ghost base = data.deep_view();
        data.push((name, value));
        proof {
            assert(data.deep_view() =~= base.push((name@, value@)));
            assert(data.deep_view().drop_last() =~= base);
        }
        self.envs[env_id] = FelispEnv { data, outer };
        proof {
            assert(self@ =~= bind_in(prev, env_id as int, name@, value@));
            if wf_arena(prev) {
                assert forall|i: int|
                    0 <= i < self@.len() implies ((#[trigger] self@[i]).outer matches Some(o)
                    ==> 0 <= o < i) by {
                    assert(self@[i].outer == prev[i].outer);
                }
            }
        }
    }

    /// Append a fresh scope whose parent is `outer_id`.
    pub fn push_env(&mut self, data: Vec<(String, FelispExp)>, outer_id: usize)
        requires
            outer_id < old(self)@.len(),
        ensures
            final(self)@ == old(self)@.push(
                EnvV {
                    data: assoc_map(data.deep_view()),
                    outer: Some(outer_id as int),
                },
            ),
            final(self)@.len() == old(self)@.len() + 1,
            wf_arena(old(self)@) ==> wf_arena(final(self)@),
    {
        let ghost prev = self@;
        let env = FelispEnv { data, outer: Some(outer_id) };
        let ghost envv = env@;
        self.envs.push(env);
        proof {
            assert(self@ =~= prev.push(envv));
            if wf_arena(prev) {
                assert forall|i: int|
                    0 <= i < self@.len() implies ((#[trigger] self@[i]).outer matches Some(o)
                    ==> 0 <= o < i) by {
                    if i < prev.len() {
                        assert(self@[i] == prev[i]);
                    }
                }
            }
        }
    }
}

/// The seed table bound into the default environment: empty, no pages yet.
pub open spec fn seed_table_v() -> TableV {
    TableV { name: "mytable1"@, num_rows: 0, num_pages: 0, pages: Seq::empty() }
}

/// The bindings of the default environment: the arithmetic fold operators,
/// the ordered comparisons, and the seed table under its own name.
pub open spec fn default_bindings() -> Seq<(Seq<char>, ExpV)> {
    seq![
        ("+"@, ExpV::Func(NativeFn::Add)),
        ("-"@, ExpV::Func(NativeFn::Sub)),
        ("="@, ExpV::Func(NativeFn::Equal)),
        (">"@, ExpV::Func(NativeFn::Greater)),
        (">="@, ExpV::Func(NativeFn::GreaterEq)),
        ("<"@, ExpV::Func(NativeFn::Less)),
        ("<="@, ExpV::Func(NativeFn::LessEq)),
        ("mytable1"@, ExpV::Table(seed_table_v())),
    ]
}

/// The default arena: one global scope holding `default_bindings`.
pub open spec fn default_env_v() -> Seq<EnvV> {
    seq![EnvV { data: assoc_map(default_bindings()), outer: None }]
}

/// Build the default environment: operators, comparisons, and the seed
/// table.
pub fn default_env() -> (arena: EnvArena)
    ensures
        arena@ == default_env_v(),
        wf_arena(arena@),
        arena@.len() == 1,
{
    let mut data: Vec<(String, FelispExp)> = Vec::new();
    data.push(("+".to_owned(), FelispExp::Func(NativeFn::Add)));
    data.push(("-".to_owned(), FelispExp::Func(NativeFn::Sub)));
    data.push(("=".to_owned(), FelispExp::Func(NativeFn::Equal)));
    data.push((">".to_owned(), FelispExp::Func(NativeFn::Greater)));
    data.push((">=".to_owned(), FelispExp::Func(NativeFn::GreaterEq)));
    data.push(("<".to_owned(), FelispExp::Func(NativeFn::Less)));
    data.push(("<=".to_owned(), FelispExp::Func(NativeFn::LessEq)));
    let table = Table {
        name: "mytable1".to_owned(),
        num_rows: 0,
        num_pages: 0,
        pages: Vec::new(),
    };
    proof {
        assert(table@.pages =~= seed_table_v().pages);
        assert(table@ == seed_table_v());
    }
    data.push(("mytable1".to_owned(), FelispExp::Table(table)));
    proof {
        assert(data.deep_view() =~= default_bindings());
    }
    let env = FelispEnv { data, outer: None };
    let ghost envv = env@;
    let mut envs: Vec<FelispEnv> = Vec::new();
    envs.push(env);
    let arena = EnvArena { envs };
    proof {
        assert(envv == default_env_v()[0]);
        assert(arena@ =~= default_env_v());
    }
    arena
}

} // verus!
