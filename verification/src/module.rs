//! Module tree for hierarchical program organization.
//!
//! [`ModuleDef`] is a single module and [`ModuleTree`] the whole hierarchy:
//! a tree under a root module, with pub/private visibility, tracking which
//! functions and type definitions belong to each module. Maps are keyed by
//! the inner value of the module id.

use std::collections::HashMap;
use vstd::prelude::*;
use vstd::std_specs::iter::IteratorSpec;
use crate::error::CoreError;
use crate::ids::{FunctionId, ModuleId, TypeId};
use crate::types::Visibility;

verus! {

broadcast use vstd::std_specs::hash::group_hash_axioms;

/// A module definition within the module tree.
#[derive(Debug, Clone)]
pub struct ModuleDef {
    /// Unique identity for this module.
    pub id: ModuleId,
    /// Module name.
    pub name: String,
    /// Parent module; `None` for the root module.
    pub parent: Option<ModuleId>,
    /// Visibility across module boundaries.
    pub visibility: Visibility,
}

impl ModuleDef {
    /// A field-by-field copy of this definition.
    pub fn duplicate(&self) -> (r: ModuleDef)
        ensures
            r == *self,
    {
        ModuleDef {
            id: self.id,
            name: self.name.clone(),
            parent: self.parent,
            visibility: self.visibility,
        }
    }
}

/// The path of module names from the root down to `id`, following parent
/// links; `None` when `id` or one of its ancestors is not a known module.
pub open spec fn tree_path(modules: Map<u32, ModuleDef>, id: u32) -> Option<Seq<Seq<char>>>
    decreases id,
{
    if !modules.contains_key(id) {
        None
    } else {
        match modules[id].parent {
            None => Some(seq![modules[id].name@]),
            Some(p) => if p.0 < id {
                match tree_path(modules, p.0) {
                    Some(prefix) => Some(prefix.push(modules[id].name@)),
                    None => None,
                }
            } else {
                None
            },
        }
    }
}

/// The number of ancestors of module `id`, following parent links to
/// smaller ids.
pub open spec fn ancestor_count(modules: Map<u32, ModuleDef>, id: u32) -> nat
    decreases id,
{
    if !modules.contains_key(id) {
        0
    } else {
        match modules[id].parent {
            Some(p) => if p.0 < id {
                1 + ancestor_count(modules, p.0)
            } else {
                0
            },
            None => 0,
        }
    }
}

/// In a tree whose root is the one module without a parent, every
/// module's path starts at the root's name, ends at its own name, and has
/// one entry per ancestor and one more.
pub proof fn lemma_path_shape(modules: Map<u32, ModuleDef>, root: u32, id: u32)
    requires
        modules.contains_key(root),
        modules[root].parent is None,
        forall|k: u32| #[trigger] modules.contains_key(k) && k != root ==> modules[k].parent is Some,
        forall|k: u32| #[trigger] modules.contains_key(k) ==> (modules[k].parent matches Some(p) ==> p.0 < k && modules.contains_key(
            p.0,
        )),
        modules.contains_key(id),
    ensures
        tree_path(modules, id) matches Some(p) && p.len() == ancestor_count(modules, id) + 1 && p[0] == modules[root].name@
            && p.last() == modules[id].name@,
    decreases id,
{
    match modules[id].parent {
        None => {},
        Some(q) => {
            lemma_path_shape(modules, root, q.0);
        },
    }
}

/// A module map is well formed under id counter `next_id`: every module is
/// keyed by its own id, below the counter, and a module's parent, when
/// present, is a known module with a smaller id.
pub open spec fn parts_wf(m: Map<u32, ModuleDef>, next_id: u32) -> bool {
    forall|k: u32| #[trigger] m.contains_key(k) ==> {
        &&& m[k].id.0 == k
        &&& k < next_id
        &&& (m[k].parent matches Some(p) ==> p.0 < k && m.contains_key(p.0))
    }
}

/// The modules of `m` below `k`.
pub open spec fn keys_below(m: Map<u32, ModuleDef>, k: int) -> Set<u32> {
    m.dom().filter(|j: u32| j < k)
}

/// The string views of a vector of strings.
pub open spec fn string_views(v: Seq<String>) -> Seq<Seq<char>> {
    v.map_values(|s: String| s@)
}

/// The sequence stored under `k`, or the empty sequence when `k` is absent.
pub open spec fn seq_at<V>(m: Map<u32, Seq<V>>, k: u32) -> Seq<V> {
    if m.contains_key(k) { m[k] } else { Seq::empty() }
}

/// Adding a module with a fresh id (above every existing one) under a known
/// parent with a smaller id gives the new module the parent's path extended
/// by its own name, and leaves the path of every existing module unchanged.
pub proof fn lemma_add_module_extends_paths(m: Map<u32, ModuleDef>, k: u32, d: ModuleDef)
    requires
        forall|j: u32| #[trigger] m.contains_key(j) ==> j < k,
        d.parent matches Some(p) && m.contains_key(p.0),
    ensures
        tree_path(m.insert(k, d), k) == match tree_path(m, (d.parent->0).0) {
            Some(prefix) => Some(prefix.push(d.name@)),
            None => None::<Seq<Seq<char>>>,
        },
        forall|j: u32| #[trigger] m.contains_key(j) ==> tree_path(m.insert(k, d), j) == tree_path(m, j),
{
    assert forall|j: u32| #[trigger] m.contains_key(j) implies tree_path(m.insert(k, d), j) == tree_path(m, j) by {
        lemma_paths_below_unchanged(m, k, d, j);
    }
    lemma_paths_below_unchanged(m, k, d, (d.parent->0).0);
}

proof fn lemma_paths_below_unchanged(m: Map<u32, ModuleDef>, k: u32, d: ModuleDef, j: u32)
    requires
        forall|i: u32| #[trigger] m.contains_key(i) ==> i < k,
        j < k,
    ensures
        tree_path(m.insert(k, d), j) == tree_path(m, j),
    decreases j,
{
    let m2 = m.insert(k, d);
    if m.contains_key(j) {
        assert(m2[j] == m[j]);
        match m[j].parent {
            None => {},
            Some(p) => {
                if p.0 < j {
                    lemma_paths_below_unchanged(m, k, d, p.0);
                }
            },
        }
    } else {
        assert(!m2.contains_key(j));
    }
}

/// Manages the hierarchical module tree.
#[derive(Debug, Clone)]
pub struct ModuleTree {
    modules: HashMap<u32, ModuleDef>,
    children: HashMap<u32, Vec<ModuleId>>,
    functions: HashMap<u32, Vec<FunctionId>>,
    type_defs: HashMap<u32, Vec<TypeId>>,
    root: ModuleId,
    next_id: u32,
}

impl ModuleTree {
    /// All modules, keyed by id.
    pub closed spec fn modules_view(&self) -> Map<u32, ModuleDef> {
        self.modules@
    }

    /// Parent-to-children mapping.
    pub closed spec fn children_view(&self) -> Map<u32, Seq<ModuleId>> {
        self.children@.map_values(|v: Vec<ModuleId>| v@)
    }

    /// Module-to-functions mapping.
    pub closed spec fn functions_view(&self) -> Map<u32, Seq<FunctionId>> {
        self.functions@.map_values(|v: Vec<FunctionId>| v@)
    }

    /// Module-to-type-definitions mapping.
    pub closed spec fn type_defs_view(&self) -> Map<u32, Seq<TypeId>> {
        self.type_defs@.map_values(|v: Vec<TypeId>| v@)
    }

    /// The root module id.
    pub closed spec fn root_view(&self) -> ModuleId {
        self.root
    }

    /// The counter from which the next module id is drawn.
    pub closed spec fn next_id_view(&self) -> u32 {
        self.next_id
    }

    /// Well-formedness: every module is keyed by its own id, every id is
    /// below the id counter, and a module's parent, when present, is a
    /// known module with a smaller id (so parent links cannot cycle).
    pub open spec fn wf(&self) -> bool {
        let m = self.modules_view();
        &&& forall|k: u32| #[trigger] m.contains_key(k) ==> {
            &&& m[k].id.0 == k
            &&& k < self.next_id_view()
            &&& (m[k].parent matches Some(p) ==> p.0 < k && m.contains_key(p.0))
        }
    }

    /// The links of the tree agree: the root is the one module without a
    /// parent; every module has a child list, a function list and a type
    /// list, and nothing else does; each module is listed, once, among its
    /// parent's children, and a child list holds only modules whose parent
    /// it belongs to.
    pub open spec fn linked(&self) -> bool {
        let m = self.modules_view();
        let ch = self.children_view();
        let root = self.root_view().0;
        &&& m.contains_key(root)
        &&& m[root].parent is None
        &&& forall|k: u32| #[trigger] m.contains_key(k) && k != root ==> m[k].parent is Some
        &&& ch.dom() == m.dom()
        &&& self.functions_view().dom() == m.dom()
        &&& self.type_defs_view().dom() == m.dom()
        &&& forall|k: u32| #[trigger] m.contains_key(k) && m[k].parent is Some ==> ch[(m[k].parent->0).0].contains(ModuleId(k))
        &&& forall|q: u32, i: int| #![trigger ch[q][i]] ch.contains_key(q) && 0 <= i < ch[q].len() ==> m.contains_key(ch[q][i].0)
            && m[ch[q][i].0].parent == Some(ModuleId(q))
        &&& forall|q: u32| #[trigger] ch.contains_key(q) ==> ch[q].no_duplicates()
    }

    /// Module ids are handed out densely: the known modules are exactly
    /// those whose ids lie below the id counter.
    pub open spec fn ids_dense(&self) -> bool {
        forall|k: u32| #[trigger] self.modules_view().contains_key(k) <==> k < self.next_id_view()
    }

    /// Creates a new module tree with a public root module `ModuleId(0)`.
    pub fn new(root_name: &str) -> (t: Self)
        ensures
            t.wf(),
            t.ids_dense(),
            t.root_view() == ModuleId(0),
            t.next_id_view() == 1,
            t.modules_view() == map![0u32 => ModuleDef {
                id: ModuleId(0),
                name: t.modules_view()[0u32].name,
                parent: None,
                visibility: Visibility::Public,
            }],
            t.modules_view()[0u32].name@ == root_name@,
            t.children_view() == map![0u32 => Seq::<ModuleId>::empty()],
            t.functions_view() == map![0u32 => Seq::<FunctionId>::empty()],
            t.type_defs_view() == map![0u32 => Seq::<TypeId>::empty()],
            t.linked(),
    {
        let root_id = ModuleId(0);
        let root = ModuleDef {
            id: root_id,
            name: String::from_str(root_name),
            parent: None,
            visibility: Visibility::Public,
        };
        let mut modules = HashMap::new();
        modules.insert(0u32, root);
        let mut children = HashMap::new();
        children.insert(0u32, Vec::new());
        let mut functions = HashMap::new();
        functions.insert(0u32, Vec::new());
        let mut type_defs = HashMap::new();
        type_defs.insert(0u32, Vec::new());
        let t = ModuleTree { modules, children, functions, type_defs, root: root_id, next_id: 1 };
        proof {
            assert(t.children_view() =~= map![0u32 => Seq::<ModuleId>::empty()]);
            assert(t.functions_view() =~= map![0u32 => Seq::<FunctionId>::empty()]);
            assert(t.type_defs_view() =~= map![0u32 => Seq::<TypeId>::empty()]);
        }
        t
    }

    /// Reconstructs a tree from stored parts, as they are.
    pub fn from_parts(
        modules: HashMap<u32, ModuleDef>,
        children: HashMap<u32, Vec<ModuleId>>,
        functions: HashMap<u32, Vec<FunctionId>>,
        type_defs: HashMap<u32, Vec<TypeId>>,
        root: ModuleId,
        next_id: u32,
    ) -> (t: Self)
        ensures
            t.modules_view() == modules@,
            t.children_view() == children@.map_values(|v: Vec<ModuleId>| v@),
            t.functions_view() == functions@.map_values(|v: Vec<FunctionId>| v@),
            t.type_defs_view() == type_defs@.map_values(|v: Vec<TypeId>| v@),
            t.root_view() == root,
            t.next_id_view() == next_id,
    {
        ModuleTree { modules, children, functions, type_defs, root, next_id }
    }

    /// Reconstructs a tree from stored parts when they are well formed (see
    /// [`parts_wf`]): `None` when some module is keyed by another id, is not
    /// below `next_id`, or names a parent that is unknown or not smaller.
    pub fn from_parts_checked(
        modules: HashMap<u32, ModuleDef>,
        children: HashMap<u32, Vec<ModuleId>>,
        functions: HashMap<u32, Vec<FunctionId>>,
        type_defs: HashMap<u32, Vec<TypeId>>,
        root: ModuleId,
        next_id: u32,
    ) -> (r: Option<Self>)
        ensures
            r is Some <==> parts_wf(modules@, next_id),
            r matches Some(t) ==> {
                &&& t.wf()
                &&& t.modules_view() == modules@
                &&& t.children_view() == children@.map_values(|v: Vec<ModuleId>| v@)
                &&& t.functions_view() == functions@.map_values(|v: Vec<FunctionId>| v@)
                &&& t.type_defs_view() == type_defs@.map_values(|v: Vec<TypeId>| v@)
                &&& t.root_view() == root
                &&& t.next_id_view() == next_id
            },
    {
        let ghost m = modules@;
        let total = modules.len();
        let mut found: usize = 0;
        let mut k: u32 = 0;
        proof {
            assert(keys_below(m, 0) =~= Set::<u32>::empty());
        }
        while k < next_id
            invariant
                m == modules@,
                k <= next_id,
                m.dom().finite(),
                total == m.len(),
                found == keys_below(m, k as int).len(),
                forall|j: u32| j < k && #[trigger] m.contains_key(j) ==> m[j].id.0 == j && (m[j].parent matches Some(p) ==> p.0 < j
                    && m.contains_key(p.0)),
            decreases next_id - k,
        {
            proof {
                assert(keys_below(m, k as int).subset_of(m.dom()));
                vstd::set_lib::lemma_len_subset(keys_below(m, k as int), m.dom());
            }
            match modules.get(&k) {
                Some(d) => {
                    let good = d.id.0 == k && match d.parent {
                        Some(p) => p.0 < k && modules.contains_key(&p.0),
                        None => true,
                    };
                    if !good {
                        return None;
                    }
                    proof {
                        assert(keys_below(m, k + 1) =~= keys_below(m, k as int).insert(k));
                        assert(keys_below(m, k as int).finite()) by {
                            vstd::set_lib::lemma_len_subset(keys_below(m, k as int), m.dom());
                        }
                        assert(keys_below(m, k + 1).subset_of(m.dom()));
                        vstd::set_lib::lemma_len_subset(keys_below(m, k + 1), m.dom());
                        assert(found + 1 <= m.dom().len());
                    }
                    found = found + 1;
                },
                None => {
                    proof {
                        assert(keys_below(m, k + 1) =~= keys_below(m, k as int));
                    }
                },
            }
            k = k + 1;
        }
        if found != total {
            proof {
                assert(keys_below(m, next_id as int).subset_of(m.dom()));
                assert(!parts_wf(m, next_id)) by {
                    if parts_wf(m, next_id) {
                        assert(keys_below(m, next_id as int) =~= m.dom());
                    }
                }
            }
            return None;
        }
        proof {
            assert forall|j: u32| #[trigger] m.contains_key(j) implies j < next_id by {
                if j >= next_id {
                    let s = keys_below(m, next_id as int);
                    assert(s.subset_of(m.dom().remove(j)));
                    vstd::set_lib::lemma_len_subset(s, m.dom().remove(j));
                }
            }
        }
        Some(ModuleTree { modules, children, functions, type_defs, root, next_id })
    }

    /// Returns the root module id.
    pub fn root_id(&self) -> (r: ModuleId)
        ensures
            r == self.root_view(),
    {
        self.root
    }

    /// Creates a child module under `parent` and returns its id, drawn from
    /// the id counter. Fails with `ModuleNotFound` when `parent` is unknown,
    /// leaving the tree unchanged.
    #[verifier::rlimit(40)]
    pub fn add_module(&mut self, name: String, parent: ModuleId, visibility: Visibility) -> (r:
        Result<ModuleId, CoreError>)
        requires
            old(self).wf(),
            old(self).next_id_view() < u32::MAX,
        ensures
            final(self).wf(),
            old(self).linked() ==> final(self).linked(),
            old(self).ids_dense() ==> final(self).ids_dense(),
            !old(self).modules_view().contains_key(parent.0) ==> {
                &&& r matches Err(CoreError::ModuleNotFound { id }) && id == parent
                &&& *final(self) == *old(self)
            },
            old(self).modules_view().contains_key(parent.0) ==> {
                let id = ModuleId(old(self).next_id_view());
                &&& r == Ok::<ModuleId, CoreError>(id)
                &&& !old(self).modules_view().contains_key(id.0)
                &&& final(self).next_id_view() == old(self).next_id_view() + 1
                &&& final(self).root_view() == old(self).root_view()
                &&& final(self).modules_view() == old(self).modules_view().insert(
                    id.0,
                    ModuleDef {
                        id,
                        name: final(self).modules_view()[id.0].name,
                        parent: Some(parent),
                        visibility,
                    },
                )
                &&& final(self).modules_view()[id.0].name@ == name@
                &&& final(self).children_view() == old(self).children_view().insert(
                    parent.0,
                    seq_at(old(self).children_view(), parent.0).push(id),
                ).insert(id.0, Seq::empty())
                &&& final(self).functions_view() == old(self).functions_view().insert(
                    id.0,
                    Seq::empty(),
                )
                &&& final(self).type_defs_view() == old(self).type_defs_view().insert(
                    id.0,
                    Seq::empty(),
                )
                &&& tree_path(final(self).modules_view(), id.0) == match tree_path(old(self).modules_view(), parent.0) {
                    Some(prefix) => Some(prefix.push(name@)),
                    None => None::<Seq<Seq<char>>>,
                }
                &&& forall|j: u32| #[trigger] old(self).modules_view().contains_key(j) ==> tree_path(
                    final(self).modules_view(),
                    j,
                ) == tree_path(old(self).modules_view(), j)
            },
    {
        if !self.modules.contains_key(&parent.0) {
            return Err(CoreError::ModuleNotFound { id: parent });
        }
        let id = ModuleId(self.next_id);
        self.next_id = self.next_id + 1;
        let module = ModuleDef { id, name, parent: Some(parent), visibility };
        self.modules.insert(id.0, module);
        let mut siblings = match self.children.remove(&parent.0) {
            Some(v) => v,
            None => Vec::new(),
        };
        siblings.push(id);
        self.children.insert(parent.0, siblings);
        self.children.insert(id.0, Vec::new());
        self.functions.insert(id.0, Vec::new());
        self.type_defs.insert(id.0, Vec::new());
        proof {
            assert(self.children_view() =~= old(self).children_view().insert(
                parent.0,
                seq_at(old(self).children_view(), parent.0).push(id),
            ).insert(id.0, Seq::empty()));
            assert(self.functions_view() =~= old(self).functions_view().insert(id.0, Seq::empty()));
            assert(self.type_defs_view() =~= old(self).type_defs_view().insert(id.0, Seq::empty()));
            if old(self).linked() {
                self.lemma_add_module_linked(*old(self), parent, id);
            }
            lemma_add_module_extends_paths(old(self).modules_view(), id.0, self.modules_view()[id.0]);
        }
        Ok(id)
    }

    proof fn lemma_add_module_linked(&self, old_t: ModuleTree, parent: ModuleId, id: ModuleId)
        requires
            old_t.wf(),
            old_t.linked(),
            old_t.modules_view().contains_key(parent.0),
            id.0 == old_t.next_id_view(),
            self.root_view() == old_t.root_view(),
            self.modules_view() == old_t.modules_view().insert(
                id.0,
                ModuleDef { id, name: self.modules_view()[id.0].name, parent: Some(parent), visibility: self.modules_view()[id.0].visibility },
            ),
            self.children_view() == old_t.children_view().insert(
                parent.0,
                seq_at(old_t.children_view(), parent.0).push(id),
            ).insert(id.0, Seq::empty()),
            self.functions_view() == old_t.functions_view().insert(id.0, Seq::empty()),
            self.type_defs_view() == old_t.type_defs_view().insert(id.0, Seq::empty()),
        ensures
            self.linked(),
    {
        let m0 = old_t.modules_view();
        let ch0 = old_t.children_view();
        let m = self.modules_view();
        let ch = self.children_view();
        assert(!m0.contains_key(id.0));
        assert(id.0 != parent.0);
        assert(ch.dom() =~= m.dom());
        assert(self.functions_view().dom() =~= m.dom());
        assert(self.type_defs_view().dom() =~= m.dom());
        assert forall|k: u32| #[trigger] m.contains_key(k) && m[k].parent is Some implies ch[(m[k].parent->0).0].contains(ModuleId(k)) by {
            if k == id.0 {
                assert(ch[parent.0] == ch0[parent.0].push(id));
                assert(ch[parent.0][ch0[parent.0].len() as int] == id);
            } else {
                let q = (m0[k].parent->0).0;
                assert(ch0[q].contains(ModuleId(k)));
                let i = choose|i: int| 0 <= i < ch0[q].len() && ch0[q][i] == ModuleId(k);
                if q == parent.0 {
                    assert(ch[q][i] == ModuleId(k));
                } else {
                    assert(q != id.0);
                    assert(ch[q] == ch0[q]);
                }
            }
        }
        assert forall|q: u32, i: int| #![trigger ch[q][i]] ch.contains_key(q) && 0 <= i < ch[q].len() implies m.contains_key(ch[q][i].0)
            && m[ch[q][i].0].parent == Some(ModuleId(q)) by {
            if q == parent.0 {
                if i < ch0[q].len() {
                    assert(ch[q][i] == ch0[q][i]);
                    assert(m0.contains_key(ch0[q][i].0));
                    assert(ch0[q][i].0 != id.0);
                } else {
                    assert(ch[q][i] == id);
                }
            } else if q != id.0 {
                assert(ch[q] == ch0[q]);
                assert(m0.contains_key(ch0[q][i].0));
                assert(ch0[q][i].0 != id.0);
            }
        }
        assert forall|q: u32| #[trigger] ch.contains_key(q) implies ch[q].no_duplicates() by {
            if q == parent.0 {
                assert forall|a: int, b: int| 0 <= a < b < ch[q].len() implies ch[q][a] != ch[q][b] by {
                    if b == ch0[q].len() {
                        assert(m0.contains_key(ch0[q][a].0));
                    } else {
                        assert(ch0[q].no_duplicates());
                    }
                }
            } else if q != id.0 {
                assert(ch[q] == ch0[q]);
            }
        }
    }

    /// Looks up a module by its id.
    pub fn get_module(&self, id: ModuleId) -> (r: Option<&ModuleDef>)
        ensures
            match r {
                Some(d) => self.modules_view().contains_key(id.0) && *d == self.modules_view()[id.0],
                None => !self.modules_view().contains_key(id.0),
            },
    {
        self.modules.get(&id.0)
    }

    /// The child module ids of a module; empty when it has none or is unknown.
    pub fn children(&self, id: ModuleId) -> (r: &[ModuleId])
        ensures
            r@ == seq_at(self.children_view(), id.0),
    {
        match self.children.get(&id.0) {
            Some(v) => v.as_slice(),
            None => &[],
        }
    }

    /// Registers a function in a module. Fails with `ModuleNotFound` when the
    /// module is unknown, leaving the tree unchanged.
    pub fn add_function(&mut self, module: ModuleId, function: FunctionId) -> (r: Result<(), CoreError>)
        ensures
            old(self).linked() ==> final(self).linked(),
            old(self).ids_dense() ==> final(self).ids_dense(),
            !old(self).modules_view().contains_key(module.0) ==> {
                &&& r matches Err(CoreError::ModuleNotFound { id }) && id == module
                &&& *final(self) == *old(self)
            },
            old(self).modules_view().contains_key(module.0) ==> {
                &&& r is Ok
                &&& final(self).functions_view() == old(self).functions_view().insert(
                    module.0,
                    seq_at(old(self).functions_view(), module.0).push(function),
                )
                &&& final(self).modules_view() == old(self).modules_view()
                &&& final(self).children_view() == old(self).children_view()
                &&& final(self).type_defs_view() == old(self).type_defs_view()
                &&& final(self).root_view() == old(self).root_view()
                &&& final(self).next_id_view() == old(self).next_id_view()
            },
    {
        if !self.modules.contains_key(&module.0) {
            return Err(CoreError::ModuleNotFound { id: module });
        }
        let mut fns = match self.functions.remove(&module.0) {
            Some(v) => v,
            None => Vec::new(),
        };
        fns.push(function);
        self.functions.insert(module.0, fns);
        proof {
            assert(self.functions_view() =~= old(self).functions_view().insert(
                module.0,
                seq_at(old(self).functions_view(), module.0).push(function),
            ));
            assert(self.functions_view().dom() =~= old(self).functions_view().dom().insert(module.0));
        }
        Ok(())
    }

    /// Registers a type definition in a module. Fails with `ModuleNotFound`
    /// when the module is unknown, leaving the tree unchanged.
    pub fn add_type_def(&mut self, module: ModuleId, type_id: TypeId) -> (r: Result<(), CoreError>)
        ensures
            old(self).linked() ==> final(self).linked(),
            old(self).ids_dense() ==> final(self).ids_dense(),
            !old(self).modules_view().contains_key(module.0) ==> {
                &&& r matches Err(CoreError::ModuleNotFound { id }) && id == module
                &&& *final(self) == *old(self)
            },
            old(self).modules_view().contains_key(module.0) ==> {
                &&& r is Ok
                &&& final(self).type_defs_view() == old(self).type_defs_view().insert(
                    module.0,
                    seq_at(old(self).type_defs_view(), module.0).push(type_id),
                )
                &&& final(self).modules_view() == old(self).modules_view()
                &&& final(self).children_view() == old(self).children_view()
                &&& final(self).functions_view() == old(self).functions_view()
                &&& final(self).root_view() == old(self).root_view()
                &&& final(self).next_id_view() == old(self).next_id_view()
            },
    {
        if !self.modules.contains_key(&module.0) {
            return Err(CoreError::ModuleNotFound { id: module });
        }
        let mut tys = match self.type_defs.remove(&module.0) {
            Some(v) => v,
            None => Vec::new(),
        };
        tys.push(type_id);
        self.type_defs.insert(module.0, tys);
        proof {
            assert(self.type_defs_view() =~= old(self).type_defs_view().insert(
                module.0,
                seq_at(old(self).type_defs_view(), module.0).push(type_id),
            ));
            assert(self.type_defs_view().dom() =~= old(self).type_defs_view().dom().insert(module.0));
        }
        Ok(())
    }

    /// The functions registered in a module; empty when it has none or is
    /// unknown.
    pub fn functions_in(&self, module: ModuleId) -> (r: &[FunctionId])
        ensures
            r@ == seq_at(self.functions_view(), module.0),
    {
        match self.functions.get(&module.0) {
            Some(v) => v.as_slice(),
            None => &[],
        }
    }

    /// Returns the parent-to-children mapping.
    pub fn children_map(&self) -> (r: &HashMap<u32, Vec<ModuleId>>)
        ensures
            r@.map_values(|v: Vec<ModuleId>| v@) == self.children_view(),
    {
        &self.children
    }

    /// Returns the module-to-functions mapping.
    pub fn functions_map(&self) -> (r: &HashMap<u32, Vec<FunctionId>>)
        ensures
            r@.map_values(|v: Vec<FunctionId>| v@) == self.functions_view(),
    {
        &self.functions
    }

    /// Returns the module-to-type-definitions mapping.
    pub fn type_defs_map(&self) -> (r: &HashMap<u32, Vec<TypeId>>)
        ensures
            r@.map_values(|v: Vec<TypeId>| v@) == self.type_defs_view(),
    {
        &self.type_defs
    }

    /// Every module with its id, one entry per module.
    pub fn all_modules(&self) -> (r: Vec<(ModuleId, ModuleDef)>)
        ensures
            r@.len() == self.modules_view().dom().len(),
            forall|i: int|
                0 <= i < r@.len() ==> self.modules_view().contains_key(#[trigger] r@[i].0.0)
                    && r@[i].1 == self.modules_view()[r@[i].0.0],
            forall|k: u32|
                #[trigger] self.modules_view().contains_key(k) ==> exists|i: int|
                    0 <= i < r@.len() && #[trigger] r@[i].0 == ModuleId(k),
    {
        let mut out: Vec<(ModuleId, ModuleDef)> = Vec::new();
        let ghost elems = vstd::std_specs::hash::spec_hash_map_iter(&self.modules).remaining();
        for entry in it: self.modules.iter()
            invariant
                it.seq() == elems,
                out@.len() == it.index(),
                elems.len() == self.modules_view().dom().len(),
                forall|i: int| #![trigger elems[i]]
                    0 <= i < elems.len() ==> self.modules_view().contains_key(*elems[i].0)
                        && self.modules_view()[*elems[i].0] == *elems[i].1,
                forall|k: u32| #[trigger] self.modules_view().contains_key(k)
                    ==> elems.contains((&k, &self.modules_view()[k])),
                forall|i: int| 0 <= i < out@.len() ==> #[trigger] out@[i] == (ModuleId(*elems[i].0), *elems[i].1),
        {
            let (k, d) = entry;
            out.push((ModuleId(*k), d.duplicate()));
        }
        proof {
            assert forall|k: u32| #[trigger] self.modules_view().contains_key(k) implies exists|i: int|
                0 <= i < out@.len() && #[trigger] out@[i].0 == ModuleId(k) by {
                let i = choose|i: int| 0 <= i < elems.len() && elems[i] == (&k, &self.modules_view()[k]);
                assert(out@[i].0 == ModuleId(k));
            }
        }
        out
    }

    /// Returns the next module id counter value.
    pub fn next_id(&self) -> (r: u32)
        ensures
            r == self.next_id_view(),
    {
        self.next_id
    }

    fn path_from(&self, id: u32) -> (r: Option<Vec<String>>)
        requires
            self.wf(),
        ensures
            match tree_path(self.modules_view(), id) {
                Some(p) => r matches Some(v) && string_views(v@) == p,
                None => r is None,
            },
        decreases id,
    {
        match self.modules.get(&id) {
            None => None,
            Some(m) => {
                let name = m.name.clone();
                match m.parent {
                    None => {
                        let mut v: Vec<String> = Vec::new();
                        v.push(name);
                        proof {
                            assert(string_views(v@) =~= seq![m.name@]);
                        }
                        Some(v)
                    },
                    Some(p) => {
                        match self.path_from(p.0) {
                            None => None,
                            Some(mut v) => {
                                let ghost prev = v@;
                                v.push(name);
                                proof {
                                    assert(string_views(v@) =~= string_views(prev).push(m.name@));
                                }
                                Some(v)
                            },
                        }
                    },
                }
            },
        }
    }

    /// The module names on the path from the root down to `id`, for example
    /// `["root", "math", "trig"]`; empty when `id` is not a known module.
    pub fn path(&self, id: ModuleId) -> (r: Vec<String>)
        requires
            self.wf(),
        ensures
            match tree_path(self.modules_view(), id.0) {
                Some(p) => string_views(r@) == p,
                None => r@.len() == 0,
            },
            self.linked() && self.modules_view().contains_key(id.0) ==> {
                &&& r@.len() == ancestor_count(self.modules_view(), id.0) + 1
                &&& r@[0]@ == self.modules_view()[self.root_view().0].name@
                &&& r@.last()@ == self.modules_view()[id.0].name@
            },
    {
        proof {
            if self.linked() && self.modules_view().contains_key(id.0) {
                lemma_path_shape(self.modules_view(), self.root_view().0, id.0);
            }
        }
        match self.path_from(id.0) {
            Some(v) => v,
            None => Vec::new(),
        }
    }
}

/// The ids below `n`.
pub open spec fn ids_below(n: u32) -> Set<u32> {
    Set::new(|k: u32| k < n)
}

proof fn lemma_ids_below_len(n: u32)
    ensures
        ids_below(n).finite(),
        ids_below(n).len() == n,
    decreases n,
{
    if n == 0 {
        assert(ids_below(0) =~= Set::empty());
    } else {
        let m = (n - 1) as u32;
        lemma_ids_below_len(m);
        assert(ids_below(n) =~= ids_below(m).insert(m));
    }
}

/// In a tree whose ids are handed out densely (every tree built by
/// [`ModuleTree::new`] and the `add_*` operations), the id counter equals
/// the number of modules: one for the root and one per module added
/// successfully. Each id `add_module` returns is the counter before the
/// call, so the ids it hands out are pairwise distinct and differ from the
/// root's.
pub proof fn lemma_next_id_counts_modules(t: ModuleTree)
    requires
        t.ids_dense(),
    ensures
        t.modules_view().dom().finite(),
        t.modules_view().dom().len() == t.next_id_view(),
{
    assert(t.modules_view().dom() =~= ids_below(t.next_id_view()));
    lemma_ids_below_len(t.next_id_view());
}

/// Rebuilding a tree from the parts another tree hands out (its modules,
/// child lists, function lists, type lists, root and id counter) gives a
/// tree with the same modules, the same paths and the same invariants.
pub proof fn lemma_parts_round_trip(t: ModuleTree, r: ModuleTree)
    requires
        r.modules_view() == t.modules_view(),
        r.children_view() == t.children_view(),
        r.functions_view() == t.functions_view(),
        r.type_defs_view() == t.type_defs_view(),
        r.root_view() == t.root_view(),
        r.next_id_view() == t.next_id_view(),
    ensures
        r.wf() == t.wf(),
        r.linked() == t.linked(),
        r.ids_dense() == t.ids_dense(),
        forall|id: u32| #[trigger] tree_path(r.modules_view(), id) == tree_path(t.modules_view(), id),
        forall|id: u32| seq_at(r.children_view(), id) == #[trigger] seq_at(t.children_view(), id),
        forall|id: u32| seq_at(r.functions_view(), id) == #[trigger] seq_at(t.functions_view(), id),
{
}

} // verus!
