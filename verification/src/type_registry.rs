//! The type registry: nominal identity for every type of a program.
//!
//! Each registered type gets the next free [`TypeId`], an index into the
//! registry. The nine built-in types (seven scalars, Unit and Never) are
//! registered on construction under ids 0 to 8.

use vstd::prelude::*;
use crate::error::CoreError;
use crate::ids::TypeId;
use crate::text::str_eq;
use crate::types::{LmType, ScalarType};

verus! {

/// Number of built-in types registered on construction.
pub const BUILTIN_COUNT: u32 = 9;

/// The built-in type registered under id `k`, for `k` below
/// [`BUILTIN_COUNT`].
pub open spec fn builtin_type(k: int) -> LmType {
    if k == 0 {
        LmType::Scalar(ScalarType::Bool)
    } else if k == 1 {
        LmType::Scalar(ScalarType::I8)
    } else if k == 2 {
        LmType::Scalar(ScalarType::I16)
    } else if k == 3 {
        LmType::Scalar(ScalarType::I32)
    } else if k == 4 {
        LmType::Scalar(ScalarType::I64)
    } else if k == 5 {
        LmType::Scalar(ScalarType::F32)
    } else if k == 6 {
        LmType::Scalar(ScalarType::F64)
    } else if k == 7 {
        LmType::Unit
    } else {
        LmType::Never
    }
}

/// The pre-registered id of a scalar type.
pub open spec fn scalar_id(s: ScalarType) -> TypeId {
    match s {
        ScalarType::Bool => TypeId(0),
        ScalarType::I8 => TypeId(1),
        ScalarType::I16 => TypeId(2),
        ScalarType::I32 => TypeId(3),
        ScalarType::I64 => TypeId(4),
        ScalarType::F32 => TypeId(5),
        ScalarType::F64 => TypeId(6),
    }
}

/// The name table as a map; a later entry for the same name wins.
pub open spec fn names_map(entries: Seq<(Seq<char>, TypeId)>) -> Map<Seq<char>, TypeId>
    decreases entries.len(),
{
    if entries.len() == 0 {
        Map::empty()
    } else {
        names_map(entries.drop_last()).insert(entries.last().0, entries.last().1)
    }
}

/// No name occurs twice in the name table.
pub open spec fn names_unique(entries: Seq<(Seq<char>, TypeId)>) -> bool {
    forall|i: int, j: int|
        0 <= i < entries.len() && 0 <= j < entries.len() && i != j
            ==> #[trigger] entries[i].0 != #[trigger] entries[j].0
}

/// A name is in the map exactly when some entry carries it, and then it maps
/// to that entry's id.
proof fn lemma_names_map(entries: Seq<(Seq<char>, TypeId)>, n: Seq<char>)
    requires
        names_unique(entries),
    ensures
        names_map(entries).dom().contains(n) <==> exists|i: int|
            0 <= i < entries.len() && #[trigger] entries[i].0 == n,
        forall|i: int|
            0 <= i < entries.len() && #[trigger] entries[i].0 == n
                ==> names_map(entries)[n] == entries[i].1,
    decreases entries.len(),
{
    if entries.len() > 0 {
        let rest = entries.drop_last();
        assert(names_unique(rest)) by {
            assert forall|i: int, j: int|
                0 <= i < rest.len() && 0 <= j < rest.len() && i != j
                    implies #[trigger] rest[i].0 != #[trigger] rest[j].0 by {
                assert(rest[i] == entries[i]);
                assert(rest[j] == entries[j]);
            }
        }
        lemma_names_map(rest, n);
        let last = entries.len() - 1;
        if exists|i: int| 0 <= i < entries.len() && #[trigger] entries[i].0 == n {
            let i = choose|i: int| 0 <= i < entries.len() && #[trigger] entries[i].0 == n;
            if i < last {
                assert(rest[i] == entries[i]);
            }
        }
        assert forall|i: int|
            0 <= i < entries.len() && #[trigger] entries[i].0 == n
                implies names_map(entries)[n] == entries[i].1 by {
            if i < last {
                assert(entries[i].0 != entries[last].0);
                assert(rest[i] == entries[i]);
            }
        }
        if names_map(entries).dom().contains(n) && n != entries[last].0 {
            let k = choose|k: int| 0 <= k < rest.len() && #[trigger] rest[k].0 == n;
            assert(entries[k] == rest[k]);
        }
    }
}

/// Registry of all types of a program, giving each a nominal [`TypeId`].
#[derive(Debug, Clone)]
pub struct TypeRegistry {
    /// Types indexed by their id.
    types: Vec<LmType>,
    /// Names of the named types (structs and enums), each with its id.
    names: Vec<(String, TypeId)>,
    /// The next free id.
    next_id: u32,
}

impl TypeRegistry {
    /// The registered types, indexed by id.
    pub closed spec fn type_seq(&self) -> Seq<LmType> {
        self.types@
    }

    /// The name table, in registration order.
    pub closed spec fn name_entries(&self) -> Seq<(Seq<char>, TypeId)> {
        self.names@.map_values(|e: (String, TypeId)| (e.0@, e.1))
    }

    /// The next id that `register` hands out.
    pub closed spec fn next(&self) -> u32 {
        self.next_id
    }

    /// Named types by name.
    pub open spec fn name_map(&self) -> Map<Seq<char>, TypeId> {
        names_map(self.name_entries())
    }

    /// The id registered under `name`, if any.
    pub open spec fn lookup(&self, name: Seq<char>) -> Option<TypeId> {
        if self.name_map().dom().contains(name) {
            Some(self.name_map()[name])
        } else {
            None
        }
    }

    /// The type registered under `id`, if any.
    pub open spec fn type_of(&self, id: TypeId) -> Option<LmType> {
        if (id.0 as int) < self.type_seq().len() {
            Some(self.type_seq()[id.0 as int])
        } else {
            None
        }
    }

    /// Well-formedness: ids are indices, the built-ins stand first, names
    /// are unique and each names a registered type.
    pub open spec fn wf(&self) -> bool {
        &&& self.next() as int == self.type_seq().len()
        &&& self.type_seq().len() >= BUILTIN_COUNT
        &&& forall|k: int| 0 <= k < BUILTIN_COUNT ==> #[trigger] self.type_seq()[k] == builtin_type(k)
        &&& names_unique(self.name_entries())
        &&& forall|i: int| 0 <= i < self.name_entries().len()
                ==> (#[trigger] self.name_entries()[i]).1.0 < self.next()
    }

    /// A new registry holding the nine built-in types under ids 0 to 8 and
    /// no named types.
    pub fn new() -> (r: Self)
        ensures
            r.wf(),
            r.type_seq().len() == BUILTIN_COUNT,
            r.name_map() == Map::<Seq<char>, TypeId>::empty(),
    {
        let types = vec![
            LmType::Scalar(ScalarType::Bool),
            LmType::Scalar(ScalarType::I8),
            LmType::Scalar(ScalarType::I16),
            LmType::Scalar(ScalarType::I32),
            LmType::Scalar(ScalarType::I64),
            LmType::Scalar(ScalarType::F32),
            LmType::Scalar(ScalarType::F64),
            LmType::Unit,
            LmType::Never,
        ];
        let r = TypeRegistry { types, names: Vec::new(), next_id: BUILTIN_COUNT };
        assert(r.name_entries() =~= Seq::<(Seq<char>, TypeId)>::empty());
        r
    }

    /// Number of registered types.
    pub fn type_count(&self) -> (n: usize)
        ensures
            n == self.type_seq().len(),
    {
        self.types.len()
    }

    /// The id that the next registration will receive.
    pub fn next_id(&self) -> (n: u32)
        ensures
            n == self.next(),
    {
        self.next_id
    }

    /// Registers an unnamed type and returns its new id, the next free one.
    /// Earlier types and names are unchanged.
    pub fn register(&mut self, ty: LmType) -> (id: TypeId)
        requires
            old(self).wf(),
            old(self).next() < u32::MAX,
        ensures
            final(self).wf(),
            id == TypeId(old(self).next()),
            final(self).type_seq() == old(self).type_seq().push(ty),
            final(self).name_entries() == old(self).name_entries(),
            final(self).type_of(id) == Some(ty),
            final(self).next() == old(self).next() + 1,
    {
        let id = TypeId(self.next_id);
        self.types.push(ty);
        self.next_id = self.next_id + 1;
        proof {
            assert forall|k: int| 0 <= k < BUILTIN_COUNT implies #[trigger] self.type_seq()[k] == builtin_type(k) by {
                assert(self.type_seq()[k] == old(self).type_seq()[k]);
            }
            assert forall|i: int| 0 <= i < self.name_entries().len()
                implies (#[trigger] self.name_entries()[i]).1.0 < self.next() by {
                assert(self.name_entries()[i] == old(self).name_entries()[i]);
            }
        }
        id
    }

    /// Registers a named type. Fails with `DuplicateTypeName` and changes
    /// nothing when the name is taken; otherwise registers the type as
    /// `register` does and binds the name to its id.
    pub fn register_named(&mut self, name: &str, ty: LmType) -> (r: Result<TypeId, CoreError>)
        requires
            old(self).wf(),
            old(self).lookup(name@) is None ==> old(self).next() < u32::MAX,
        ensures
            final(self).wf(),
            old(self).lookup(name@) is Some ==> {
                &&& (r matches Err(CoreError::DuplicateTypeName { name: n }) && n@ == name@)
                &&& *final(self) == *old(self)
            },
            old(self).lookup(name@) is None ==> {
                &&& (r matches Ok(id) && id == TypeId(old(self).next()))
                &&& final(self).type_seq() == old(self).type_seq().push(ty)
                &&& final(self).name_map() == old(self).name_map().insert(name@, TypeId(old(self).next()))
                &&& final(self).lookup(name@) == Some(TypeId(old(self).next()))
                &&& final(self).type_of(TypeId(old(self).next())) == Some(ty)
                &&& final(self).next() == old(self).next() + 1
            },
    {
        if self.get_by_name(name).is_some() {
            return Err(CoreError::DuplicateTypeName { name: String::from_str(name) });
        }
        let ghost old_entries = self.name_entries();
        proof {
            lemma_names_map(old_entries, name@);
        }
        let id = self.register(ty);
        self.names.push((String::from_str(name), id));
        proof {
            let e = self.name_entries();
            assert(e =~= old_entries.push((name@, id)));
            assert(e.drop_last() =~= old_entries);
            assert forall|i: int, j: int|
                0 <= i < e.len() && 0 <= j < e.len() && i != j
                    implies #[trigger] e[i].0 != #[trigger] e[j].0 by {
                if i == e.len() - 1 {
                    assert(old_entries[j].0 == e[j].0);
                } else if j == e.len() - 1 {
                    assert(old_entries[i].0 == e[i].0);
                } else {
                    assert(old_entries[i] == e[i]);
                    assert(old_entries[j] == e[j]);
                }
            }
            assert forall|i: int| 0 <= i < e.len() implies (#[trigger] e[i]).1.0 < self.next() by {
                if i < e.len() - 1 {
                    assert(e[i] == old_entries[i]);
                }
            }
        }
        Ok(id)
    }

    /// The type registered under `id`, or `None` past the last id.
    pub fn get(&self, id: TypeId) -> (r: Option<&LmType>)
        ensures
            match r {
                Some(t) => self.type_of(id) == Some(*t),
                None => self.type_of(id) is None,
            },
    {
        let i = id.0 as usize;
        if i < self.types.len() {
            Some(&self.types[i])
        } else {
            None
        }
    }

    /// The id of the named type `name`, if one was registered.
    pub fn get_by_name(&self, name: &str) -> (r: Option<TypeId>)
        requires
            self.wf(),
        ensures
            r == self.lookup(name@),
    {
        let ghost entries = self.name_entries();
        proof {
            lemma_names_map(entries, name@);
        }
        let n = self.names.len();
        let mut i: usize = 0;
        while i < n
            invariant
                n == self.names@.len(),
                entries == self.name_entries(),
                names_unique(entries),
                i <= n,
                forall|k: int| 0 <= k < i ==> (#[trigger] entries[k]).0 != name@,
            decreases n - i,
        {
            assert(entries[i as int] == (self.names@[i as int].0@, self.names@[i as int].1));
            if str_eq(self.names[i].0.as_str(), name) {
                proof {
                    lemma_names_map(entries, name@);
                    assert(entries[i as int].0 == name@);
                }
                return Some(self.names[i].1);
            }
            i = i + 1;
        }
        None
    }

    /// The pre-registered id of a scalar type.
    pub fn scalar_type_id(&self, scalar: ScalarType) -> (t: TypeId)
        ensures
            t == scalar_id(scalar),
    {
        match scalar {
            ScalarType::Bool => TypeId(0),
            ScalarType::I8 => TypeId(1),
            ScalarType::I16 => TypeId(2),
            ScalarType::I32 => TypeId(3),
            ScalarType::I64 => TypeId(4),
            ScalarType::F32 => TypeId(5),
            ScalarType::F64 => TypeId(6),
        }
    }

    /// The pre-registered id of the Unit type.
    pub fn unit_type_id(&self) -> (t: TypeId)
        ensures
            t == TypeId(7),
    {
        TypeId(7)
    }

    /// The pre-registered id of the Never type.
    pub fn never_type_id(&self) -> (t: TypeId)
        ensures
            t == TypeId(8),
    {
        TypeId(8)
    }
}

impl Default for TypeRegistry {
    fn default() -> (r: Self)
        ensures
            r.wf(),
            r.type_seq().len() == BUILTIN_COUNT,
            r.name_map() == Map::<Seq<char>, TypeId>::empty(),
    {
        Self::new()
    }
}

/// In every well-formed registry, the id of each scalar type resolves to
/// that scalar, and the Unit and Never ids resolve to Unit and Never.
pub proof fn lemma_builtin_ids_resolve(reg: TypeRegistry, s: ScalarType)
    requires
        reg.wf(),
    ensures
        reg.type_of(scalar_id(s)) == Some(LmType::Scalar(s)),
        reg.type_of(TypeId(7)) == Some(LmType::Unit),
        reg.type_of(TypeId(8)) == Some(LmType::Never),
{
    let k = scalar_id(s).0 as int;
    assert(reg.type_seq()[k] == builtin_type(k));
    assert(reg.type_seq()[7] == builtin_type(7));
    assert(reg.type_seq()[8] == builtin_type(8));
}

/// Registration never reuses an id: the id handed out is not that of any
/// type registered before, nor bound to any earlier name.
pub proof fn lemma_fresh_ids(reg: TypeRegistry, name: Seq<char>)
    requires
        reg.wf(),
    ensures
        reg.type_of(TypeId(reg.next())) is None,
        reg.lookup(name) matches Some(id) ==> id != TypeId(reg.next()),
{
    lemma_names_map(reg.name_entries(), name);
}

} // verus!
