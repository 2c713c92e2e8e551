use std::collections::HashMap;
use vstd::prelude::*;

verus! {

broadcast use vstd::std_specs::hash::group_hash_axioms;

/// The id that no symbol table is expected to hold: walking it enters a unit at its root.
pub const ROOT_SENTINEL: u32 = 4294967295;

/// The largest number of slots a catalog may have (unit ids fit in 32 bits).
pub const MAX_UNITS: u64 = 4294967296;

/// How a struct lays out its fields.
pub enum StructShape {
    /// `struct S;`
    Unit,
    /// `struct S(A, B);`: positional fields, never expanded into documentation.
    Tuple(Vec<Option<u32>>),
    /// `struct S { a: A }`: the ids of the named fields, in declaration order.
    Plain(Vec<u32>),
}

/// What a symbol is, with the payload the walker follows.
pub enum SymbolKind {
    Module(Vec<u32>),
    ExternCrate,
    /// A re-export: the dotted path of the original declaration and, where the
    /// documentation tool resolved it, the target's id in the current unit.
    Use { source: String, target: Option<u32> },
    Union,
    Struct(StructShape),
    StructField,
    Enum(Vec<u32>),
    Variant,
    Function,
    Trait,
    TraitAlias,
    Impl,
    TypeAlias,
    Constant,
    Static,
    ExternType,
    Macro,
    ProcMacro,
    Primitive,
    AssocConst,
    AssocType,
}

impl SymbolKind {
    /// Kinds that the walker has no policy for: meeting one aborts the traversal.
    pub open spec fn is_unsupported(&self) -> bool {
        match self {
            SymbolKind::ExternCrate | SymbolKind::Union | SymbolKind::TraitAlias
            | SymbolKind::ExternType | SymbolKind::Primitive | SymbolKind::AssocConst => true,
            _ => false,
        }
    }
}

/// One documented entity of a compilation unit.
pub struct SymbolRecord {
    pub name: Option<String>,
    pub docs: Option<String>,
    pub kind: SymbolKind,
}

/// The symbols of one unit, keyed by id, with the id of its top-level module.
pub struct SymbolTable {
    root: u32,
    index: HashMap<u32, SymbolRecord>,
}

impl SymbolTable {
    pub closed spec fn root_id(&self) -> u32 {
        self.root
    }

    pub closed spec fn entries(&self) -> Map<u32, SymbolRecord> {
        self.index@
    }

    /// The root id names a symbol of the table.
    pub open spec fn wf(&self) -> bool {
        self.entries().contains_key(self.root_id())
    }

    /// The record a walk dispatches on for `id`: the symbol itself, or the root
    /// module where the table does not hold `id`.
    pub open spec fn record(&self, id: u32) -> SymbolRecord {
        if self.entries().contains_key(id) {
            self.entries()[id]
        } else {
            self.entries()[self.root_id()]
        }
    }

    /// Builds a table; there is none where `root` is not one of the ids.
    pub fn new(root: u32, index: HashMap<u32, SymbolRecord>) -> (r: Option<SymbolTable>)
        ensures
            r is Some <==> index@.contains_key(root),
            r matches Some(t) ==> t.root_id() == root && t.entries() == index@ && t.wf(),
    {
        if index.contains_key(&root) {
            Some(SymbolTable { root, index })
        } else {
            None
        }
    }

    pub fn root(&self) -> (r: u32)
        ensures
            r == self.root_id(),
    {
        self.root
    }

    /// The record stored under `id`, if any.
    pub fn get(&self, id: u32) -> (r: Option<&SymbolRecord>)
        ensures
            r is Some <==> self.entries().contains_key(id),
            r matches Some(rec) ==> *rec == self.entries()[id],
    {
        self.index.get(&id)
    }

    /// The record stored under `id`, or the root module's where there is none.
    pub fn record_or_root(&self, id: u32) -> (r: &SymbolRecord)
        requires
            self.wf(),
        ensures
            *r == self.record(id),
    {
        match self.index.get(&id) {
            Some(rec) => rec,
            None => self.index.get(&self.root).unwrap(),
        }
    }
}

/// A loaded compilation unit: its name and its symbols.
pub struct Unit {
    pub name: String,
    pub table: SymbolTable,
}

/// The units of one traversal; slot 0 is the primary unit, the others are its
/// declared dependencies, empty where a dependency was not loaded.
pub struct Catalog {
    units: Vec<Option<Unit>>,
}

impl Catalog {
    pub closed spec fn slots(&self) -> Seq<Option<Unit>> {
        self.units@
    }

    pub open spec fn present(&self, unit: int) -> bool {
        0 <= unit < self.slots().len() && self.slots()[unit] is Some
    }

    pub open spec fn table(&self, unit: int) -> SymbolTable {
        self.slots()[unit]->Some_0.table
    }

    pub open spec fn unit_name(&self, unit: int) -> Seq<char> {
        self.slots()[unit]->Some_0.name@
    }

    pub open spec fn wf(&self) -> bool {
        &&& 1 <= self.slots().len() <= MAX_UNITS as int
        &&& self.present(0)
        &&& forall|u: int| #[trigger] self.present(u) ==> self.table(u).wf()
    }

    /// The first slot, from `from` on, whose unit is called `name`.
    pub open spec fn unit_named_from(&self, name: Seq<char>, from: int) -> Option<int>
        decreases self.slots().len() - from,
    {
        if from < 0 || from >= self.slots().len() {
            None
        } else if self.present(from) && self.unit_name(from) == name {
            Some(from)
        } else {
            self.unit_named_from(name, from + 1)
        }
    }

    /// The first slot whose unit is called `name`.
    pub open spec fn unit_named(&self, name: Seq<char>) -> Option<int> {
        self.unit_named_from(name, 0)
    }

    /// A catalog of the primary unit and `dependencies` empty slots; none where
    /// the slots would not fit unit ids.
    pub fn new(primary: Unit, dependencies: usize) -> (r: Option<Catalog>)
        requires
            primary.table.wf(),
        ensures
            r is Some <==> dependencies < MAX_UNITS as int,
            r matches Some(c) ==> {
                &&& c.wf()
                &&& c.slots().len() == dependencies + 1
                &&& c.slots()[0] == Some(primary)
                &&& forall|u: int| 1 <= u < c.slots().len() ==> c.slots()[u] is None
            },
    {
        if dependencies as u64 >= MAX_UNITS {
            return None;
        }
        let mut units: Vec<Option<Unit>> = Vec::new();
        units.push(Some(primary));
        let mut i: usize = 0;
        while i < dependencies
            invariant
                i <= dependencies < MAX_UNITS as int,
                units@.len() == i + 1,
                units@[0] == Some(primary),
                forall|u: int| 1 <= u < units@.len() ==> units@[u] is None,
            decreases dependencies - i,
        {
            units.push(None);
            i = i + 1;
        }
        let c = Catalog { units };
        assert forall|u: int| #[trigger] c.present(u) implies c.table(u).wf() by {
            assert(u == 0);
        }
        Some(c)
    }

    /// Fills a dependency slot; slot 0 and slots past the end are left alone.
    pub fn set_dependency(&mut self, slot: usize, unit: Unit) -> (r: bool)
        requires
            old(self).wf(),
            unit.table.wf(),
        ensures
            final(self).wf(),
            r == (1 <= slot < old(self).slots().len()),
            r ==> final(self).slots() == old(self).slots().update(slot as int, Some(unit)),
            !r ==> final(self).slots() == old(self).slots(),
    {
        if slot == 0 || slot >= self.units.len() {
            return false;
        }
        self.units.set(slot, Some(unit));
        assert forall|u: int| #[trigger] self.present(u) implies self.table(u).wf() by {
            if u != slot {
                assert(old(self).present(u));
            }
        }
        true
    }

    pub fn len(&self) -> (r: usize)
        ensures
            r == self.slots().len(),
    {
        self.units.len()
    }

    pub fn unit(&self, slot: usize) -> (r: Option<&Unit>)
        ensures
            r is Some <==> self.present(slot as int),
            r matches Some(u) ==> *u == self.slots()[slot as int]->Some_0,
    {
        if slot < self.units.len() {
            self.units[slot].as_ref()
        } else {
            None
        }
    }

    /// The first slot whose unit is called `name` (a linear scan; later
    /// namesakes are never found).
    pub fn find_unit_by_name(&self, name: &String) -> (r: Option<usize>)
        ensures
            r matches Some(u) ==> Some(u as int) == self.unit_named(name@),
            r is None ==> self.unit_named(name@) is None,
    {
        let mut i: usize = 0;
        while i < self.units.len()
            invariant
                i <= self.slots().len(),
                self.unit_named(name@) == self.unit_named_from(name@, i as int),
            decreases self.slots().len() - i,
        {
            if let Some(unit) = &self.units[i] {
                if unit.name == *name {
                    return Some(i);
                }
            }
            i = i + 1;
        }
        None
    }
}

} // verus!
