use std::collections::HashSet;
use crate::document::{document_struct, struct_doc, DocView, DocumentError, StructDocument};
use crate::path::{resolution, resolve_use};
use crate::symbols::{Catalog, SymbolKind, MAX_UNITS};
use vstd::prelude::*;
use vstd::set_lib::{lemma_int_range, lemma_len_subset, set_int_range};

verus! {

broadcast use vstd::std_specs::hash::group_hash_axioms;

/// Number of symbol ids a unit may hold (ids are 32-bit).
pub const IDS_PER_UNIT: u64 = 4294967296;

/// Why a traversal stopped.
#[derive(Debug, Clone, Copy, PartialEq, Eq, Structural)]
pub enum WalkError {
    /// The symbol walked at (unit, id) is of a kind the walker has no policy for.
    Unsupported { unit: usize, id: u32 },
    /// The re-export at (unit, id) leads to no known unit and has no resolved target.
    UnresolvedUse { unit: usize, id: u32 },
    /// The struct at (unit, id) could not be documented.
    Document { unit: usize, id: u32, error: DocumentError },
}

/// The number that stands for the pair (unit, id) in a visited set.
pub open spec fn pair_key(unit: int, id: u32) -> int {
    unit * IDS_PER_UNIT + id as int
}

/// Every pair key a walk over `cat` can mark.
pub open spec fn key_space(cat: &Catalog) -> Set<int> {
    set_int_range(0, cat.slots().len() * IDS_PER_UNIT)
}

/// How many pairs of `cat` are still unvisited: what every step of a walk shrinks.
pub open spec fn unvisited(cat: &Catalog, vis: Set<int>) -> int {
    cat.slots().len() * IDS_PER_UNIT - vis.intersect(key_space(cat)).len()
}

/// What a walk leaves behind: the visited pairs, the documents in the order they
/// were made, and the reason it stopped early, if it did.
pub type WalkOutcome = (Set<int>, Seq<DocView>, Option<WalkError>);

/// The walk at (unit, id), given the pairs visited before it. A pair already
/// visited is skipped; otherwise it is marked, its record (the unit's root
/// module where the unit lacks the id) is looked up, and the walk goes on by
/// kind: modules and enums into their children in order, re-exports to where
/// they resolve, structs into one document; unsupported kinds stop the walk.
pub open spec fn walk_from(cat: &Catalog, vis: Set<int>, unit: int, id: u32) -> WalkOutcome
    decreases unvisited(cat, vis), 0int,
{
    if !(cat.wf() && cat.present(unit) && vis.finite()) || vis.contains(pair_key(unit, id)) {
        (vis, seq![], None)
    } else {
        let now = vis.insert(pair_key(unit, id));
        proof {
            lemma_mark_shrinks(cat, vis, unit, id);
        }
        let item = cat.table(unit).record(id);
        match item.kind {
            SymbolKind::Module(ids) => walk_each(cat, now, unit, ids@, 0),
            SymbolKind::Enum(ids) => walk_each(cat, now, unit, ids@, 0),
            SymbolKind::Use { source, target } => match resolution(cat, source@, target, unit) {
                Some((u, t)) => walk_from(cat, now, u, t),
                None => (now, seq![], Some(WalkError::UnresolvedUse { unit: unit as usize, id })),
            },
            SymbolKind::Struct(shape) => match struct_doc(cat.table(unit), id, item, shape) {
                Ok(d) => (now, seq![d], None),
                Err(e) => (now, seq![], Some(WalkError::Document { unit: unit as usize, id, error: e })),
            },
            _ => if item.kind.is_unsupported() {
                (now, seq![], Some(WalkError::Unsupported { unit: unit as usize, id }))
            } else {
                (now, seq![], None)
            },
        }
    }
}

/// The walks at (unit, ids[from]), (unit, ids[from + 1]), ... in turn, each
/// starting from the pairs the one before left visited, up to the first that stops.
pub open spec fn walk_each(cat: &Catalog, vis: Set<int>, unit: int, ids: Seq<u32>, from: int) -> WalkOutcome
    decreases unvisited(cat, vis), ids.len() - from + 1,
{
    if !(cat.wf() && vis.finite()) || from < 0 || from >= ids.len() {
        (vis, seq![], None)
    } else {
        proof {
            lemma_unvisited_bounds(cat, vis);
        }
        let first = walk_from(cat, vis, unit, ids[from]);
        if first.2 is Some || !(vis.subset_of(first.0) && first.0.finite()) {
            first
        } else {
            proof {
                lemma_growth_shrinks(cat, vis, first.0);
            }
            let rest = walk_each(cat, first.0, unit, ids, from + 1);
            (rest.0, first.1 + rest.1, rest.2)
        }
    }
}

/// The whole traversal: from the primary unit's root, with nothing visited.
pub open spec fn traversal(cat: &Catalog) -> WalkOutcome {
    walk_from(cat, Set::empty(), 0, cat.table(0).root_id())
}

/// The number of pairs left to visit is never negative.
pub proof fn lemma_unvisited_bounds(cat: &Catalog, vis: Set<int>)
    ensures
        unvisited(cat, vis) >= 0,
        vis.intersect(key_space(cat)).finite(),
{
    let bound = cat.slots().len() * IDS_PER_UNIT;
    assert(bound >= 0) by (nonlinear_arith)
        requires bound == cat.slots().len() * IDS_PER_UNIT;
    lemma_int_range(0, bound);
    lemma_len_subset(vis.intersect(key_space(cat)), key_space(cat));
}

/// Marking an unvisited pair of a present unit leaves one pair fewer to visit.
pub proof fn lemma_mark_shrinks(cat: &Catalog, vis: Set<int>, unit: int, id: u32)
    requires
        cat.present(unit),
        vis.finite(),
        !vis.contains(pair_key(unit, id)),
    ensures
        0 <= unvisited(cat, vis.insert(pair_key(unit, id))) < unvisited(cat, vis),
        vis.insert(pair_key(unit, id)).finite(),
{
    let k = pair_key(unit, id);
    let len = cat.slots().len() as int;
    assert(0 <= k < len * IDS_PER_UNIT) by (nonlinear_arith)
        requires
            k == unit * IDS_PER_UNIT + id as int,
            0 <= unit < len,
            0 <= id < IDS_PER_UNIT;
    assert(vis.insert(k).intersect(key_space(cat)) =~= vis.intersect(key_space(cat)).insert(k));
    lemma_unvisited_bounds(cat, vis);
    lemma_unvisited_bounds(cat, vis.insert(k));
}

/// A walk that only adds pairs leaves no more pairs to visit than before.
pub proof fn lemma_growth_shrinks(cat: &Catalog, before: Set<int>, after: Set<int>)
    requires
        before.subset_of(after),
    ensures
        0 <= unvisited(cat, after) <= unvisited(cat, before),
{
    lemma_unvisited_bounds(cat, after);
    lemma_unvisited_bounds(cat, before);
    lemma_len_subset(before.intersect(key_space(cat)), after.intersect(key_space(cat)));
}

/// The set of (unit, symbol) pairs a traversal has processed.
pub struct VisitedSet {
    keys: HashSet<u64>,
    model: Ghost<Set<int>>,
}

impl View for VisitedSet {
    type V = Set<int>;

    closed spec fn view(&self) -> Set<int> {
        self.model@
    }
}

impl VisitedSet {
    pub closed spec fn wf(&self) -> bool {
        &&& self.model@.finite()
        &&& forall|k: u64| self.keys@.contains(k) <==> #[trigger] self.model@.contains(k as int)
        &&& forall|k: int| #[trigger] self.model@.contains(k) ==> 0 <= k <= u64::MAX
    }

    /// A well-formed visited set holds finitely many pairs.
    pub proof fn lemma_finite(&self)
        requires
            self.wf(),
        ensures
            self@.finite(),
    {
    }

    pub fn new() -> (r: VisitedSet)
        ensures
            r.wf(),
            r@.finite(),
            r@ == Set::<int>::empty(),
    {
        VisitedSet { keys: HashSet::new(), model: Ghost(Set::empty()) }
    }

    /// Marks (unit, id) as visited; true when it was not visited before.
    pub fn mark(&mut self, unit: usize, id: u32) -> (r: bool)
        requires
            old(self).wf(),
            unit < MAX_UNITS,
        ensures
            final(self).wf(),
            final(self)@.finite(),
            r == !old(self)@.contains(pair_key(unit as int, id)),
            final(self)@ == old(self)@.insert(pair_key(unit as int, id)),
    {
        let key: u64 = Self::key(unit, id);
        let fresh = self.keys.insert(key);
        self.model = Ghost(self.model@.insert(key as int));
        proof {
            assert forall|k: u64| self.keys@.contains(k) <==> #[trigger] self.model@.contains(k as int) by {
                if k as int == key as int {
                    assert(k == key);
                }
            }
        }
        fresh
    }

    /// Whether (unit, id) has been visited.
    pub fn contains(&self, unit: usize, id: u32) -> (r: bool)
        requires
            self.wf(),
            unit < MAX_UNITS,
        ensures
            r == self@.contains(pair_key(unit as int, id)),
    {
        let key: u64 = Self::key(unit, id);
        self.keys.contains(&key)
    }

    fn key(unit: usize, id: u32) -> (r: u64)
        requires
            unit < MAX_UNITS,
        ensures
            r as int == pair_key(unit as int, id),
    {
        assert(unit as int * IDS_PER_UNIT + id as int <= u64::MAX) by (nonlinear_arith)
            requires
                0 <= unit < MAX_UNITS,
                0 <= id < IDS_PER_UNIT,
                MAX_UNITS == IDS_PER_UNIT,
        ;
        unit as u64 * IDS_PER_UNIT + id as u64
    }
}

/// The documents of a list of struct documents.
pub open spec fn docs_view(docs: Seq<StructDocument>) -> Seq<DocView> {
    docs.map_values(|d: StructDocument| d@)
}

/// `Ok` when a walk ran to its end, its error otherwise.
pub open spec fn outcome_result(failure: Option<WalkError>) -> Result<(), WalkError> {
    match failure {
        Some(e) => Err(e),
        None => Ok(()),
    }
}

/// Walks the symbol at (unit, id), appending a document for each struct reached.
pub fn item_explorer(
    id: u32,
    unit: usize,
    catalog: &Catalog,
    visited: &mut VisitedSet,
    docs: &mut Vec<StructDocument>,
) -> (r: Result<(), WalkError>)
    requires
        catalog.wf(),
        catalog.present(unit as int),
        old(visited).wf(),
    ensures
        final(visited).wf(),
        final(visited)@.finite(),
        old(visited)@.subset_of(final(visited)@),
        final(visited)@.contains(pair_key(unit as int, id)),
        old(visited)@.contains(pair_key(unit as int, id)) ==> final(visited)@ == old(visited)@
            && final(docs)@ == old(docs)@ && r is Ok,
        final(visited)@ == walk_from(catalog, old(visited)@, unit as int, id).0,
        docs_view(final(docs)@) == docs_view(old(docs)@) + walk_from(catalog, old(visited)@, unit as int, id).1,
        r == outcome_result(walk_from(catalog, old(visited)@, unit as int, id).2),
    decreases unvisited(catalog, old(visited)@), 0int,
{
    let ghost vis0 = visited@;
    let ghost docs0 = docs@;
    if !visited.mark(unit, id) {
        assert(docs_view(docs@) + seq![] =~= docs_view(docs@));
        return Ok(());
    }
    proof {
        lemma_mark_shrinks(catalog, vis0, unit as int, id);
    }
    let table = &catalog.unit(unit).unwrap().table;
    let item = table.record_or_root(id);
    match &item.kind {
        SymbolKind::Module(ids) => explore_ids(ids, 0, unit, catalog, visited, docs),
        SymbolKind::Enum(ids) => explore_ids(ids, 0, unit, catalog, visited, docs),
        SymbolKind::Use { source, target } => match resolve_use(source, *target, unit, catalog) {
            Some((u, t)) => item_explorer(t, u, catalog, visited, docs),
            None => {
                assert(docs_view(docs@) + seq![] =~= docs_view(docs@));
                Err(WalkError::UnresolvedUse { unit, id })
            },
        },
        SymbolKind::Struct(shape) => match document_struct(item, id, shape, table) {
            Ok(d) => {
                docs.push(d);
                assert(docs_view(docs@) =~= docs_view(docs0) + seq![d@]);
                Ok(())
            },
            Err(e) => {
                assert(docs_view(docs@) + seq![] =~= docs_view(docs@));
                Err(WalkError::Document { unit, id, error: e })
            },
        },
        SymbolKind::ExternCrate | SymbolKind::Union | SymbolKind::TraitAlias
        | SymbolKind::ExternType | SymbolKind::Primitive | SymbolKind::AssocConst => {
            assert(docs_view(docs@) + seq![] =~= docs_view(docs@));
            Err(WalkError::Unsupported { unit, id })
        },
        _ => {
            assert(docs_view(docs@) + seq![] =~= docs_view(docs@));
            Ok(())
        },
    }
}

/// Walks (unit, ids[from]), (unit, ids[from + 1]), ... in order, up to the first error.
fn explore_ids(
    ids: &Vec<u32>,
    from: usize,
    unit: usize,
    catalog: &Catalog,
    visited: &mut VisitedSet,
    docs: &mut Vec<StructDocument>,
) -> (r: Result<(), WalkError>)
    requires
        catalog.wf(),
        catalog.present(unit as int),
        old(visited).wf(),
        from <= ids@.len(),
    ensures
        final(visited).wf(),
        final(visited)@.finite(),
        old(visited)@.subset_of(final(visited)@),
        final(visited)@ == walk_each(catalog, old(visited)@, unit as int, ids@, from as int).0,
        docs_view(final(docs)@) == docs_view(old(docs)@) + walk_each(catalog, old(visited)@, unit as int, ids@, from as int).1,
        r == outcome_result(walk_each(catalog, old(visited)@, unit as int, ids@, from as int).2),
    decreases unvisited(catalog, old(visited)@), ids@.len() - from + 1,
{
    let ghost vis0 = visited@;
    let ghost docs0 = docs@;
    if from >= ids.len() {
        assert(docs_view(docs@) + seq![] =~= docs_view(docs@));
        return Ok(());
    }
    proof {
        lemma_unvisited_bounds(catalog, vis0);
    }
    let first = item_explorer(ids[from], unit, catalog, visited, docs);
    if first.is_err() {
        return first;
    }
    let ghost vis1 = visited@;
    let ghost docs1 = docs@;
    proof {
        lemma_growth_shrinks(catalog, vis0, vis1);
    }
    let rest = explore_ids(ids, from + 1, unit, catalog, visited, docs);
    proof {
        let w1 = walk_from(catalog, vis0, unit as int, ids@[from as int]);
        let w2 = walk_each(catalog, vis1, unit as int, ids@, from + 1);
        assert(docs_view(docs@) =~= docs_view(docs0) + (w1.1 + w2.1));
    }
    rest
}

/// Walks the whole catalog from the primary unit's root and returns the struct
/// documents in the order the walk reached them.
pub fn start_krate(catalog: &Catalog) -> (r: Result<Vec<StructDocument>, WalkError>)
    requires
        catalog.wf(),
    ensures
        match traversal(catalog).2 {
            None => r matches Ok(docs) && docs_view(docs@) == traversal(catalog).1,
            Some(e) => r == Err::<Vec<StructDocument>, WalkError>(e),
        },
{
    let mut visited = VisitedSet::new();
    let mut docs: Vec<StructDocument> = Vec::new();
    let root = catalog.unit(0).unwrap().table.root();
    let r = item_explorer(root, 0, catalog, &mut visited, &mut docs);
    assert(docs_view(Seq::<StructDocument>::empty()) =~= seq![]);
    match r {
        Ok(()) => {
            assert(docs_view(docs@) =~= traversal(catalog).1);
            Ok(docs)
        },
        Err(e) => Err(e),
    }
}

} // verus!
