use crate::document::DocView;
use crate::path::{first_segment, lemma_unit_named_is_present, names_current_unit, resolution};
use crate::symbols::{Catalog, SymbolKind, ROOT_SENTINEL};
use crate::walk::{
    lemma_growth_shrinks, lemma_mark_shrinks, lemma_unvisited_bounds, pair_key, unvisited, walk_each, walk_from, WalkError,
};
use vstd::prelude::*;

verus! {

/// A walk never forgets a visited pair, and a set that starts finite stays finite.
pub proof fn lemma_walk_grows(cat: &Catalog, vis: Set<int>, unit: int, id: u32)
    ensures
        vis.subset_of(walk_from(cat, vis, unit, id).0),
        vis.finite() ==> walk_from(cat, vis, unit, id).0.finite(),
    decreases unvisited(cat, vis), 0int,
{
    if cat.wf() && cat.present(unit) && vis.finite() && !vis.contains(pair_key(unit, id)) {
        let now = vis.insert(pair_key(unit, id));
        lemma_mark_shrinks(cat, vis, unit, id);
        let item = cat.table(unit).record(id);
        match item.kind {
            SymbolKind::Module(ids) => lemma_each_grows(cat, now, unit, ids@, 0),
            SymbolKind::Enum(ids) => lemma_each_grows(cat, now, unit, ids@, 0),
            SymbolKind::Use { source, target } => match resolution(cat, source@, target, unit) {
                Some((u, t)) => lemma_walk_grows(cat, now, u, t),
                None => {},
            },
            _ => {},
        }
    }
}

/// The same for a walk over a list of ids.
pub proof fn lemma_each_grows(cat: &Catalog, vis: Set<int>, unit: int, ids: Seq<u32>, from: int)
    ensures
        vis.subset_of(walk_each(cat, vis, unit, ids, from).0),
        vis.finite() ==> walk_each(cat, vis, unit, ids, from).0.finite(),
    decreases unvisited(cat, vis), ids.len() - from + 1,
{
    if cat.wf() && vis.finite() && 0 <= from < ids.len() {
        lemma_unvisited_bounds(cat, vis);
        lemma_walk_grows(cat, vis, unit, ids[from]);
        let first = walk_from(cat, vis, unit, ids[from]);
        if first.2 is None && vis.subset_of(first.0) && first.0.finite() {
            lemma_growth_shrinks(cat, vis, first.0);
            lemma_each_grows(cat, first.0, unit, ids, from + 1);
        }
    }
}

/// Each (unit, symbol) pair is dispatched at most once: walking a pair that is
/// already visited does nothing at all, and walking any other pair leaves it
/// visited, together with everything visited before.
pub proof fn law_visit_once(cat: &Catalog, vis: Set<int>, unit: int, id: u32)
    requires
        cat.wf(),
        cat.present(unit),
        vis.finite(),
    ensures
        vis.contains(pair_key(unit, id)) ==> walk_from(cat, vis, unit, id) == (vis, Seq::<DocView>::empty(), None::<WalkError>),
        walk_from(cat, vis, unit, id).0.contains(pair_key(unit, id)),
        vis.subset_of(walk_from(cat, vis, unit, id).0),
{
    lemma_walk_grows(cat, vis, unit, id);
    if !vis.contains(pair_key(unit, id)) {
        let now = vis.insert(pair_key(unit, id));
        lemma_mark_shrinks(cat, vis, unit, id);
        let item = cat.table(unit).record(id);
        match item.kind {
            SymbolKind::Module(ids) => lemma_each_grows(cat, now, unit, ids@, 0),
            SymbolKind::Enum(ids) => lemma_each_grows(cat, now, unit, ids@, 0),
            SymbolKind::Use { source, target } => match resolution(cat, source@, target, unit) {
                Some((u, t)) => lemma_walk_grows(cat, now, u, t),
                None => {},
            },
            _ => {},
        }
    }
}

/// A re-export that leads back to itself ends the walk there: the pair is
/// marked once and the second visit does nothing.
pub proof fn law_reexport_cycle_ends(cat: &Catalog, vis: Set<int>, unit: int, x: u32)
    requires
        cat.wf(),
        cat.present(unit),
        vis.finite(),
        !vis.contains(pair_key(unit, x)),
        cat.table(unit).record(x).kind matches SymbolKind::Use { source, target }
            && resolution(cat, source@, target, unit) == Some((unit, x)),
    ensures
        walk_from(cat, vis, unit, x) == (vis.insert(pair_key(unit, x)), Seq::<DocView>::empty(), None::<WalkError>),
{
    let now = vis.insert(pair_key(unit, x));
    lemma_mark_shrinks(cat, vis, unit, x);
    assert(walk_from(cat, now, unit, x) == (now, Seq::<DocView>::empty(), None::<WalkError>));
}

/// An id that the unit's table lacks is walked as the unit's root module.
pub proof fn law_root_fallback(cat: &Catalog, vis: Set<int>, unit: int, x: u32)
    requires
        cat.wf(),
        cat.present(unit),
        vis.finite(),
        !vis.contains(pair_key(unit, x)),
        !cat.table(unit).entries().contains_key(x),
    ensures
        cat.table(unit).record(x) == cat.table(unit).entries()[cat.table(unit).root_id()],
        cat.table(unit).record(x).kind matches SymbolKind::Module(ids) ==> walk_from(cat, vis, unit, x)
            == walk_each(cat, vis.insert(pair_key(unit, x)), unit, ids@, 0),
{
}

/// A re-export whose path starts at the current unit continues, in that unit,
/// at its pre-resolved target.
pub proof fn law_same_unit_reexport(cat: &Catalog, vis: Set<int>, unit: int, id: u32, y: u32)
    requires
        cat.wf(),
        cat.present(unit),
        vis.finite(),
        !vis.contains(pair_key(unit, id)),
        cat.table(unit).record(id).kind matches SymbolKind::Use { source, target }
            && names_current_unit(first_segment(source@)) && target == Some(y),
    ensures
        walk_from(cat, vis, unit, id) == walk_from(cat, vis.insert(pair_key(unit, id)), unit, y),
{
}

/// A re-export whose first path segment names a loaded unit continues in that
/// unit at the root sentinel, which a table without that id walks as its root module.
pub proof fn law_cross_unit_reexport(cat: &Catalog, vis: Set<int>, unit: int, id: u32, dep: int)
    requires
        cat.wf(),
        cat.present(unit),
        vis.finite(),
        !vis.contains(pair_key(unit, id)),
        cat.table(unit).record(id).kind matches SymbolKind::Use { source, target }
            && !names_current_unit(first_segment(source@))
            && cat.unit_named(first_segment(source@)) == Some(dep),
    ensures
        cat.present(dep),
        walk_from(cat, vis, unit, id) == walk_from(cat, vis.insert(pair_key(unit, id)), dep, ROOT_SENTINEL),
        !cat.table(dep).entries().contains_key(ROOT_SENTINEL) ==> cat.table(dep).record(ROOT_SENTINEL)
            == cat.table(dep).entries()[cat.table(dep).root_id()],
{
    lemma_unit_named_is_present(cat, first_segment(cat.table(unit).record(id).kind->Use_source@), 0);
}

/// An enum with two variants marks itself and both variants visited and yields no document.
pub proof fn law_enum_yields_nothing(cat: &Catalog, vis: Set<int>, unit: int, e: u32)
    requires
        cat.wf(),
        cat.present(unit),
        vis.finite(),
        !vis.contains(pair_key(unit, e)),
        cat.table(unit).record(e).kind matches SymbolKind::Enum(ids) && ids@.len() == 2
            && forall|i: int| 0 <= i < 2 ==> cat.table(unit).entries().contains_key(#[trigger] ids@[i])
                && cat.table(unit).entries()[ids@[i]].kind is Variant,
    ensures
        ({
            let ids = cat.table(unit).record(e).kind->Enum_0@;
            walk_from(cat, vis, unit, e) == (
                vis.insert(pair_key(unit, e)).insert(pair_key(unit, ids[0])).insert(pair_key(unit, ids[1])),
                Seq::<DocView>::empty(),
                None::<WalkError>,
            )
        }),
{
    let ids = cat.table(unit).record(e).kind->Enum_0@;
    let v0 = vis.insert(pair_key(unit, e));
    lemma_mark_shrinks(cat, vis, unit, e);
    lemma_unvisited_bounds(cat, v0);
    let v1 = v0.insert(pair_key(unit, ids[0]));
    assert(cat.table(unit).record(ids[0]).kind is Variant);
    assert(cat.table(unit).record(ids[1]).kind is Variant);
    lemma_walk_grows(cat, v0, unit, ids[0]);
    assert(walk_from(cat, v0, unit, ids[0]) == (v1, Seq::<DocView>::empty(), None::<WalkError>));
    lemma_growth_shrinks(cat, v0, v1);
    lemma_unvisited_bounds(cat, v1);
    let v2 = v1.insert(pair_key(unit, ids[1]));
    assert(walk_from(cat, v1, unit, ids[1]) == (v2, Seq::<DocView>::empty(), None::<WalkError>));
    lemma_walk_grows(cat, v1, unit, ids[1]);
    lemma_growth_shrinks(cat, v1, v2);
    assert(walk_each(cat, v2, unit, ids, 2) == (v2, Seq::<DocView>::empty(), None::<WalkError>));
    assert(walk_each(cat, v1, unit, ids, 1).1 =~= Seq::<DocView>::empty());
    assert(walk_each(cat, v0, unit, ids, 0).1 =~= Seq::<DocView>::empty());
}

/// A symbol of an unsupported kind stops the walk with an error, and a failed
/// walk of one child stops the walk of its siblings too.
pub proof fn law_unsupported_aborts(cat: &Catalog, vis: Set<int>, unit: int, ids: Seq<u32>, from: int)
    requires
        cat.wf(),
        cat.present(unit),
        vis.finite(),
        0 <= from < ids.len(),
    ensures
        !vis.contains(pair_key(unit, ids[from])) && cat.table(unit).record(ids[from]).kind.is_unsupported()
            ==> walk_from(cat, vis, unit, ids[from]).2 == Some(WalkError::Unsupported { unit: unit as usize, id: ids[from] }),
        walk_from(cat, vis, unit, ids[from]).2 is Some ==> walk_each(cat, vis, unit, ids, from) == walk_from(cat, vis, unit, ids[from]),
{
    lemma_unvisited_bounds(cat, vis);
}

} // verus!
