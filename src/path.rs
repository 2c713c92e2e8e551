use crate::symbols::{Catalog, ROOT_SENTINEL};
use vstd::prelude::*;

verus! {

broadcast use vstd::string::to_string_from_display_ensures_for_str;

/// Where the first `::` at or after `from` starts, or the length where there is none.
pub open spec fn separator_from(s: Seq<char>, from: int) -> int
    decreases s.len() - from,
{
    if from < 0 || from + 1 >= s.len() {
        s.len() as int
    } else if s[from] == ':' && s[from + 1] == ':' {
        from
    } else {
        separator_from(s, from + 1)
    }
}

/// The text of a path before its first `::` separator (the whole path if it has none).
pub open spec fn first_segment(s: Seq<char>) -> Seq<char> {
    s.subrange(0, separator_from(s, 0))
}

/// The two path prefixes that name the unit in which a re-export is written.
pub open spec fn names_current_unit(segment: Seq<char>) -> bool {
    segment == "crate"@ || segment == "super"@
}

/// Where a re-export written in `unit` leads: the same unit at its pre-resolved
/// target when the path starts at the current unit; the root of the first unit
/// named like the path's first segment otherwise; the pre-resolved target again
/// when no unit has that name. None where the target is needed and missing.
pub open spec fn resolution(cat: &Catalog, path: Seq<char>, target: Option<u32>, unit: int) -> Option<(int, u32)> {
    let segment = first_segment(path);
    if !names_current_unit(segment) && cat.unit_named(segment) is Some {
        Some((cat.unit_named(segment)->Some_0, ROOT_SENTINEL))
    } else {
        match target {
            Some(id) => Some((unit, id)),
            None => None,
        }
    }
}

/// Relies on str::split: the first piece that splitting on "::" yields is the
/// text before the first occurrence of "::", or the whole string.
#[verifier::external_body]
fn split_first_segment(path: &str) -> (r: &str)
    ensures
        r@ == first_segment(path@),
{
    path.split("::").next().unwrap_or("")
}

/// Resolves a re-export written in `unit` to the (unit, symbol) pair the walk continues at.
pub fn resolve_use(source: &String, target: Option<u32>, unit: usize, catalog: &Catalog) -> (r: Option<(usize, u32)>)
    ensures
        match resolution(catalog, source@, target, unit as int) {
            Some((u, id)) => r == Some((u as usize, id)) && (u == unit || catalog.present(u)),
            None => r is None,
        },
{
    let segment = split_first_segment(source.as_str()).to_string();
    let crate_word = "crate".to_string();
    let super_word = "super".to_string();
    if segment != crate_word && segment != super_word {
        if let Some(dep) = catalog.find_unit_by_name(&segment) {
            proof {
                lemma_unit_named_is_present(catalog, segment@, 0);
            }
            return Some((dep, ROOT_SENTINEL));
        }
    }
    match target {
        Some(id) => Some((unit, id)),
        None => None,
    }
}

/// A slot found by name holds a unit of that name.
pub proof fn lemma_unit_named_is_present(cat: &Catalog, name: Seq<char>, from: int)
    ensures
        cat.unit_named_from(name, from) matches Some(u) ==> from <= u && cat.present(u)
            && cat.unit_name(u) == name,
    decreases cat.slots().len() - from,
{
    if 0 <= from < cat.slots().len() && !(cat.present(from) && cat.unit_name(from) == name) {
        lemma_unit_named_is_present(cat, name, from + 1);
    }
}

} // verus!
