//! The guard against two types that claim one declared name.

use crate::model::{ExportEntry, TsExportError, TypeDescriptor, TypeIdentifier};
use crate::selection::{ascending, covers, lemma_selection, selected, selection};
use vstd::prelude::*;

verus! {

/// Whether entries `i` and `j` declare the same name.
pub open spec fn same_name(s: Seq<ExportEntry>, i: int, j: int) -> bool {
    s[i].descriptor.name@ == s[j].descriptor.name@
}

/// The latest of the first `below` entries that declares the name of entry
/// `i`, if there is one.
pub open spec fn namesake_below(s: Seq<ExportEntry>, i: int, below: int) -> Option<int>
    decreases below,
{
    if below <= 0 {
        None
    } else if same_name(s, below - 1, i) {
        Some(below - 1)
    } else {
        namesake_below(s, i, below - 1)
    }
}

/// The entry that entry `i` clashes with: the latest earlier entry of the
/// same name, unless it stands under the same identifier.
pub open spec fn clash_at(s: Seq<ExportEntry>, i: int) -> Option<int> {
    match namesake_below(s, i, i) {
        Some(j) => if s[j].id != s[i].id {
            Some(j)
        } else {
            None
        },
        None => None,
    }
}

/// The first entry from `from` on that clashes with an earlier one, and that
/// earlier one.
pub open spec fn first_clash_from(s: Seq<ExportEntry>, from: int) -> Option<(int, int)>
    decreases s.len() - from,
{
    if from < 0 || from >= s.len() {
        None
    } else {
        match clash_at(s, from) {
            Some(j) => Some((from, j)),
            None => first_clash_from(s, from + 1),
        }
    }
}

/// The first entry that clashes with an earlier one, and that earlier one.
pub open spec fn first_clash(s: Seq<ExportEntry>) -> Option<(int, int)> {
    first_clash_from(s, 0)
}

/// What the check of the names says: the first clash, reported with the
/// name, the location of the later entry and the location of the earlier.
pub open spec fn name_check(s: Seq<ExportEntry>) -> Result<(), TsExportError> {
    match first_clash(s) {
        Some((i, j)) => Err(
            TsExportError::DuplicateTypeName(
                s[i].descriptor.name,
                s[i].descriptor.impl_location,
                s[j].descriptor.impl_location,
            ),
        ),
        None => Ok(()),
    }
}

/// A namesake is an earlier entry of the same name, and the latest such;
/// where there is none, no earlier entry has the name.
pub proof fn lemma_namesake_below(s: Seq<ExportEntry>, i: int, below: int)
    ensures
        match namesake_below(s, i, below) {
            Some(j) => 0 <= j < below && same_name(s, j, i) && forall|k: int|
                j < k < below ==> !same_name(s, k, i),
            None => forall|k: int| 0 <= k < below ==> !same_name(s, k, i),
        },
    decreases below,
{
    if below > 0 && !same_name(s, below - 1, i) {
        lemma_namesake_below(s, i, below - 1);
    }
}

/// The first clash is a clash, and no entry between `from` and it clashes.
pub proof fn lemma_first_clash_from(s: Seq<ExportEntry>, from: int)
    requires
        0 <= from,
    ensures
        match first_clash_from(s, from) {
            Some((i, j)) => from <= i < s.len() && clash_at(s, i) == Some(j) && forall|k: int|
                from <= k < i ==> clash_at(s, k) is None,
            None => forall|k: int| from <= k < s.len() ==> clash_at(s, k) is None,
        },
    decreases s.len() - from,
{
    if from < s.len() && clash_at(s, from) is None {
        lemma_first_clash_from(s, from + 1);
    }
}

/// Among entries with ascending identifiers the check fails exactly if two
/// of them declare the same name.
pub proof fn lemma_clash_iff_shared_name(s: Seq<ExportEntry>)
    requires
        ascending(s),
    ensures
        name_check(s) is Err <==> exists|a: int, b: int|
            0 <= a < b < s.len() && same_name(s, a, b),
{
    lemma_first_clash_from(s, 0);
    if first_clash(s) is Some {
        let (i, j) = first_clash(s)->0;
        lemma_namesake_below(s, i, i);
        assert(0 <= j < i < s.len() && same_name(s, j, i));
    } else {
        assert forall|a: int, b: int| 0 <= a < b < s.len() implies !same_name(s, a, b) by {
            lemma_namesake_below(s, b, b);
            assert(clash_at(s, b) is None);
            if same_name(s, a, b) {
                let j = namesake_below(s, b, b)->0;
                assert(s[j].id < s[b].id);
            }
        }
    }
}

/// A failed check reports a name that two entries declare, with the location
/// of the later one first.
pub proof fn lemma_clash_report(s: Seq<ExportEntry>)
    requires
        name_check(s) is Err,
    ensures
        exists|i: int, j: int|
            0 <= j < i < s.len() && same_name(s, j, i) && s[j].id != s[i].id && name_check(s)
                == Err::<(), TsExportError>(
                TsExportError::DuplicateTypeName(
                    s[i].descriptor.name,
                    s[i].descriptor.impl_location,
                    s[j].descriptor.impl_location,
                ),
            ),
{
    lemma_first_clash_from(s, 0);
    let (i, j) = first_clash(s)->0;
    lemma_namesake_below(s, i, i);
    assert(0 <= j < i < s.len() && same_name(s, j, i) && s[j].id != s[i].id);
}

/// Two identifiers whose exported descriptors declare one name make the
/// check of the selection fail.
pub proof fn lemma_shared_name_fails(
    types: Map<TypeIdentifier, Option<TypeDescriptor>>,
    by_default: bool,
    a: TypeIdentifier,
    b: TypeIdentifier,
)
    requires
        a != b,
        selected(types, by_default, a),
        selected(types, by_default, b),
        types[a]->0.name@ == types[b]->0.name@,
    ensures
        name_check(selection(types, by_default)) is Err,
{
    let s = selection(types, by_default);
    lemma_selection(types, by_default);
    assert(covers(s, a));
    assert(covers(s, b));
    let i = choose|i: int| 0 <= i < s.len() && s[i].id == a;
    let j = choose|j: int| 0 <= j < s.len() && s[j].id == b;
    assert(types[s[i].id] == Some(s[i].descriptor));
    assert(types[s[j].id] == Some(s[j].descriptor));
    lemma_clash_iff_shared_name(s);
    if i < j {
        assert(same_name(s, i, j));
    } else {
        assert(same_name(s, j, i));
    }
}

/// Where no two exported descriptors declare one name, the check of the
/// selection passes.
pub proof fn lemma_distinct_names_pass(
    types: Map<TypeIdentifier, Option<TypeDescriptor>>,
    by_default: bool,
)
    requires
        forall|a: TypeIdentifier, b: TypeIdentifier|
            a != b && selected(types, by_default, a) && selected(types, by_default, b)
                ==> types[a]->0.name@ != types[b]->0.name@,
    ensures
        name_check(selection(types, by_default)) is Ok,
{
    let s = selection(types, by_default);
    lemma_selection(types, by_default);
    lemma_clash_iff_shared_name(s);
    assert forall|i: int, j: int| 0 <= i < j < s.len() implies !same_name(s, i, j) by {
        assert(types[s[i].id] == Some(s[i].descriptor));
        assert(types[s[j].id] == Some(s[j].descriptor));
        assert(s[i].id != s[j].id);
    }
}

/// Entries that all stand under one identifier never clash, whatever they
/// declare.
pub proof fn lemma_one_identifier_never_clashes(s: Seq<ExportEntry>)
    requires
        forall|i: int, j: int| 0 <= i < s.len() && 0 <= j < s.len() ==> s[i].id == s[j].id,
    ensures
        name_check(s) is Ok,
{
    lemma_first_clash_from(s, 0);
    if first_clash(s) is Some {
        let (i, j) = first_clash(s)->0;
        lemma_namesake_below(s, i, i);
    }
}

/// Registering a type once more under its identifier leaves the registered
/// types as they were, and a type registered twice under one identifier does
/// not clash with itself.
pub proof fn lemma_reregistration_is_no_clash(
    types: Map<TypeIdentifier, Option<TypeDescriptor>>,
    by_default: bool,
    id: TypeIdentifier,
    descriptor: TypeDescriptor,
)
    ensures
        types.insert(id, Some(descriptor)).insert(id, Some(descriptor)) == types.insert(
            id,
            Some(descriptor),
        ),
        name_check(
            selection(
                Map::<TypeIdentifier, Option<TypeDescriptor>>::empty().insert(
                    id,
                    Some(descriptor),
                ).insert(id, Some(descriptor)),
                by_default,
            ),
        ) is Ok,
{
    assert(types.insert(id, Some(descriptor)).insert(id, Some(descriptor)) =~= types.insert(
        id,
        Some(descriptor),
    ));
    let twice = Map::<TypeIdentifier, Option<TypeDescriptor>>::empty().insert(
        id,
        Some(descriptor),
    ).insert(id, Some(descriptor));
    lemma_distinct_names_pass(twice, by_default);
}

/// Finds the latest entry before `i` that declares the name of entry `i`.
fn latest_namesake(entries: &Vec<ExportEntry>, i: usize) -> (r: Option<usize>)
    requires
        i < entries.len(),
    ensures
        match r {
            Some(j) => j < i && namesake_below(entries@, i as int, i as int) == Some(j as int),
            None => namesake_below(entries@, i as int, i as int) is None,
        },
{
    let mut j: usize = i;
    while j > 0
        invariant
            j <= i < entries.len(),
            namesake_below(entries@, i as int, i as int) == namesake_below(
                entries@,
                i as int,
                j as int,
            ),
        decreases j,
    {
        if entries[j - 1].descriptor.name == entries[i].descriptor.name {
            return Some(j - 1);
        }
        j -= 1;
    }
    None
}

/// Checks that no two entries with different identifiers declare one name.
/// The entries are read in the order given; the first that clashes with an
/// earlier one is reported.
pub fn detect_duplicate_type_names(entries: &Vec<ExportEntry>) -> (r: Result<(), TsExportError>)
    ensures
        r == name_check(entries@),
{
    let mut i: usize = 0;
    while i < entries.len()
        invariant
            i <= entries.len(),
            first_clash(entries@) == first_clash_from(entries@, i as int),
        decreases entries.len() - i,
    {
        match latest_namesake(entries, i) {
            Some(j) => {
                if entries[j].id != entries[i].id {
                    return Err(
                        TsExportError::DuplicateTypeName(
                            entries[i].descriptor.name.clone(),
                            entries[i].descriptor.impl_location.clone(),
                            entries[j].descriptor.impl_location.clone(),
                        ),
                    );
                }
            },
            None => {},
        }
        i += 1;
    }
    Ok(())
}

} // verus!
