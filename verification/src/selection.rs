//! Which registered types an export covers, and in which order.

use crate::model::{ExportEntry, TypeDescriptor, TypeIdentifier};
use crate::registry::{slots_of, Registry};
use vstd::prelude::*;

verus! {

/// The number of identifiers there are.
pub open spec fn identifier_count() -> nat {
    0x1_0000_0000_0000_0000
}

/// Whether `id` is registered with a resolved descriptor that takes part in
/// the export.
pub open spec fn selected(
    types: Map<TypeIdentifier, Option<TypeDescriptor>>,
    by_default: bool,
    id: TypeIdentifier,
) -> bool {
    types.contains_key(id) && (types[id] matches Some(d) && d.included(by_default))
}

/// The selected entries whose identifier is below `bound`, by ascending
/// identifier.
pub open spec fn selection_below(
    types: Map<TypeIdentifier, Option<TypeDescriptor>>,
    by_default: bool,
    bound: nat,
) -> Seq<ExportEntry>
    decreases bound,
{
    if bound == 0 {
        Seq::empty()
    } else {
        let id = (bound - 1) as TypeIdentifier;
        let lower = selection_below(types, by_default, (bound - 1) as nat);
        if selected(types, by_default, id) {
            lower.push(ExportEntry { id, descriptor: types[id]->0 })
        } else {
            lower
        }
    }
}

/// What an export covers: the selected entries by ascending identifier.
pub open spec fn selection(
    types: Map<TypeIdentifier, Option<TypeDescriptor>>,
    by_default: bool,
) -> Seq<ExportEntry> {
    selection_below(types, by_default, identifier_count())
}

/// Whether the identifiers of `s` ascend strictly.
pub open spec fn ascending(s: Seq<ExportEntry>) -> bool {
    forall|i: int, j: int| 0 <= i < j < s.len() ==> s[i].id < s[j].id
}

/// Whether `s` holds an entry for `id`.
pub open spec fn covers(s: Seq<ExportEntry>, id: TypeIdentifier) -> bool {
    exists|i: int| 0 <= i < s.len() && s[i].id == id
}

/// The selection below a bound ascends, holds only selected entries below
/// the bound, each with the descriptor registered for it, and covers every
/// selected identifier below the bound.
pub proof fn lemma_selection_below(
    types: Map<TypeIdentifier, Option<TypeDescriptor>>,
    by_default: bool,
    bound: nat,
)
    requires
        bound <= identifier_count(),
    ensures
        ascending(selection_below(types, by_default, bound)),
        forall|i: int|
            0 <= i < selection_below(types, by_default, bound).len() ==> {
                let e = #[trigger] selection_below(types, by_default, bound)[i];
                &&& e.id < bound
                &&& selected(types, by_default, e.id)
                &&& types[e.id] == Some(e.descriptor)
            },
        forall|id: TypeIdentifier|
            id < bound && selected(types, by_default, id) ==> covers(
                selection_below(types, by_default, bound),
                id,
            ),
    decreases bound,
{
    if bound > 0 {
        let lower = selection_below(types, by_default, (bound - 1) as nat);
        let s = selection_below(types, by_default, bound);
        lemma_selection_below(types, by_default, (bound - 1) as nat);
        assert forall|id: TypeIdentifier|
            id < bound && selected(types, by_default, id) implies covers(s, id) by {
            if id < bound - 1 {
                assert(covers(lower, id));
                let i = choose|i: int| 0 <= i < lower.len() && lower[i].id == id;
                assert(s[i].id == id);
            } else {
                assert(s[s.len() - 1].id == id);
            }
        }
    }
}

/// Identifiers that are not selected leave no trace in the selection.
pub proof fn lemma_selection_skips(
    types: Map<TypeIdentifier, Option<TypeDescriptor>>,
    by_default: bool,
    low: nat,
    high: nat,
)
    requires
        low <= high <= identifier_count(),
        forall|id: TypeIdentifier| low <= id < high ==> !selected(types, by_default, id),
    ensures
        selection_below(types, by_default, high) == selection_below(types, by_default, low),
    decreases high,
{
    if low < high {
        lemma_selection_skips(types, by_default, low, (high - 1) as nat);
    }
}

/// The selection ascends, holds exactly the selected entries, and holds each
/// with the descriptor registered for it.
pub proof fn lemma_selection(types: Map<TypeIdentifier, Option<TypeDescriptor>>, by_default: bool)
    ensures
        ascending(selection(types, by_default)),
        forall|i: int|
            0 <= i < selection(types, by_default).len() ==> {
                let e = #[trigger] selection(types, by_default)[i];
                selected(types, by_default, e.id) && types[e.id] == Some(e.descriptor)
            },
        forall|id: TypeIdentifier|
            selected(types, by_default, id) <==> covers(selection(types, by_default), id),
{
    lemma_selection_below(types, by_default, identifier_count());
}

/// Where no identifier is selected, the selection is empty.
pub proof fn lemma_nothing_selected(
    types: Map<TypeIdentifier, Option<TypeDescriptor>>,
    by_default: bool,
)
    requires
        forall|id: TypeIdentifier| !selected(types, by_default, id),
    ensures
        selection(types, by_default) == Seq::<ExportEntry>::empty(),
{
    lemma_selection_skips(types, by_default, 0, identifier_count());
}

/// A type that says it is not exported is never covered; one that leaves the
/// choice open is covered exactly if the configuration exports by default;
/// one that says it is exported always is.
pub proof fn lemma_export_flag_decides(
    types: Map<TypeIdentifier, Option<TypeDescriptor>>,
    by_default: bool,
    id: TypeIdentifier,
    descriptor: TypeDescriptor,
)
    requires
        types.contains_key(id),
        types[id] == Some(descriptor),
    ensures
        descriptor.export == Some(false) ==> !covers(selection(types, by_default), id),
        descriptor.export == Some(true) ==> covers(selection(types, by_default), id),
        descriptor.export is None ==> (covers(selection(types, by_default), id) <==> by_default),
{
    lemma_selection(types, by_default);
    assert(selected(types, by_default, id) == descriptor.included(by_default));
    assert(selected(types, by_default, id) <==> covers(selection(types, by_default), id));
}

/// Lists what an export of `registry` covers.
pub fn select_exported(registry: &Registry, by_default: bool) -> (out: Vec<ExportEntry>)
    requires
        registry.resolved(),
    ensures
        out@ == selection(registry.types(), by_default),
{
    let slots = registry.slots();
    let ghost types = registry.types();
    let mut out: Vec<ExportEntry> = Vec::new();
    let mut i: usize = 0;
    let ghost mut done: nat = 0;
    while i < slots.len()
        invariant
            i <= slots.len(),
            types == registry.types(),
            registry.resolved(),
            slots_of(types, slots@),
            done <= identifier_count(),
            done == (if i == 0 {
                0
            } else {
                slots@[i - 1].0 + 1
            }),
            out@ == selection_below(types, by_default, done),
        decreases slots.len() - i,
    {
        let id = slots[i].0;
        proof {
            assert forall|k: TypeIdentifier| done <= k < id implies !selected(
                types,
                by_default,
                k,
            ) by {
                if types.contains_key(k) {
                    let j = choose|j: int| 0 <= j < slots@.len() && slots@[j].0 == k;
                    if j < i {
                        if j < i - 1 {
                            assert(slots@[j].0 < slots@[i - 1].0);
                        }
                    } else if j > i {
                        assert(slots@[i as int].0 < slots@[j].0);
                    }
                }
            }
            lemma_selection_skips(types, by_default, done, id as nat);
            assert(types.contains_key(slots@[i as int].0));
        }
        match slots[i].1 {
            Some(descriptor) => {
                if descriptor.is_included(by_default) {
                    out.push(ExportEntry { id, descriptor: descriptor.clone() });
                }
            },
            None => unreached(),
        }
        proof {
            done = (id + 1) as nat;
        }
        i += 1;
    }
    proof {
        assert forall|k: TypeIdentifier| done <= k < identifier_count() implies !selected(
            types,
            by_default,
            k,
        ) by {
            if types.contains_key(k) {
                let j = choose|j: int| 0 <= j < slots@.len() && slots@[j].0 == k;
                if j < i - 1 {
                    assert(slots@[j].0 < slots@[i - 1].0);
                }
            }
        }
        lemma_selection_skips(types, by_default, done, identifier_count());
    }
    out
}

} // verus!
