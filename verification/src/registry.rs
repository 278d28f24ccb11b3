//! The registry: the types registered so far, and the errors met while
//! registering them.

use crate::model::{RegistrationError, TypeDescriptor, TypeIdentifier};
use std::collections::BTreeMap;
use vstd::prelude::*;
use vstd::std_specs::cmp::OrdSpec;
use vstd::std_specs::iter::IteratorSpec;

verus! {

/// Whether a sequence of errors is in canonical order: strictly ascending, so
/// that no error occurs twice.
pub open spec fn errors_in_order(s: Seq<RegistrationError>) -> bool {
    forall|i: int, j: int| 0 <= i < j < s.len() ==> s[i].before(s[j])
}

/// Whether `s` holds an error that says the same as `e`.
pub open spec fn holds_error(s: Seq<RegistrationError>, e: RegistrationError) -> bool {
    exists|i: int| 0 <= i < s.len() && s[i].same(e)
}

/// Whether `slots` lists the entries of `types` by ascending identifier.
pub open spec fn slots_of(
    types: Map<TypeIdentifier, Option<TypeDescriptor>>,
    slots: Seq<(TypeIdentifier, &Option<TypeDescriptor>)>,
) -> bool {
    &&& forall|i: int, j: int| 0 <= i < j < slots.len() ==> slots[i].0 < slots[j].0
    &&& forall|i: int|
        0 <= i < slots.len() ==> types.contains_key(slots[i].0) && types[slots[i].0]
            == *slots[i].1
    &&& forall|id: TypeIdentifier|
        types.contains_key(id) ==> exists|i: int| 0 <= i < slots.len() && slots[i].0 == id
}

/// A map from identifiers to descriptors, some of them still placeholders,
/// and a set of registration errors. Entries are added and overwritten, never
/// removed.
#[derive(Debug)]
pub struct Registry {
    types: BTreeMap<TypeIdentifier, Option<TypeDescriptor>>,
    errors: Vec<RegistrationError>,
}

impl Clone for Registry {
    /// A snapshot of the registry.
    fn clone(&self) -> (r: Self)
        ensures
            r.wf(),
            r.types() == self.types(),
            r.errors() == self.errors(),
    {
        proof {
            use_type_invariant(self);
        }
        let mut errors: Vec<RegistrationError> = Vec::new();
        let mut i: usize = 0;
        while i < self.errors.len()
            invariant
                i <= self.errors.len(),
                errors@ == self.errors@.take(i as int),
            decreases self.errors.len() - i,
        {
            errors.push(self.errors[i].clone());
            assert(self.errors@.take(i + 1) =~= self.errors@.take(i as int).push(
                self.errors@[i as int],
            ));
            i += 1;
        }
        assert(self.errors@.take(i as int) =~= self.errors@);
        Registry { types: self.types.clone(), errors }
    }
}

impl Default for Registry {
    fn default() -> (r: Self)
        ensures
            r.wf(),
            r.types() == Map::<TypeIdentifier, Option<TypeDescriptor>>::empty(),
            r.errors() == Seq::<RegistrationError>::empty(),
    {
        Registry::new()
    }
}

impl Registry {
    /// The invariant of a registry: its errors are kept in canonical order.
    #[verifier::type_invariant]
    pub closed spec fn wf(&self) -> bool {
        errors_in_order(self.errors@)
    }

    /// The registered types: a placeholder is `None`.
    pub closed spec fn types(&self) -> Map<TypeIdentifier, Option<TypeDescriptor>> {
        self.types@
    }

    /// The recorded errors, in canonical order.
    pub closed spec fn errors(&self) -> Seq<RegistrationError> {
        self.errors@
    }

    /// Whether no registered type is still a placeholder.
    pub open spec fn resolved(&self) -> bool {
        forall|id: TypeIdentifier| self.types().contains_key(id) ==> self.types()[id] is Some
    }

    /// An empty registry.
    pub fn new() -> (r: Self)
        ensures
            r.wf(),
            r.types() == Map::<TypeIdentifier, Option<TypeDescriptor>>::empty(),
            r.errors() == Seq::<RegistrationError>::empty(),
    {
        Registry { types: BTreeMap::new(), errors: Vec::new() }
    }

    /// Whether the registry holds an error that says the same as `e`.
    pub open spec fn holds(&self, e: RegistrationError) -> bool {
        holds_error(self.errors(), e)
    }

    /// Registers a type, or a placeholder for it, under `id`. What was
    /// registered under `id` before is replaced.
    pub fn register(&mut self, id: TypeIdentifier, slot: Option<TypeDescriptor>)
        ensures
            final(self).wf(),
            final(self).types() == old(self).types().insert(id, slot),
            final(self).errors() == old(self).errors(),
    {
        proof {
            use_type_invariant(&*self);
        }
        let mut types = BTreeMap::new();
        std::mem::swap(&mut self.types, &mut types);
        types.insert(id, slot);
        self.types = types;
    }

    /// Records an error. An error that says the same as one already recorded
    /// changes nothing; a new one takes its place in the canonical order.
    pub fn record_error(&mut self, error: RegistrationError)
        ensures
            final(self).wf(),
            final(self).types() == old(self).types(),
            errors_in_order(final(self).errors()),
            old(self).holds(error) ==> final(self).errors() == old(self).errors(),
            !old(self).holds(error) ==> exists|p: int|
                0 <= p <= old(self).errors().len() && final(self).errors() == old(
                    self,
                ).errors().insert(p, error),
    {
        proof {
            use_type_invariant(&*self);
        }
        let ghost before = self.errors@;
        let mut i: usize = 0;
        while i < self.errors.len() && self.errors[i].precedes(&error)
            invariant
                i <= self.errors.len(),
                self.errors@ == before,
                self.types@ == old(self).types@,
                errors_in_order(before),
                forall|j: int| 0 <= j < i ==> before[j].before(error),
            decreases self.errors.len() - i,
        {
            i += 1;
        }
        proof {
            assert forall|j: int| 0 <= j < i implies !before[j].same(error) by {
                if before[j].same(error) {
                    RegistrationError::lemma_before_irreflexive(before[j], error);
                }
            }
        }
        if i < self.errors.len() && !error.precedes(&self.errors[i]) {
            proof {
                RegistrationError::lemma_before_total(before[i as int], error);
            }
            return ;
        }
        proof {
            assert forall|j: int| i <= j < before.len() implies error.before(before[j]) by {
                if i < j {
                    RegistrationError::lemma_before_transitive(error, before[i as int], before[j]);
                }
            }
            assert forall|j: int| i <= j < before.len() implies !before[j].same(error) by {
                if before[j].same(error) {
                    RegistrationError::lemma_before_irreflexive(error, before[j]);
                }
            }
            assert(!holds_error(before, error));
        }
        let mut errors = Vec::new();
        std::mem::swap(&mut self.errors, &mut errors);
        errors.insert(i, error);
        proof {
            let after = before.insert(i as int, error);
            assert(errors@ == after);
            assert forall|a: int, b: int| 0 <= a < b < after.len() implies after[a].before(
                after[b],
            ) by {
                if a < i && i < b {
                    assert(before[a].before(before[b - 1]));
                }
            }
        }
        self.errors = errors;
    }

    /// The error that an export reports: the first in canonical order.
    pub fn first_error(&self) -> (r: Option<&RegistrationError>)
        ensures
            match r {
                Some(e) => self.errors().len() > 0 && *e == self.errors()[0],
                None => self.errors().len() == 0,
            },
    {
        if self.errors.len() > 0 {
            Some(&self.errors[0])
        } else {
            None
        }
    }

    /// The recorded errors, in canonical order.
    pub fn recorded_errors(&self) -> (r: &Vec<RegistrationError>)
        ensures
            r@ == self.errors(),
    {
        &self.errors
    }

    /// The registered entries by ascending identifier.
    pub fn slots(&self) -> (out: Vec<(TypeIdentifier, &Option<TypeDescriptor>)>)
        ensures
            slots_of(self.types(), out@),
    {
        let mut out: Vec<(TypeIdentifier, &Option<TypeDescriptor>)> = Vec::new();
        let ghost all = self.types.iter().remaining();
        let ghost keys = all.map_values(|kv: (&TypeIdentifier, &Option<TypeDescriptor>)| *kv.0);
        for kv in it: self.types.iter()
            invariant
                it.seq() == all,
                out@.len() == it.index(),
                forall|i: int| 0 <= i < out@.len() ==> out@[i] == (*all[i].0, all[i].1),
        {
            out.push((*kv.0, kv.1));
        }
        proof {
            assert(vstd::laws_cmp::obeys_cmp::<TypeIdentifier>());
            assert(vstd::std_specs::btree::increasing_seq(keys));
            assert forall|i: int, j: int| 0 <= i < j < out@.len() implies out@[i].0
                < out@[j].0 by {
                assert(keys[i].cmp_spec(&keys[j]) is Less);
            }
            assert forall|i: int| 0 <= i < out@.len() implies self.types@.contains_key(out@[i].0)
                && self.types@[out@[i].0] == *out@[i].1 by {
                assert(self.types@.contains_key(*all[i].0));
            }
            assert forall|id: TypeIdentifier| self.types@.contains_key(id) implies exists|i: int|
                0 <= i < out@.len() && out@[i].0 == id by {
                let pair = (&id, &self.types@[id]);
                assert(all.contains(pair));
                let i = choose|i: int| 0 <= i < all.len() && all[i] == pair;
                assert(out@[i].0 == id);
            }
        }
        out
    }

    /// Whether no registered type is still a placeholder.
    pub fn is_resolved(&self) -> (r: bool)
        ensures
            r == self.resolved(),
    {
        let slots = self.slots();
        let mut i: usize = 0;
        while i < slots.len()
            invariant
                i <= slots.len(),
                slots_of(self.types(), slots@),
                forall|j: int| 0 <= j < i ==> slots@[j].1 is Some,
            decreases slots.len() - i,
        {
            if slots[i].1.is_none() {
                assert(self.types().contains_key(slots@[i as int].0));
                return false;
            }
            i += 1;
        }
        true
    }

    /// The first error in canonical order sorts before every other.
    pub proof fn lemma_first_error_is_least(self, i: int)
        requires
            self.wf(),
            0 < i < self.errors().len(),
        ensures
            self.errors()[0].before(self.errors()[i]),
    {
    }

    /// The errors of a registry are in canonical order.
    pub proof fn lemma_errors_in_order(self)
        requires
            self.wf(),
        ensures
            errors_in_order(self.errors()),
    {
    }

    /// The canonical order leaves no choice: two registries that hold the
    /// same errors hold them in the same order.
    pub proof fn lemma_error_order_is_canonical(self, other: Self)
        requires
            self.wf(),
            other.wf(),
            forall|i: int|
                0 <= i < self.errors().len() ==> holds_error(other.errors(), self.errors()[i]),
            forall|i: int|
                0 <= i < other.errors().len() ==> holds_error(self.errors(), other.errors()[i]),
        ensures
            self.errors().len() == other.errors().len(),
            forall|i: int| 0 <= i < self.errors().len() ==> self.errors()[i].same(other.errors()[i]),
    {
        lemma_ordered_errors_agree(self.errors(), other.errors());
    }
}

/// Two sequences in canonical order that hold the same errors are equal,
/// error for error.
pub proof fn lemma_ordered_errors_agree(a: Seq<RegistrationError>, b: Seq<RegistrationError>)
    requires
        errors_in_order(a),
        errors_in_order(b),
        forall|i: int| 0 <= i < a.len() ==> holds_error(b, a[i]),
        forall|i: int| 0 <= i < b.len() ==> holds_error(a, b[i]),
    ensures
        a.len() == b.len(),
        forall|i: int| 0 <= i < a.len() ==> a[i].same(b[i]),
    decreases a.len(),
{
    if a.len() == 0 {
        if b.len() > 0 {
            assert(holds_error(a, b[0]));
        }
    } else {
        // The last errors agree: each is the greatest of its sequence.
        let x = a.last();
        assert(holds_error(b, x));
        let p = choose|p: int| 0 <= p < b.len() && b[p].same(x);
        let y = b.last();
        assert(holds_error(a, y));
        let q = choose|q: int| 0 <= q < a.len() && a[q].same(y);
        if p < b.len() - 1 {
            // x sorts before y, and y is in a, so y sorts before or says x.
            assert(b[p].before(b[b.len() - 1]));
            if q < a.len() - 1 {
                assert(a[q].before(a[a.len() - 1]));
                assert(y.before(x));
                RegistrationError::lemma_before_transitive(b[p], y, x);
                RegistrationError::lemma_before_irreflexive(b[p], x);
            } else {
                RegistrationError::lemma_before_irreflexive(b[p], y);
            }
            assert(false);
        }
        let a0 = a.drop_last();
        let b0 = b.drop_last();
        assert forall|i: int| 0 <= i < a0.len() implies holds_error(b0, a0[i]) by {
            assert(holds_error(b, a[i]));
            let k = choose|k: int| 0 <= k < b.len() && b[k].same(a[i]);
            if k == b.len() - 1 {
                RegistrationError::lemma_before_irreflexive(a[i], x);
            }
            assert(b0[k].same(a0[i]));
        }
        assert forall|i: int| 0 <= i < b0.len() implies holds_error(a0, b0[i]) by {
            assert(holds_error(a, b[i]));
            let k = choose|k: int| 0 <= k < a.len() && a[k].same(b[i]);
            if k == a.len() - 1 {
                RegistrationError::lemma_before_irreflexive(b[i], y);
            }
            assert(a0[k].same(b0[i]));
        }
        lemma_ordered_errors_agree(a0, b0);
        assert forall|i: int| 0 <= i < a.len() implies a[i].same(b[i]) by {
            if i < a.len() - 1 {
                assert(a0[i].same(b0[i]));
            }
        }
    }
}

} // verus!
