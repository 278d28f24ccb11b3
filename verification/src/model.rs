//! The values that a registry holds and that an export reports.

use crate::text::{
    lemma_text_before_irreflexive, lemma_text_before_total, lemma_text_before_transitive,
    str_before, text_before,
};
use vstd::prelude::*;

verus! {

/// The key under which one type is registered. It is unique to the type and
/// stable within one run of the program.
pub type TypeIdentifier = u64;

/// Where in the source a type was declared. It serves diagnostics only.
#[derive(Debug, PartialEq, Eq)]
pub struct ImplLocation(pub String);

impl Clone for ImplLocation {
    fn clone(&self) -> (r: Self)
        ensures
            r == *self,
    {
        ImplLocation(self.0.clone())
    }
}

/// The resolved shape of one type, as far as the export needs it.
#[derive(Debug, PartialEq, Eq)]
pub struct TypeDescriptor {
    /// The name under which the type is declared in the output.
    pub name: String,
    /// Whether the type is exported: explicitly so, explicitly not, or as the
    /// configuration decides.
    pub export: Option<bool>,
    /// Where the type was declared.
    pub impl_location: ImplLocation,
}

impl Clone for TypeDescriptor {
    fn clone(&self) -> (r: Self)
        ensures
            r == *self,
    {
        TypeDescriptor {
            name: self.name.clone(),
            export: self.export,
            impl_location: self.impl_location.clone(),
        }
    }
}

impl TypeDescriptor {
    /// Whether the descriptor takes part in an export whose configuration
    /// includes undecided types exactly if `by_default` holds.
    pub open spec fn included(self, by_default: bool) -> bool {
        match self.export {
            Some(flag) => flag,
            None => by_default,
        }
    }

    /// Decides whether the descriptor takes part in an export.
    pub fn is_included(&self, by_default: bool) -> (r: bool)
        ensures
            r == self.included(by_default),
    {
        match self.export {
            Some(flag) => flag,
            None => by_default,
        }
    }
}

/// A descriptor together with the identifier it is registered under.
#[derive(Debug, PartialEq, Eq)]
pub struct ExportEntry {
    pub id: TypeIdentifier,
    pub descriptor: TypeDescriptor,
}

impl Clone for ExportEntry {
    fn clone(&self) -> (r: Self)
        ensures
            r == *self,
    {
        ExportEntry { id: self.id, descriptor: self.descriptor.clone() }
    }
}

/// A failure met while the registry was filled, such as a type whose shape
/// could not be resolved.
#[derive(Debug, PartialEq, Eq)]
pub struct RegistrationError {
    /// Where the offending type was declared.
    pub impl_location: ImplLocation,
    /// What went wrong.
    pub reason: String,
}

impl Clone for RegistrationError {
    fn clone(&self) -> (r: Self)
        ensures
            r == *self,
    {
        RegistrationError { impl_location: self.impl_location.clone(), reason: self.reason.clone() }
    }
}

impl RegistrationError {
    /// Whether two errors say the same thing of the same place.
    pub open spec fn same(self, other: Self) -> bool {
        &&& self.impl_location.0@ == other.impl_location.0@
        &&& self.reason@ == other.reason@
    }

    /// The canonical strict order of errors: by location, then by reason.
    pub open spec fn before(self, other: Self) -> bool {
        ||| text_before(self.impl_location.0@, other.impl_location.0@)
        ||| (self.impl_location.0@ == other.impl_location.0@ && text_before(
            self.reason@,
            other.reason@,
        ))
    }

    /// Decides whether this error sorts strictly before `other`.
    pub fn precedes(&self, other: &Self) -> (r: bool)
        ensures
            r == self.before(*other),
    {
        let mine = self.impl_location.0.as_str();
        let theirs = other.impl_location.0.as_str();
        if str_before(mine, theirs) {
            true
        } else if str_before(theirs, mine) {
            proof {
                if mine@ == theirs@ {
                    lemma_text_before_irreflexive(mine@);
                }
            }
            false
        } else {
            proof {
                lemma_text_before_total(mine@, theirs@);
            }
            str_before(self.reason.as_str(), other.reason.as_str())
        }
    }

    /// No error sorts before one that says the same.
    pub proof fn lemma_before_irreflexive(a: Self, b: Self)
        requires
            a.same(b),
        ensures
            !a.before(b),
    {
        lemma_text_before_irreflexive(a.impl_location.0@);
        lemma_text_before_irreflexive(a.reason@);
    }

    /// The order of errors is transitive.
    pub proof fn lemma_before_transitive(a: Self, b: Self, c: Self)
        requires
            a.before(b),
            b.before(c),
        ensures
            a.before(c),
    {
        let (la, lb, lc) = (a.impl_location.0@, b.impl_location.0@, c.impl_location.0@);
        if text_before(la, lb) && text_before(lb, lc) {
            lemma_text_before_transitive(la, lb, lc);
        } else if la == lb && lb == lc {
            lemma_text_before_transitive(a.reason@, b.reason@, c.reason@);
        }
    }

    /// Of two errors that differ, one sorts before the other.
    pub proof fn lemma_before_total(a: Self, b: Self)
        requires
            !a.before(b),
            !b.before(a),
        ensures
            a.same(b),
    {
        lemma_text_before_total(a.impl_location.0@, b.impl_location.0@);
        lemma_text_before_total(a.reason@, b.reason@);
    }
}

/// A failure of the per-type serializer. The export hands it on unchanged.
#[derive(Debug, PartialEq, Eq)]
pub struct SerializationError {
    pub message: String,
}

impl Clone for SerializationError {
    fn clone(&self) -> (r: Self)
        ensures
            r == *self,
    {
        SerializationError { message: self.message.clone() }
    }
}

/// Why an export produced no document.
#[derive(Clone, Debug, PartialEq, Eq)]
pub enum TsExportError {
    /// The registry held an error from the time it was filled.
    Registration(RegistrationError),
    /// Two types with different identifiers claim one declared name. The
    /// fields are the name, the location of the type met later in identifier
    /// order, and the location of the type met before it.
    DuplicateTypeName(String, ImplLocation, ImplLocation),
    /// The serializer failed on one of the types.
    Serialization(SerializationError),
}

/// The options of an export.
#[derive(Clone, Copy, Debug, PartialEq, Eq)]
pub struct ExportConfiguration {
    /// Whether a type that does not say so itself is exported.
    pub export_by_default: bool,
}

impl Default for ExportConfiguration {
    fn default() -> (r: Self)
        ensures
            r.export_by_default,
    {
        ExportConfiguration { export_by_default: true }
    }
}

} // verus!
