//! The export: from a registry to one document of declarations.

use crate::model::{
    ExportConfiguration, ExportEntry, RegistrationError, SerializationError, TsExportError,
    TypeDescriptor, TypeIdentifier,
};
use crate::names::{detect_duplicate_type_names, lemma_shared_name_fails, name_check};
use crate::registry::{holds_error, Registry};
use crate::selection::{select_exported, selected, selection};
use vstd::prelude::*;
use vstd::string::StringExecFns;

verus! {

/// The comment that opens every document, with the blank line after it.
pub const HEADER: &'static str = "// This file has been generated by Specta. DO NOT EDIT.\n\n";

/// The blank line that closes every declaration.
pub const SEPARATOR: &'static str = "\n\n";

/// What an export is to cover, or why it cannot be made: a registration
/// error comes before everything else and the first in canonical order is
/// reported; otherwise the selection is checked for clashing names.
pub open spec fn export_plan(
    errors: Seq<RegistrationError>,
    types: Map<TypeIdentifier, Option<TypeDescriptor>>,
    by_default: bool,
) -> Result<Seq<ExportEntry>, TsExportError> {
    if errors.len() > 0 {
        Err(TsExportError::Registration(errors[0]))
    } else {
        match name_check(selection(types, by_default)) {
            Err(e) => Err(e),
            Ok(_) => Ok(selection(types, by_default)),
        }
    }
}

/// The document made of the serializer's answers, one for each entry in
/// turn: the header, then each declaration followed by a blank line. The
/// first failure among the answers is the outcome.
pub open spec fn assembled(answers: Seq<Result<String, SerializationError>>) -> Result<
    Seq<char>,
    TsExportError,
>
    decreases answers.len(),
{
    if answers.len() == 0 {
        Ok(HEADER@)
    } else {
        match assembled(answers.drop_last()) {
            Err(e) => Err(e),
            Ok(text) => match answers.last() {
                Ok(declaration) => Ok(text + declaration@ + SEPARATOR@),
                Err(e) => Err(TsExportError::Serialization(e)),
            },
        }
    }
}

/// Whether `text` is what `outcome` says.
pub open spec fn agrees(
    text: Result<String, TsExportError>,
    outcome: Result<Seq<char>, TsExportError>,
) -> bool {
    match outcome {
        Ok(expected) => text matches Ok(t) && t@ == expected,
        Err(e) => text == Err::<String, TsExportError>(e),
    }
}

/// Whether `answers` can be what `serialize` said when it was asked for the
/// entries in turn, up to and including its first failure.
pub open spec fn answered<
    F: Fn(&ExportConfiguration, &TypeDescriptor, &Vec<ExportEntry>) -> Result<
        String,
        SerializationError,
    >,
>(
    serialize: F,
    conf: &ExportConfiguration,
    entries: &Vec<ExportEntry>,
    answers: Seq<Result<String, SerializationError>>,
) -> bool {
    &&& answers.len() <= entries@.len()
    &&& forall|i: int|
        0 <= i < answers.len() ==> call_ensures(
            serialize,
            (conf, &entries@[i].descriptor, entries),
            #[trigger] answers[i],
        )
    &&& forall|i: int| 0 <= i < answers.len() - 1 ==> (#[trigger] answers[i]) is Ok
    &&& answers.len() == entries@.len() || (answers.len() > 0 && answers.last() is Err)
}

/// What an export comes to, given what the serializer answers for the
/// planned entries: the failure of the plan where it has one, else the
/// document assembled from the answers.
pub open spec fn export_outcome(
    errors: Seq<RegistrationError>,
    types: Map<TypeIdentifier, Option<TypeDescriptor>>,
    by_default: bool,
    answers: Seq<Result<String, SerializationError>>,
) -> Result<Seq<char>, TsExportError> {
    match export_plan(errors, types, by_default) {
        Err(e) => Err(e),
        Ok(_) => assembled(answers),
    }
}

/// Whether `answers` can be what `serialize` said in the course of an export
/// with the given plan. Where the plan has failed, it was not asked.
pub open spec fn consulted<
    F: Fn(&ExportConfiguration, &TypeDescriptor, &Vec<ExportEntry>) -> Result<
        String,
        SerializationError,
    >,
>(
    serialize: F,
    conf: &ExportConfiguration,
    plan: Result<Seq<ExportEntry>, TsExportError>,
    answers: Seq<Result<String, SerializationError>>,
) -> bool {
    match plan {
        Err(_) => answers.len() == 0,
        Ok(planned) => exists|entries: Vec<ExportEntry>|
            #![auto]
            entries@ == planned && answered(serialize, conf, &entries, answers),
    }
}

/// What an export returns: the outcome for some answers that `serialize`
/// can have given.
pub open spec fn exported<
    F: Fn(&ExportConfiguration, &TypeDescriptor, &Vec<ExportEntry>) -> Result<
        String,
        SerializationError,
    >,
>(
    serialize: F,
    registry: &Registry,
    conf: &ExportConfiguration,
    text: Result<String, TsExportError>,
) -> bool {
    exists|answers: Seq<Result<String, SerializationError>>|
        #![auto]
        consulted(
            serialize,
            conf,
            export_plan(registry.errors(), registry.types(), conf.export_by_default),
            answers,
        ) && agrees(
            text,
            export_outcome(
                registry.errors(),
                registry.types(),
                conf.export_by_default,
                answers,
            ),
        )
}

/// Whether two failures say the same.
pub open spec fn same_failure(x: TsExportError, y: TsExportError) -> bool {
    match (x, y) {
        (TsExportError::Registration(e), TsExportError::Registration(f)) => e.same(f),
        _ => x == y,
    }
}

/// An export is determined by what the registry holds, the configuration
/// and the serializer's answers: two registries that hold the same types and
/// the same errors come to the same document, or to failures that say the
/// same, in whatever order they were filled.
pub proof fn lemma_export_is_deterministic(
    a: Registry,
    b: Registry,
    by_default: bool,
    answers: Seq<Result<String, SerializationError>>,
)
    requires
        a.wf(),
        b.wf(),
        a.types() == b.types(),
        forall|i: int| 0 <= i < a.errors().len() ==> holds_error(b.errors(), a.errors()[i]),
        forall|i: int| 0 <= i < b.errors().len() ==> holds_error(a.errors(), b.errors()[i]),
    ensures
        match (
            export_outcome(a.errors(), a.types(), by_default, answers),
            export_outcome(b.errors(), b.types(), by_default, answers),
        ) {
            (Ok(s), Ok(t)) => s == t,
            (Err(x), Err(y)) => same_failure(x, y),
            _ => false,
        },
{
    a.lemma_error_order_is_canonical(b);
}

/// A registry without errors in which two identifiers stand for exported
/// descriptors of one name cannot be exported: the outcome is a duplicate
/// name, whatever the serializer would answer.
pub proof fn lemma_shared_name_fails_the_export(
    types: Map<TypeIdentifier, Option<TypeDescriptor>>,
    by_default: bool,
    a: TypeIdentifier,
    b: TypeIdentifier,
    answers: Seq<Result<String, SerializationError>>,
)
    requires
        a != b,
        selected(types, by_default, a),
        selected(types, by_default, b),
        types[a]->0.name@ == types[b]->0.name@,
    ensures
        export_outcome(Seq::empty(), types, by_default, answers) matches Err(
            TsExportError::DuplicateTypeName(_, _, _),
        ),
{
    lemma_shared_name_fails(types, by_default, a, b);
}

/// A registry that holds an error cannot be exported: the outcome is its
/// first error, whatever types it holds and whatever the serializer would
/// answer.
pub proof fn lemma_registration_error_fails_the_export(
    errors: Seq<RegistrationError>,
    types: Map<TypeIdentifier, Option<TypeDescriptor>>,
    by_default: bool,
    answers: Seq<Result<String, SerializationError>>,
)
    requires
        errors.len() > 0,
    ensures
        export_outcome(errors, types, by_default, answers) == Err::<Seq<char>, TsExportError>(
            TsExportError::Registration(errors[0]),
        ),
{
}

/// Validates the registry and lists what the export covers, by ascending
/// identifier.
pub fn plan_export(registry: &Registry, conf: &ExportConfiguration) -> (r: Result<
    Vec<ExportEntry>,
    TsExportError,
>)
    requires
        registry.errors().len() == 0 ==> registry.resolved(),
    ensures
        match export_plan(registry.errors(), registry.types(), conf.export_by_default) {
            Ok(plan) => r matches Ok(entries) && entries@ == plan,
            Err(e) => r matches Err(x) && x == e,
        },
{
    match registry.first_error() {
        Some(error) => {
            return Err(TsExportError::Registration(error.clone()));
        },
        None => {},
    }
    let entries = select_exported(registry, conf.export_by_default);
    match detect_duplicate_type_names(&entries) {
        Err(e) => Err(e),
        Ok(_) => Ok(entries),
    }
}

/// Makes the document of the serializer's answers. The first failure among
/// them is handed on instead.
pub fn assemble(answers: &Vec<Result<String, SerializationError>>) -> (r: Result<
    String,
    TsExportError,
>)
    ensures
        agrees(r, assembled(answers@)),
{
    let mut out = HEADER.to_owned();
    let mut i: usize = 0;
    assert(answers@.take(0) =~= Seq::empty());
    while i < answers.len()
        invariant
            i <= answers.len(),
            assembled(answers@.take(i as int)) == Ok::<Seq<char>, TsExportError>(out@),
        decreases answers.len() - i,
    {
        assert(answers@.take(i + 1).drop_last() =~= answers@.take(i as int));
        match &answers[i] {
            Ok(declaration) => {
                out.append(declaration.as_str());
                out.append(SEPARATOR);
            },
            Err(e) => {
                proof {
                    lemma_failure_stays(answers@, i + 1);
                }
                return Err(TsExportError::Serialization(e.clone()));
            },
        }
        i += 1;
    }
    assert(answers@.take(i as int) =~= answers@);
    Ok(out)
}

/// Once the answers up to some point have failed, the rest does not matter.
pub proof fn lemma_failure_stays(answers: Seq<Result<String, SerializationError>>, n: int)
    requires
        0 <= n <= answers.len(),
        assembled(answers.take(n)) is Err,
    ensures
        assembled(answers) == assembled(answers.take(n)),
    decreases answers.len(),
{
    if n < answers.len() {
        assert(answers.drop_last().take(n) =~= answers.take(n));
        lemma_failure_stays(answers.drop_last(), n);
    } else {
        assert(answers.take(n) =~= answers);
    }
}

/// Exports the registered types as one document, under the given
/// configuration. `serialize` is asked for the declaration of each exported
/// type in turn, by ascending identifier, and is given all of them to refer
/// to.
pub fn ts_with_cfg<F>(registry: &Registry, conf: &ExportConfiguration, serialize: F) -> (r: Result<
    String,
    TsExportError,
>) where
    F: Fn(&ExportConfiguration, &TypeDescriptor, &Vec<ExportEntry>) -> Result<
        String,
        SerializationError,
    >,

    requires
        registry.errors().len() == 0 ==> registry.resolved(),
        forall|d: &TypeDescriptor, all: &Vec<ExportEntry>|
            call_requires(serialize, (conf, d, all)),
    ensures
        exported(serialize, registry, conf, r),
        registry.errors().len() > 0 ==> r == Err::<String, TsExportError>(
            TsExportError::Registration(registry.errors()[0]),
        ),
        export_plan(registry.errors(), registry.types(), conf.export_by_default) == Ok::<
            Seq<ExportEntry>,
            TsExportError,
        >(Seq::empty()) ==> (r matches Ok(text) && text@ == HEADER@),
{
    let entries = match plan_export(registry, conf) {
        Err(e) => {
            proof {
                let none = Seq::<Result<String, SerializationError>>::empty();
                assert(consulted(
                    serialize,
                    conf,
                    export_plan(registry.errors(), registry.types(), conf.export_by_default),
                    none,
                ));
            }
            return Err(e);
        },
        Ok(entries) => entries,
    };
    let mut answers: Vec<Result<String, SerializationError>> = Vec::new();
    let mut failed = false;
    let mut i: usize = 0;
    while i < entries.len() && !failed
        invariant
            i <= entries.len(),
            forall|d: &TypeDescriptor, all: &Vec<ExportEntry>|
                call_requires(serialize, (conf, d, all)),
            answers@.len() == i,
            forall|j: int|
                0 <= j < i ==> call_ensures(
                    serialize,
                    (conf, &entries@[j].descriptor, &entries),
                    #[trigger] answers@[j],
                ),
            forall|j: int| 0 <= j < i - 1 ==> (#[trigger] answers@[j]) is Ok,
            failed <==> (i > 0 && answers@[i - 1] is Err),
        decreases entries.len() - i,
    {
        let answer = serialize(conf, &entries[i].descriptor, &entries);
        failed = answer.is_err();
        answers.push(answer);
        i += 1;
    }
    let r = assemble(&answers);
    proof {
        assert(answered(serialize, conf, &entries, answers@));
        assert(consulted(
            serialize,
            conf,
            export_plan(registry.errors(), registry.types(), conf.export_by_default),
            answers@,
        ));
    }
    r
}

/// Exports the registered types as one document, under the default
/// configuration.
pub fn ts<F>(registry: &Registry, serialize: F) -> (r: Result<String, TsExportError>) where
    F: Fn(&ExportConfiguration, &TypeDescriptor, &Vec<ExportEntry>) -> Result<
        String,
        SerializationError,
    >,

    requires
        registry.errors().len() == 0 ==> registry.resolved(),
        forall|c: &ExportConfiguration, d: &TypeDescriptor, all: &Vec<ExportEntry>|
            call_requires(serialize, (c, d, all)),
    ensures
        exported(serialize, registry, &(ExportConfiguration { export_by_default: true }), r),
        registry.errors().len() > 0 ==> r == Err::<String, TsExportError>(
            TsExportError::Registration(registry.errors()[0]),
        ),
        export_plan(registry.errors(), registry.types(), true) == Ok::<
            Seq<ExportEntry>,
            TsExportError,
        >(Seq::empty()) ==> (r matches Ok(text) && text@ == HEADER@),
{
    let conf = ExportConfiguration::default();
    ts_with_cfg(registry, &conf, serialize)
}

} // verus!
