//! The stack manifest, and the rules that it is checked against before any
//! command runs.
use vstd::prelude::*;
use crate::exports::ExportItem;
use crate::text::{chars_of, push_str, string_of};

verus! {

/// A resource of a stack.
#[derive(Debug, Clone)]
pub struct Resource {
    pub name: String,
    /// The query file, where it is not `{name}.iql`.
    pub file: Option<String>,
    /// A condition under which the resource is processed.
    pub condition: Option<String>,
    pub exports: Vec<ExportItem>,
    /// Exports whose values are masked where they are logged.
    pub protected: Vec<String>,
    /// The script of a script resource.
    pub run: Option<String>,
    /// Inline SQL of a query or command resource.
    pub sql: Option<String>,
}

/// A stack manifest.
#[derive(Debug, Clone)]
pub struct Manifest {
    pub name: String,
    pub providers: Vec<String>,
    pub resources: Vec<Resource>,
    /// The variables that a stack exports to its output file.
    pub exports: Vec<String>,
}

/// The names of the resources of a manifest, in order.
pub open spec fn resource_names(m: &Manifest) -> Seq<Seq<char>> {
    m.resources@.map_values(|r: Resource| r.name@)
}

/// A single manifest validation failure.
#[derive(Debug, Clone)]
pub struct ValidationError {
    /// Short, machine-readable identifier for the rule that was violated.
    pub rule: &'static str,
    /// Human-readable explanation of what failed.
    pub detail: String,
}

pub open spec fn error_view(e: ValidationError) -> (Seq<char>, Seq<char>) {
    (e.rule@, e.detail@)
}

pub open spec fn errors_view(es: Seq<ValidationError>) -> Seq<(Seq<char>, Seq<char>)> {
    es.map_values(|e: ValidationError| error_view(e))
}

impl ValidationError {
    /// The error as it is shown: `[rule] detail`.
    pub fn to_string(&self) -> (s: String)
        ensures
            s@ == "["@ + self.rule@ + "] "@ + self.detail@,
    {
        let mut t = chars_of("[");
        push_str(&mut t, self.rule);
        push_str(&mut t, "] ");
        push_str(&mut t, self.detail.as_str());
        string_of(t.as_slice())
    }
}

/// The detail of a duplicate resource name.
pub open spec fn duplicate_detail(name: Seq<char>, stack: Seq<char>) -> Seq<char> {
    "resource name '"@ + name + "' appears more than once in stack '"@ + stack
        + "'; every resource name must be unique within a stack"@
}

/// One error for each resource whose name an earlier resource has.
pub open spec fn duplicate_name_errors(names: Seq<Seq<char>>, stack: Seq<char>) -> Seq<(Seq<char>, Seq<char>)>
    decreases names.len(),
{
    if names.len() == 0 {
        Seq::empty()
    } else {
        let rest = duplicate_name_errors(names.drop_last(), stack);
        if names.drop_last().contains(names.last()) {
            rest.push(("unique-resource-names"@, duplicate_detail(names.last(), stack)))
        } else {
            rest
        }
    }
}

/// All names of `names` are distinct.
pub open spec fn names_distinct(names: Seq<Seq<char>>) -> bool {
    forall|i: int, j: int| 0 <= i < j < names.len() ==> names[i] != names[j]
}

/// There are as many duplicate-name errors as resources beyond the
/// distinct names: the number of names less the number of distinct names.
pub proof fn law_duplicate_error_count(names: Seq<Seq<char>>, stack: Seq<char>)
    ensures
        duplicate_name_errors(names, stack).len() == names.len() - names.to_set().len(),
    decreases names.len(),
{
    if names.len() == 0 {
        assert(names.to_set() =~= Set::<Seq<char>>::empty());
    } else {
        let init = names.drop_last();
        law_duplicate_error_count(init, stack);
        assert(init.push(names.last()) =~= names);
        init.lemma_push_to_set_commute(names.last());
        vstd::seq_lib::seq_to_set_is_finite(init);
        vstd::set::axiom_set_insert_len(init.to_set(), names.last());
        assert(init.to_set().contains(names.last()) <==> init.contains(names.last())) by {
            if init.contains(names.last()) {
                let i = choose|i: int| 0 <= i < init.len() && init[i] == names.last();
                assert(init.to_set().contains(init[i]));
            }
        }
    }
}

/// There is no duplicate-name error exactly where the names are distinct.
pub proof fn lemma_no_duplicate_errors(names: Seq<Seq<char>>, stack: Seq<char>)
    ensures
        duplicate_name_errors(names, stack).len() == 0 <==> names_distinct(names),
    decreases names.len(),
{
    if names.len() > 0 {
        let init = names.drop_last();
        lemma_no_duplicate_errors(init, stack);
        let errs = duplicate_name_errors(names, stack);
        if names_distinct(names) {
            assert(names_distinct(init)) by {
                assert forall|i: int, j: int| 0 <= i < j < init.len() implies init[i] != init[j] by {
                    assert(init[i] == names[i] && init[j] == names[j]);
                }
            }
            if init.contains(names.last()) {
                let k = choose|k: int| 0 <= k < init.len() && init[k] == names.last();
                assert(names[k] == names[names.len() - 1]);
            }
        } else {
            let (i, j) = choose|i: int, j: int| 0 <= i < j < names.len() && names[i] == names[j];
            if j == names.len() - 1 {
                assert(init[i] == names.last());
                assert(init.contains(names.last()));
            } else {
                assert(init[i] == init[j]);
                assert(!names_distinct(init));
            }
        }
    }
}

fn names_contain(names: &Vec<String>, upto: usize, name: &String) -> (b: bool)
    requires
        upto <= names@.len(),
    ensures
        b == names@.map_values(|s: String| s@).subrange(0, upto as int).contains(name@),
{
    let ghost nv = names@.map_values(|s: String| s@).subrange(0, upto as int);
    let mut i: usize = 0;
    while i < upto
        invariant
            i <= upto <= names@.len(),
            nv == names@.map_values(|s: String| s@).subrange(0, upto as int),
            forall|j: int| 0 <= j < i ==> nv[j] != name@,
        decreases upto - i,
    {
        if names[i] == *name {
            assert(nv[i as int] == name@);
            return true;
        }
        i = i + 1;
    }
    false
}

/// Validates that every resource `name` in the stack is unique: one error
/// per resource whose name an earlier resource has.
///
/// **Rule ID**: `unique-resource-names`
pub fn validate_unique_resource_names(manifest: &Manifest) -> (r: Result<(), Vec<ValidationError>>)
    ensures
        match r {
            Ok(()) => duplicate_name_errors(resource_names(manifest), manifest.name@).len() == 0,
            Err(es) => es@.len() > 0 && errors_view(es@) == duplicate_name_errors(resource_names(manifest), manifest.name@),
        },
{
    let ghost nv = resource_names(manifest);
    let mut names: Vec<String> = Vec::new();
    let mut errors: Vec<ValidationError> = Vec::new();
    let mut i: usize = 0;
    assert(nv.subrange(0, 0) =~= Seq::<Seq<char>>::empty());
    while i < manifest.resources.len()
        invariant
            i <= manifest.resources@.len(),
            nv == resource_names(manifest),
            names@.map_values(|s: String| s@) =~= nv.subrange(0, i as int),
            errors_view(errors@) == duplicate_name_errors(nv.subrange(0, i as int), manifest.name@),
        decreases manifest.resources@.len() - i,
    {
        let name = &manifest.resources[i].name;
        assert(nv[i as int] == name@);
        assert(nv.subrange(0, i + 1).drop_last() =~= nv.subrange(0, i as int));
        assert(nv.subrange(0, i + 1).last() == name@);
        assert(names@.map_values(|s: String| s@).subrange(0, names@.len() as int) =~= names@.map_values(|s: String| s@));
        if names_contain(&names, names.len(), name) {
            let mut t = chars_of("resource name '");
            push_str(&mut t, name.as_str());
            push_str(&mut t, "' appears more than once in stack '");
            push_str(&mut t, manifest.name.as_str());
            push_str(&mut t, "'; every resource name must be unique within a stack");
            let e = ValidationError { rule: "unique-resource-names", detail: string_of(t.as_slice()) };
            let ghost before = errors@;
            let ghost eg = e;
            errors.push(e);
            assert(errors@ =~= before.push(eg));
            assert(errors_view(errors@) =~= errors_view(before).push(error_view(eg)));
        }
        let ghost nb = names@;
        let nm = name.clone();
        let ghost ng = nm;
        names.push(nm);
        assert(names@ =~= nb.push(ng));
        assert(names@.map_values(|s: String| s@) =~= nb.map_values(|s: String| s@).push(ng@));
        i = i + 1;
    }
    assert(nv.subrange(0, manifest.resources@.len() as int) =~= nv);
    if errors.len() == 0 {
        Ok(())
    } else {
        Err(errors)
    }
}

/// Append the errors of a rule's result to `acc`.
pub fn collect(acc: &mut Vec<ValidationError>, result: Result<(), Vec<ValidationError>>)
    ensures
        final(acc)@ == match result {
            Ok(()) => old(acc)@,
            Err(es) => old(acc)@ + es@,
        },
{
    if let Err(mut errs) = result {
        acc.append(&mut errs);
    }
}

/// Run all manifest validation rules against `manifest`, all of them (not
/// stopping at the first failure).
///
/// Returns `Ok(())` exactly where the resource names of the stack are
/// distinct; otherwise one error per failing check.
pub fn validate_manifest(manifest: &Manifest) -> (r: Result<(), Vec<ValidationError>>)
    ensures
        r is Ok <==> names_distinct(resource_names(manifest)),
        match r {
            Ok(()) => true,
            Err(es) => errors_view(es@) == duplicate_name_errors(resource_names(manifest), manifest.name@)
                && es@.len() == resource_names(manifest).len() - resource_names(manifest).to_set().len(),
        },
{
    let mut errors: Vec<ValidationError> = Vec::new();
    let rule = validate_unique_resource_names(manifest);
    collect(&mut errors, rule);
    proof {
        lemma_no_duplicate_errors(resource_names(manifest), manifest.name@);
        law_duplicate_error_count(resource_names(manifest), manifest.name@);
        assert(errors@ =~= Seq::<ValidationError>::empty() + errors@.subrange(0, errors@.len() as int));
    }
    if errors.len() == 0 {
        Ok(())
    } else {
        Err(errors)
    }
}

} // verus!
