use vstd::prelude::*;
use crate::engine::{
    feature_fault, first_fault, installs_where, planned_dependencies, planned_scaffold,
    resolution_outcome, resolved_plan, ResolveError,
};
use crate::order::{lemma_sort_by_name, lemma_sort_modifications, sorted_by_name};
use crate::plan::ExecutionPlan;
use crate::registry::Registry;
use crate::spec::ProjectSpec;

verus! {

broadcast use vstd::seq_lib::group_to_multiset_ensures;

proof fn lemma_installs_where(rows: Seq<(Seq<char>, Seq<char>, bool)>, dev: bool)
    ensures
        forall|x: (Seq<char>, Seq<char>)|
            installs_where(rows, dev).contains(x) <==> exists|k: int|
                0 <= k < rows.len() && rows[k].2 == dev && (rows[k].0, rows[k].1) == x,
        installs_where(rows, false).len() + installs_where(rows, true).len() == rows.len(),
    decreases rows.len(),
{
    if rows.len() > 0 {
        let init = rows.drop_last();
        lemma_installs_where(init, dev);
        assert forall|x: (Seq<char>, Seq<char>)|
            installs_where(rows, dev).contains(x) <==> exists|k: int|
                0 <= k < rows.len() && rows[k].2 == dev && (rows[k].0, rows[k].1) == x by {
            if installs_where(rows, dev).contains(x) {
                let i = choose|i: int|
                    0 <= i < installs_where(rows, dev).len() && installs_where(rows, dev)[i] == x;
                if i < installs_where(init, dev).len() {
                    assert(installs_where(init, dev)[i] == x);
                    assert(installs_where(init, dev).contains(x));
                    assert(exists|k: int|
                        0 <= k < init.len() && init[k].2 == dev && (init[k].0, init[k].1) == x);
                    let k = choose|k: int|
                        0 <= k < init.len() && init[k].2 == dev && (init[k].0, init[k].1) == x;
                    assert(rows[k] == init[k]);
                } else {
                    assert(rows[rows.len() - 1].2 == dev);
                }
            }
            if exists|k: int| 0 <= k < rows.len() && rows[k].2 == dev && (rows[k].0, rows[k].1) == x {
                let k = choose|k: int|
                    0 <= k < rows.len() && rows[k].2 == dev && (rows[k].0, rows[k].1) == x;
                if k < init.len() {
                    assert(init[k] == rows[k]);
                    assert(installs_where(init, dev).contains(x));
                    let i = choose|i: int|
                        0 <= i < installs_where(init, dev).len() && installs_where(init, dev)[i]
                            == x;
                    assert(installs_where(rows, dev)[i] == x);
                } else {
                    assert(installs_where(rows, dev).last() == x);
                }
            }
        }
    }
}

/// Dependency partition: each dependency row lands in the runtime list when it is not
/// for development and in the dev list when it is, nothing is lost or added, each list is
/// ordered by package name, and where no package and version is asked for both ways, no
/// install appears in both lists.
pub proof fn lemma_dependency_partition(rows: Seq<(Seq<char>, Seq<char>, bool)>)
    ensures
        forall|x: (Seq<char>, Seq<char>)|
            planned_dependencies(rows, false).contains(x) <==> exists|k: int|
                0 <= k < rows.len() && !rows[k].2 && (rows[k].0, rows[k].1) == x,
        forall|x: (Seq<char>, Seq<char>)|
            planned_dependencies(rows, true).contains(x) <==> exists|k: int|
                0 <= k < rows.len() && rows[k].2 && (rows[k].0, rows[k].1) == x,
        planned_dependencies(rows, false).len() + planned_dependencies(rows, true).len()
            == rows.len(),
        sorted_by_name(planned_dependencies(rows, false)),
        sorted_by_name(planned_dependencies(rows, true)),
        (forall|a: int, b: int|
            0 <= a < rows.len() && 0 <= b < rows.len() && rows[a].2 != rows[b].2 ==> (
            rows[a].0,
            rows[a].1,
        ) != (rows[b].0, rows[b].1)) ==> forall|x: (Seq<char>, Seq<char>)|
            !(planned_dependencies(rows, false).contains(x) && planned_dependencies(
                rows,
                true,
            ).contains(x)),
{
    lemma_installs_where(rows, false);
    lemma_installs_where(rows, true);
    lemma_sort_by_name(installs_where(rows, false));
    lemma_sort_by_name(installs_where(rows, true));
    assert forall|x: (Seq<char>, Seq<char>)|
        planned_dependencies(rows, false).contains(x) <==> installs_where(rows, false).contains(
            x,
        ) by {
        assert(planned_dependencies(rows, false).to_multiset().count(x) == installs_where(
            rows,
            false,
        ).to_multiset().count(x));
    }
    assert forall|x: (Seq<char>, Seq<char>)|
        planned_dependencies(rows, true).contains(x) <==> installs_where(rows, true).contains(
            x,
        ) by {
        assert(planned_dependencies(rows, true).to_multiset().count(x) == installs_where(
            rows,
            true,
        ).to_multiset().count(x));
    }
    assert(planned_dependencies(rows, false).to_multiset().len() == installs_where(
        rows,
        false,
    ).to_multiset().len());
    assert(planned_dependencies(rows, true).to_multiset().len() == installs_where(
        rows,
        true,
    ).to_multiset().len());
}

/// Determinism: two resolutions of one spec against one snapshot that both give a plan give
/// equal plans; against a store that answers every query, both give a plan or neither does.
pub proof fn lemma_resolution_deterministic<R: Registry>(
    registry: &R,
    project_spec: &ProjectSpec,
    first: Result<ExecutionPlan, ResolveError>,
    second: Result<ExecutionPlan, ResolveError>,
)
    requires
        resolution_outcome(registry, project_spec@, first),
        resolution_outcome(registry, project_spec@, second),
    ensures
        first is Ok && second is Ok ==> first->Ok_0@ == second->Ok_0@,
        registry.infallible() ==> (first is Ok <==> second is Ok),
{
    let s = project_spec@;
    if registry.infallible() && (first is Ok || second is Ok) {
        assert(registry.supports(s.framework, s.language));
        assert(forall|i: int| !first_fault(registry, s.framework, s.features, i));
    }
}

/// Compatibility gating: a framework that does not support the spec's language never
/// gives a plan, and a store that answers every query reports the incompatible language.
pub proof fn lemma_language_gate<R: Registry>(
    registry: &R,
    project_spec: &ProjectSpec,
    r: Result<ExecutionPlan, ResolveError>,
)
    requires
        resolution_outcome(registry, project_spec@, r),
        !registry.supports(project_spec@.framework, project_spec@.language),
    ensures
        r is Err,
        registry.infallible() ==> r matches Err(ResolveError::IncompatibleLanguage { .. }),
{
}

/// Feature gating: a spec without repeated features that names a feature with no
/// compatibility edge to the framework never gives a plan; where the framework supports
/// the language and the store answers every query, the incompatible feature is reported.
pub proof fn lemma_feature_gate<R: Registry>(
    registry: &R,
    project_spec: &ProjectSpec,
    r: Result<ExecutionPlan, ResolveError>,
    k: int,
)
    requires
        resolution_outcome(registry, project_spec@, r),
        project_spec@.features.no_duplicates(),
        0 <= k < project_spec@.features.len(),
        !registry.compatible(project_spec@.framework, project_spec@.features[k]),
    ensures
        r is Err,
        registry.infallible() && registry.supports(project_spec@.framework, project_spec@.language)
            ==> r matches Err(ResolveError::IncompatibleFeature { .. }),
{
    let s = project_spec@;
    assert(feature_fault(registry, s.framework, s.features, k));
    assert forall|i: int| 0 <= i < s.features.len() implies !s.features.take(i).contains(
        s.features[i],
    ) by {
        if s.features.take(i).contains(s.features[i]) {
            let j = choose|j: int| 0 <= j < i && s.features.take(i)[j] == s.features[i];
            assert(s.features[j] == s.features[i]);
        }
    }
}

/// Empty-feature resolution: a spec without features on a framework that supports its
/// language gives a plan when the store answers every query, and a plan for a spec without
/// features has no dependencies and no file modifications, and its scaffold step is the
/// framework's, if it has one.
pub proof fn lemma_no_features<R: Registry>(
    registry: &R,
    project_spec: &ProjectSpec,
    r: Result<ExecutionPlan, ResolveError>,
)
    requires
        resolution_outcome(registry, project_spec@, r),
        project_spec@.features.len() == 0,
    ensures
        registry.infallible() && registry.supports(project_spec@.framework, project_spec@.language)
            ==> r is Ok,
        r is Ok ==> r->Ok_0@.dependencies.len() == 0,
        r is Ok ==> r->Ok_0@.dev_dependencies.len() == 0,
        r is Ok ==> r->Ok_0@.file_modifications.len() == 0,
        r is Ok ==> r->Ok_0@.scaffold == planned_scaffold(
            registry.scaffold_of(project_spec@.framework),
        ),
{
    let s = project_spec@;
    assert(s.features =~= Seq::<Seq<char>>::empty());
    registry.lemma_no_features_no_rows(s.framework);
    let rows = registry.dependencies_of(Some(s.framework), s.features);
    lemma_dependency_partition(rows);
    lemma_sort_modifications(registry.mutations_of(s.framework, s.features));
}

} // verus!
