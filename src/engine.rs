use vstd::prelude::*;
use crate::command::{split_whitespace, words};
use crate::memory::contains_string;
use crate::models::{opt_view, ConfigMutation, Dependency};
use crate::order::{sort_by_name, sort_file_modifications, sort_installs, sort_modifications};
use crate::plan::{
    scaffold_view, views, DependencyInstall, ExecutionPlan, FileModification, FileWrite, PlanView,
    ScaffoldStep, Script,
};
use crate::registry::{Registry, StoreError};
use crate::spec::{ProjectSpec, SpecView};

verus! {

/// Why a spec could not be resolved.
#[derive(Debug, Clone)]
pub enum ResolveError {
    /// The framework does not support the language (or does not exist).
    IncompatibleLanguage { framework: String, language: String },
    /// The feature has no compatibility edge with the framework.
    IncompatibleFeature { feature: String, framework: String },
    /// The feature is listed more than once.
    DuplicateFeature { feature: String },
    /// The metadata store could not be read.
    Store(StoreError),
}

/// The resolution engine.
pub struct Engine;

/// The installs of the dependency rows with the given dev flag, in row order.
pub open spec fn installs_where(rows: Seq<(Seq<char>, Seq<char>, bool)>, dev: bool) -> Seq<
    (Seq<char>, Seq<char>),
>
    decreases rows.len(),
{
    if rows.len() == 0 {
        Seq::empty()
    } else {
        let rest = installs_where(rows.drop_last(), dev);
        let d = rows.last();
        if d.2 == dev {
            rest.push((d.0, d.1))
        } else {
            rest
        }
    }
}

/// The install list of the plan for the rows with the given dev flag, sorted by name.
pub open spec fn planned_dependencies(rows: Seq<(Seq<char>, Seq<char>, bool)>, dev: bool) -> Seq<
    (Seq<char>, Seq<char>),
> {
    sort_by_name(installs_where(rows, dev))
}

/// The scaffold step of a command: its first word is the program, the others its arguments;
/// a command without words gives no step.
pub open spec fn planned_scaffold(command: Option<Seq<char>>) -> Option<(Seq<char>, Seq<Seq<char>>)> {
    match command {
        Some(c) => {
            let w = words(c);
            if w.len() == 0 {
                None
            } else {
                Some((w[0], w.drop_first()))
            }
        },
        None => None,
    }
}

/// The feature at `i` is listed earlier too, or is not compatible with the framework.
pub open spec fn feature_fault<R: Registry>(
    registry: &R,
    framework: Seq<char>,
    features: Seq<Seq<char>>,
    i: int,
) -> bool {
    features.take(i).contains(features[i]) || !registry.compatible(framework, features[i])
}

/// The feature at `i` is the first one at fault.
pub open spec fn first_fault<R: Registry>(
    registry: &R,
    framework: Seq<char>,
    features: Seq<Seq<char>>,
    i: int,
) -> bool {
    &&& 0 <= i < features.len()
    &&& feature_fault(registry, framework, features, i)
    &&& forall|j: int| 0 <= j < i ==> !feature_fault(registry, framework, features, j)
}

/// No feature is at fault.
pub open spec fn features_accepted<R: Registry>(
    registry: &R,
    framework: Seq<char>,
    features: Seq<Seq<char>>,
) -> bool {
    forall|i: int| 0 <= i < features.len() ==> !feature_fault(registry, framework, features, i)
}

/// The plan that the registry's snapshot gives for an accepted spec.
pub open spec fn resolved_plan<R: Registry>(registry: &R, s: SpecView) -> PlanView {
    let rows = registry.dependencies_of(Some(s.framework), s.features);
    PlanView {
        scaffold: planned_scaffold(registry.scaffold_of(s.framework)),
        dependencies: planned_dependencies(rows, false),
        dev_dependencies: planned_dependencies(rows, true),
        file_writes: Seq::empty(),
        file_modifications: sort_modifications(registry.mutations_of(s.framework, s.features)),
        scripts: Seq::empty(),
    }
}

/// What resolving `s` against `registry` may give: each validation error exactly when its
/// stage fails first, a store error only from a store that can fail, and otherwise the plan.
pub open spec fn resolution_outcome<R: Registry>(
    registry: &R,
    s: SpecView,
    r: Result<ExecutionPlan, ResolveError>,
) -> bool {
    match r {
        Ok(plan) => {
            &&& registry.supports(s.framework, s.language)
            &&& features_accepted(registry, s.framework, s.features)
            &&& plan@ == resolved_plan(registry, s)
        },
        Err(ResolveError::IncompatibleLanguage { framework, language }) => {
            &&& !registry.supports(s.framework, s.language)
            &&& framework@ == s.framework
            &&& language@ == s.language
        },
        Err(ResolveError::DuplicateFeature { feature }) => {
            &&& registry.supports(s.framework, s.language)
            &&& exists|i: int|
                first_fault(registry, s.framework, s.features, i) && s.features.take(i).contains(
                    s.features[i],
                ) && feature@ == s.features[i]
        },
        Err(ResolveError::IncompatibleFeature { feature, framework }) => {
            &&& registry.supports(s.framework, s.language)
            &&& framework@ == s.framework
            &&& exists|i: int|
                first_fault(registry, s.framework, s.features, i) && !s.features.take(i).contains(
                    s.features[i],
                ) && feature@ == s.features[i]
        },
        Err(ResolveError::Store(_)) => !registry.infallible(),
    }
}

/// Splits dependency rows into the runtime and the dev install lists, each sorted by name.
/// Several constraints on one package are all kept, in the store's order: a conflict is
/// left visible in the plan rather than settled here.
pub fn split_dependencies(deps: &Vec<Dependency>) -> (r: (
    Vec<DependencyInstall>,
    Vec<DependencyInstall>,
))
    ensures
        views(r.0@) == planned_dependencies(views(deps@), false),
        views(r.1@) == planned_dependencies(views(deps@), true),
{
    let ghost rows = views(deps@);
    let mut runtime: Vec<DependencyInstall> = Vec::new();
    let mut dev: Vec<DependencyInstall> = Vec::new();
    let mut i: usize = 0;
    while i < deps.len()
        invariant
            i <= deps@.len(),
            rows == views(deps@),
            views(runtime@) == installs_where(rows.take(i as int), false),
            views(dev@) == installs_where(rows.take(i as int), true),
        decreases deps@.len() - i,
    {
        let d = &deps[i];
        assert(rows.take(i + 1).drop_last() =~= rows.take(i as int));
        let x = DependencyInstall {
            name: d.package_name.clone(),
            version: d.version_constraint.clone(),
        };
        if d.is_dev {
            let ghost before = views(dev@);
            dev.push(x);
            assert(views(dev@) =~= before.push(x@));
        } else {
            let ghost before = views(runtime@);
            runtime.push(x);
            assert(views(runtime@) =~= before.push(x@));
        }
        i = i + 1;
    }
    assert(rows.take(i as int) =~= rows);
    (sort_installs(&runtime), sort_installs(&dev))
}

/// The file modifications for config mutations, sorted by path and then by mutation tag.
pub fn file_modifications(mutations: &Vec<ConfigMutation>) -> (r: Vec<FileModification>)
    ensures
        views(r@) == sort_modifications(views(mutations@)),
{
    let ghost rows = views(mutations@);
    let mut out: Vec<FileModification> = Vec::new();
    let mut i: usize = 0;
    while i < mutations.len()
        invariant
            i <= mutations@.len(),
            rows == views(mutations@),
            views(out@) == rows.take(i as int),
        decreases mutations@.len() - i,
    {
        let m = &mutations[i];
        let x = FileModification {
            path: m.file_path.clone(),
            mutation_type: m.mutation_type.clone(),
            content: m.content.clone(),
        };
        let ghost before = views(out@);
        out.push(x);
        assert(views(out@) =~= before.push(x@));
        assert(rows.take(i + 1) =~= rows.take(i as int).push(rows[i as int]));
        i = i + 1;
    }
    assert(rows.take(i as int) =~= rows);
    sort_file_modifications(&out)
}

/// The scaffold step of a framework's command, split on white space.
pub fn scaffold_step(command: Option<String>) -> (r: Option<ScaffoldStep>)
    ensures
        scaffold_view(r) == planned_scaffold(opt_view(command)),
{
    match command {
        None => None,
        Some(c) => {
            let mut parts = split_whitespace(c.as_str());
            if parts.len() == 0 {
                None
            } else {
                let ghost all = views(parts@);
                let program = parts.remove(0);
                assert(views(parts@) =~= all.drop_first());
                Some(ScaffoldStep { command: program, args: parts })
            }
        },
    }
}

fn occurs_before(v: &Vec<String>, k: usize) -> (r: bool)
    requires
        k < v@.len(),
    ensures
        r == views(v@).take(k as int).contains(views(v@)[k as int]),
{
    let ghost s = views(v@).take(k as int);
    let mut j: usize = 0;
    while j < k
        invariant
            k < v@.len(),
            j <= k,
            s == views(v@).take(k as int),
            forall|t: int| 0 <= t < j ==> s[t] != v@[k as int]@,
        decreases k - j,
    {
        if v[j] == v[k] {
            assert(s[j as int] == views(v@)[k as int]);
            return true;
        }
        j = j + 1;
    }
    false
}

impl Engine {
    /// Validates the spec against the registry and compiles it into an execution plan.
    pub fn resolve<R: Registry>(project_spec: &ProjectSpec, registry: &R) -> (r: Result<
        ExecutionPlan,
        ResolveError,
    >)
        ensures
            resolution_outcome(registry, project_spec@, r),
    {
        let ghost s = project_spec@;
        let framework = &project_spec.framework;
        // 1. the framework must support the language
        match registry.framework_supports_language(framework.as_str(), project_spec.language.as_str()) {
            Err(e) => {
                return Err(ResolveError::Store(e));
            },
            Ok(false) => {
                return Err(
                    ResolveError::IncompatibleLanguage {
                        framework: framework.clone(),
                        language: project_spec.language.clone(),
                    },
                );
            },
            Ok(true) => {},
        }
        // 2. every feature, in the order given, must be new and compatible
        let features = &project_spec.features;
        let mut i: usize = 0;
        while i < features.len()
            invariant
                i <= features@.len(),
                s == project_spec@,
                features == &project_spec.features,
                framework == &project_spec.framework,
                registry.supports(s.framework, s.language),
                forall|j: int| 0 <= j < i ==> !feature_fault(registry, s.framework, s.features, j),
            decreases features@.len() - i,
        {
            if occurs_before(features, i) {
                assert(first_fault(registry, s.framework, s.features, i as int));
                return Err(ResolveError::DuplicateFeature { feature: features[i].clone() });
            }
            match registry.is_feature_compatible(framework.as_str(), features[i].as_str()) {
                Err(e) => {
                    return Err(ResolveError::Store(e));
                },
                Ok(false) => {
                    assert(first_fault(registry, s.framework, s.features, i as int));
                    return Err(
                        ResolveError::IncompatibleFeature {
                            feature: features[i].clone(),
                            framework: framework.clone(),
                        },
                    );
                },
                Ok(true) => {},
            }
            i = i + 1;
        }
        // 3. dependencies, global and scoped to the framework
        let deps = match registry.get_dependencies(Some(framework.as_str()), features.as_slice()) {
            Err(e) => {
                return Err(ResolveError::Store(e));
            },
            Ok(d) => d,
        };
        let (dependencies, dev_dependencies) = split_dependencies(&deps);
        // 4. config mutations
        let mutations = match registry.get_config_mutations(framework.as_str(), features.as_slice()) {
            Err(e) => {
                return Err(ResolveError::Store(e));
            },
            Ok(m) => m,
        };
        let file_modifications = file_modifications(&mutations);
        // 5. scaffold step
        let command = match registry.get_scaffold_command(framework.as_str()) {
            Err(e) => {
                return Err(ResolveError::Store(e));
            },
            Ok(c) => c,
        };
        let ghost cv = opt_view(command);
        assert(cv == registry.scaffold_of(s.framework));
        let scaffold = scaffold_step(command);
        // 6. the plan
        let file_writes: Vec<FileWrite> = Vec::new();
        let scripts: Vec<Script> = Vec::new();
        let plan = ExecutionPlan {
            scaffold,
            dependencies,
            dev_dependencies,
            file_writes,
            file_modifications,
            scripts,
        };
        assert(views(plan.file_writes@) =~= Seq::empty());
        assert(views(plan.scripts@) =~= Seq::empty());
        assert(plan@ =~= resolved_plan(registry, s));
        Ok(plan)
    }
}

} // verus!
