use vstd::prelude::*;
use crate::models::{opt_view, ConfigMutation, Dependency, Feature, Framework};
use crate::plan::views;
use crate::registry::{opt_str_view, Registry, StoreError};

verus! {

/// A compatibility edge: the feature can be used with the framework.
#[derive(Debug, Clone)]
pub struct CompatibilityEdge {
    pub framework_id: String,
    pub feature_id: String,
}

impl View for CompatibilityEdge {
    type V = (Seq<char>, Seq<char>);

    open spec fn view(&self) -> (Seq<char>, Seq<char>) {
        (self.framework_id@, self.feature_id@)
    }
}

/// A dependency row: the owning feature, the framework it is scoped to (none: all of them),
/// the package, its version constraint and whether it is for development only.
#[derive(Debug, Clone)]
pub struct DependencyRecord {
    pub feature_id: String,
    pub framework_id: Option<String>,
    pub package_name: String,
    pub version_constraint: String,
    pub is_dev: bool,
}

impl View for DependencyRecord {
    type V = (Seq<char>, Option<Seq<char>>, Seq<char>, Seq<char>, bool);

    open spec fn view(&self) -> (Seq<char>, Option<Seq<char>>, Seq<char>, Seq<char>, bool) {
        (
            self.feature_id@,
            opt_view(self.framework_id),
            self.package_name@,
            self.version_constraint@,
            self.is_dev,
        )
    }
}

/// A config mutation row: framework, feature, target file, mutation tag and payload.
#[derive(Debug, Clone)]
pub struct MutationRecord {
    pub framework_id: String,
    pub feature_id: String,
    pub file_path: String,
    pub mutation_type: String,
    pub content: String,
}

impl View for MutationRecord {
    type V = (Seq<char>, Seq<char>, Seq<char>, Seq<char>, Seq<char>);

    open spec fn view(&self) -> (Seq<char>, Seq<char>, Seq<char>, Seq<char>, Seq<char>) {
        (self.framework_id@, self.feature_id@, self.file_path@, self.mutation_type@, self.content@)
    }
}

/// A metadata store held in memory, table by table; rows are answered in table order.
/// While it is not `available` every query fails, as an unreachable store's would.
pub struct MemoryRegistry {
    pub available: bool,
    pub frameworks: Vec<Framework>,
    pub features: Vec<Feature>,
    pub compatibility: Vec<CompatibilityEdge>,
    pub dependencies: Vec<DependencyRecord>,
    pub mutations: Vec<MutationRecord>,
}

/// The scaffold command of the first framework with the identifier.
pub open spec fn first_scaffold(fs: Seq<(Seq<char>, Seq<char>, Option<Seq<char>>)>, fw: Seq<char>) -> Option<
    Seq<char>,
>
    decreases fs.len(),
{
    if fs.len() == 0 {
        None
    } else if fs[0].0 == fw {
        fs[0].2
    } else {
        first_scaffold(fs.drop_first(), fw)
    }
}

/// The features that have an edge to the framework, in table order.
pub open spec fn linked_features(
    fs: Seq<(Seq<char>, Option<Seq<char>>)>,
    edges: Seq<(Seq<char>, Seq<char>)>,
    fw: Seq<char>,
) -> Seq<(Seq<char>, Option<Seq<char>>)>
    decreases fs.len(),
{
    if fs.len() == 0 {
        Seq::empty()
    } else {
        let rest = linked_features(fs.drop_last(), edges, fw);
        if edges.contains((fw, fs.last().0)) {
            rest.push(fs.last())
        } else {
            rest
        }
    }
}

/// A dependency row applies: its feature is asked for, and it is global or scoped to the
/// framework given.
pub open spec fn dependency_applies(
    r: (Seq<char>, Option<Seq<char>>, Seq<char>, Seq<char>, bool),
    fw: Option<Seq<char>>,
    features: Seq<Seq<char>>,
) -> bool {
    features.contains(r.0) && match fw {
        Some(f) => r.1 is None || r.1 == Some(f),
        None => r.1 is None,
    }
}

/// The dependencies of the rows that apply, in table order.
pub open spec fn select_dependencies(
    rows: Seq<(Seq<char>, Option<Seq<char>>, Seq<char>, Seq<char>, bool)>,
    fw: Option<Seq<char>>,
    features: Seq<Seq<char>>,
) -> Seq<(Seq<char>, Seq<char>, bool)>
    decreases rows.len(),
{
    if rows.len() == 0 {
        Seq::empty()
    } else {
        let rest = select_dependencies(rows.drop_last(), fw, features);
        let r = rows.last();
        if dependency_applies(r, fw, features) {
            rest.push((r.2, r.3, r.4))
        } else {
            rest
        }
    }
}

/// The mutations of the rows of the framework whose feature is asked for, in table order.
pub open spec fn select_mutations(
    rows: Seq<(Seq<char>, Seq<char>, Seq<char>, Seq<char>, Seq<char>)>,
    fw: Seq<char>,
    features: Seq<Seq<char>>,
) -> Seq<(Seq<char>, Seq<char>, Seq<char>)>
    decreases rows.len(),
{
    if rows.len() == 0 {
        Seq::empty()
    } else {
        let rest = select_mutations(rows.drop_last(), fw, features);
        let r = rows.last();
        if r.0 == fw && features.contains(r.1) {
            rest.push((r.2, r.3, r.4))
        } else {
            rest
        }
    }
}

proof fn lemma_select_none(
    deps: Seq<(Seq<char>, Option<Seq<char>>, Seq<char>, Seq<char>, bool)>,
    muts: Seq<(Seq<char>, Seq<char>, Seq<char>, Seq<char>, Seq<char>)>,
    fw: Option<Seq<char>>,
    f: Seq<char>,
)
    ensures
        select_dependencies(deps, fw, Seq::empty()).len() == 0,
        select_mutations(muts, f, Seq::empty()).len() == 0,
    decreases deps.len() + muts.len(),
{
    if deps.len() > 0 {
        lemma_select_none(deps.drop_last(), muts, fw, f);
    }
    if muts.len() > 0 {
        lemma_select_none(deps, muts.drop_last(), fw, f);
    }
}

/// Whether `x` is one of `v`.
pub fn contains_string(v: &[String], x: &String) -> (r: bool)
    ensures
        r == views(v@).contains(x@),
{
    let mut i: usize = 0;
    while i < v.len()
        invariant
            i <= v@.len(),
            forall|j: int| 0 <= j < i ==> v@[j]@ != x@,
        decreases v@.len() - i,
    {
        if v[i] == *x {
            assert(views(v@)[i as int] == x@);
            return true;
        }
        i = i + 1;
    }
    assert(!views(v@).contains(x@)) by {
        if views(v@).contains(x@) {
            let k = choose|k: int| 0 <= k < views(v@).len() && views(v@)[k] == x@;
            assert(v@[k]@ == x@);
        }
    }
    false
}

impl MemoryRegistry {
    fn has_edge(&self, framework_id: &String, feature_id: &String) -> (r: bool)
        ensures
            r == views(self.compatibility@).contains((framework_id@, feature_id@)),
    {
        let ghost es = views(self.compatibility@);
        let mut i: usize = 0;
        while i < self.compatibility.len()
            invariant
                i <= self.compatibility@.len(),
                es == views(self.compatibility@),
                forall|j: int| 0 <= j < i ==> es[j] != (framework_id@, feature_id@),
            decreases self.compatibility@.len() - i,
        {
            let e = &self.compatibility[i];
            if e.framework_id == *framework_id && e.feature_id == *feature_id {
                assert(es[i as int] == (framework_id@, feature_id@));
                return true;
            }
            i = i + 1;
        }
        false
    }
}

impl Registry for MemoryRegistry {
    open spec fn infallible(&self) -> bool {
        self.available
    }

    open spec fn supports(&self, framework: Seq<char>, language: Seq<char>) -> bool {
        exists|i: int|
            0 <= i < self.frameworks@.len() && self.frameworks@[i].id@ == framework
                && self.frameworks@[i].language@ == language
    }

    open spec fn scaffold_of(&self, framework: Seq<char>) -> Option<Seq<char>> {
        first_scaffold(views(self.frameworks@), framework)
    }

    open spec fn features_of(&self, framework: Seq<char>) -> Seq<(Seq<char>, Option<Seq<char>>)> {
        linked_features(views(self.features@), views(self.compatibility@), framework)
    }

    open spec fn compatible(&self, framework: Seq<char>, feature: Seq<char>) -> bool {
        views(self.compatibility@).contains((framework, feature))
    }

    open spec fn dependencies_of(&self, framework: Option<Seq<char>>, features: Seq<Seq<char>>) -> Seq<
        (Seq<char>, Seq<char>, bool),
    > {
        select_dependencies(views(self.dependencies@), framework, features)
    }

    open spec fn mutations_of(&self, framework: Seq<char>, features: Seq<Seq<char>>) -> Seq<
        (Seq<char>, Seq<char>, Seq<char>),
    > {
        select_mutations(views(self.mutations@), framework, features)
    }

    proof fn lemma_no_features_no_rows(&self, framework: Seq<char>) {
        lemma_select_none(views(self.dependencies@), views(self.mutations@), Some(framework), framework);
        lemma_select_none(views(self.dependencies@), views(self.mutations@), None, framework);
    }

    fn framework_supports_language(&self, framework_id: &str, language: &str) -> (r: Result<
        bool,
        StoreError,
    >) {
        if !self.available {
            return Err(StoreError { message: "the store is not available".to_owned() });
        }
        let fw = framework_id.to_owned();
        let lang = language.to_owned();
        let mut i: usize = 0;
        while i < self.frameworks.len()
            invariant
                i <= self.frameworks@.len(),
                fw@ == framework_id@,
                lang@ == language@,
                forall|j: int|
                    0 <= j < i ==> !(self.frameworks@[j].id@ == fw@
                        && self.frameworks@[j].language@ == lang@),
            decreases self.frameworks@.len() - i,
        {
            let f = &self.frameworks[i];
            if f.id == fw && f.language == lang {
                return Ok(true);
            }
            i = i + 1;
        }
        Ok(false)
    }

    fn get_scaffold_command(&self, framework_id: &str) -> (r: Result<Option<String>, StoreError>) {
        if !self.available {
            return Err(StoreError { message: "the store is not available".to_owned() });
        }
        let fw = framework_id.to_owned();
        let ghost fs = views(self.frameworks@);
        let mut i: usize = 0;
        assert(fs.skip(0) =~= fs);
        while i < self.frameworks.len()
            invariant
                i <= self.frameworks@.len(),
                fw@ == framework_id@,
                fs == views(self.frameworks@),
                first_scaffold(fs, fw@) == first_scaffold(fs.skip(i as int), fw@),
            decreases self.frameworks@.len() - i,
        {
            let f = &self.frameworks[i];
            assert(fs.skip(i as int)[0] == f@);
            if f.id == fw {
                return match &f.base_scaffold_command {
                    Some(c) => Ok(Some(c.clone())),
                    None => Ok(None),
                };
            }
            assert(fs.skip(i as int).drop_first() =~= fs.skip(i + 1));
            i = i + 1;
        }
        Ok(None)
    }

    fn features_for_framework(&self, framework_id: &str) -> (r: Result<Vec<Feature>, StoreError>) {
        if !self.available {
            return Err(StoreError { message: "the store is not available".to_owned() });
        }
        let fw = framework_id.to_owned();
        let ghost all = views(self.features@);
        let ghost es = views(self.compatibility@);
        let mut out: Vec<Feature> = Vec::new();
        let mut i: usize = 0;
        while i < self.features.len()
            invariant
                i <= self.features@.len(),
                fw@ == framework_id@,
                all == views(self.features@),
                es == views(self.compatibility@),
                views(out@) == linked_features(all.take(i as int), es, fw@),
            decreases self.features@.len() - i,
        {
            let f = &self.features[i];
            assert(all.take(i + 1).drop_last() =~= all.take(i as int));
            if self.has_edge(&fw, &f.id) {
                let g = Feature {
                    id: f.id.clone(),
                    description: match &f.description {
                        Some(d) => Some(d.clone()),
                        None => None,
                    },
                };
                let ghost before = views(out@);
                out.push(g);
                assert(views(out@) =~= before.push(g@));
            }
            i = i + 1;
        }
        assert(all.take(i as int) =~= all);
        Ok(out)
    }

    fn is_feature_compatible(&self, framework_id: &str, feature_id: &str) -> (r: Result<
        bool,
        StoreError,
    >) {
        if !self.available {
            return Err(StoreError { message: "the store is not available".to_owned() });
        }
        let fw = framework_id.to_owned();
        let feat = feature_id.to_owned();
        Ok(self.has_edge(&fw, &feat))
    }

    fn get_dependencies(&self, framework_id: Option<&str>, features: &[String]) -> (r: Result<
        Vec<Dependency>,
        StoreError,
    >) {
        if !self.available {
            return Err(StoreError { message: "the store is not available".to_owned() });
        }
        let fw: Option<String> = match framework_id {
            Some(f) => Some(f.to_owned()),
            None => None,
        };
        let ghost all = views(self.dependencies@);
        let mut out: Vec<Dependency> = Vec::new();
        let mut i: usize = 0;
        while i < self.dependencies.len()
            invariant
                i <= self.dependencies@.len(),
                opt_view(fw) == opt_str_view(framework_id),
                all == views(self.dependencies@),
                views(out@) == select_dependencies(
                    all.take(i as int),
                    opt_str_view(framework_id),
                    views(features@),
                ),
            decreases self.dependencies@.len() - i,
        {
            let d = &self.dependencies[i];
            assert(all.take(i + 1).drop_last() =~= all.take(i as int));
            let scoped = match (&d.framework_id, &fw) {
                (None, _) => true,
                (Some(a), Some(b)) => *a == *b,
                (Some(_), None) => false,
            };
            if scoped && contains_string(features, &d.feature_id) {
                let x = Dependency {
                    package_name: d.package_name.clone(),
                    version_constraint: d.version_constraint.clone(),
                    is_dev: d.is_dev,
                };
                let ghost before = views(out@);
                out.push(x);
                assert(views(out@) =~= before.push(x@));
            }
            i = i + 1;
        }
        assert(all.take(i as int) =~= all);
        Ok(out)
    }

    fn get_config_mutations(&self, framework_id: &str, features: &[String]) -> (r: Result<
        Vec<ConfigMutation>,
        StoreError,
    >) {
        if !self.available {
            return Err(StoreError { message: "the store is not available".to_owned() });
        }
        let fw = framework_id.to_owned();
        let ghost all = views(self.mutations@);
        let mut out: Vec<ConfigMutation> = Vec::new();
        let mut i: usize = 0;
        while i < self.mutations.len()
            invariant
                i <= self.mutations@.len(),
                fw@ == framework_id@,
                all == views(self.mutations@),
                views(out@) == select_mutations(all.take(i as int), fw@, views(features@)),
            decreases self.mutations@.len() - i,
        {
            let m = &self.mutations[i];
            assert(all.take(i + 1).drop_last() =~= all.take(i as int));
            if m.framework_id == fw && contains_string(features, &m.feature_id) {
                let x = ConfigMutation {
                    file_path: m.file_path.clone(),
                    mutation_type: m.mutation_type.clone(),
                    content: m.content.clone(),
                };
                let ghost before = views(out@);
                out.push(x);
                assert(views(out@) =~= before.push(x@));
            }
            i = i + 1;
        }
        assert(all.take(i as int) =~= all);
        Ok(out)
    }
}

} // verus!
