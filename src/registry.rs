use vstd::prelude::*;
use crate::models::{ConfigMutation, Dependency, Feature};
use crate::plan::views;

verus! {

/// The metadata store could not be read.
#[derive(Debug, Clone)]
pub struct StoreError {
    pub message: String,
}

/// The view of an optional string slice.
pub open spec fn opt_str_view(o: Option<&str>) -> Option<Seq<char>> {
    match o {
        Some(s) => Some(s@),
        None => None,
    }
}

/// Read-only queries over frameworks, features, dependencies and config mutations.
///
/// The spec functions describe the snapshot of the store; every query that succeeds
/// answers from it. A query may fail only when the store itself cannot be read,
/// which never happens to a store whose `infallible` holds.
pub trait Registry {
    /// The store answers every query.
    spec fn infallible(&self) -> bool;

    /// The framework exists and supports the language.
    spec fn supports(&self, framework: Seq<char>, language: Seq<char>) -> bool;

    /// The scaffold command of the framework, if it exists and has one.
    spec fn scaffold_of(&self, framework: Seq<char>) -> Option<Seq<char>>;

    /// The features that have a compatibility edge with the framework.
    spec fn features_of(&self, framework: Seq<char>) -> Seq<(Seq<char>, Option<Seq<char>>)>;

    /// The compatibility edge (framework, feature) exists.
    spec fn compatible(&self, framework: Seq<char>, feature: Seq<char>) -> bool;

    /// The dependencies of the features: global ones, and with a framework those scoped to it.
    spec fn dependencies_of(&self, framework: Option<Seq<char>>, features: Seq<Seq<char>>) -> Seq<
        (Seq<char>, Seq<char>, bool),
    >;

    /// The config mutations of the features under the framework.
    spec fn mutations_of(&self, framework: Seq<char>, features: Seq<Seq<char>>) -> Seq<
        (Seq<char>, Seq<char>, Seq<char>),
    >;

    /// Queries with no features find nothing.
    proof fn lemma_no_features_no_rows(&self, framework: Seq<char>)
        ensures
            self.dependencies_of(Some(framework), Seq::empty()).len() == 0,
            self.dependencies_of(None, Seq::empty()).len() == 0,
            self.mutations_of(framework, Seq::empty()).len() == 0,
    ;

    /// Whether the framework supports the language.
    fn framework_supports_language(&self, framework_id: &str, language: &str) -> (r: Result<
        bool,
        StoreError,
    >)
        ensures
            r matches Ok(b) ==> b == self.supports(framework_id@, language@),
            self.infallible() ==> r is Ok,
    ;

    /// The base scaffold command of the framework, if any.
    fn get_scaffold_command(&self, framework_id: &str) -> (r: Result<Option<String>, StoreError>)
        ensures
            r matches Ok(c) ==> match c {
                Some(s) => self.scaffold_of(framework_id@) == Some(s@),
                None => self.scaffold_of(framework_id@) is None,
            },
            self.infallible() ==> r is Ok,
    ;

    /// All features that can be added to the framework.
    fn features_for_framework(&self, framework_id: &str) -> (r: Result<Vec<Feature>, StoreError>)
        ensures
            r matches Ok(v) ==> views(v@) == self.features_of(framework_id@),
            self.infallible() ==> r is Ok,
    ;

    /// Whether the feature is compatible with the framework.
    fn is_feature_compatible(&self, framework_id: &str, feature_id: &str) -> (r: Result<
        bool,
        StoreError,
    >)
        ensures
            r matches Ok(b) ==> b == self.compatible(framework_id@, feature_id@),
            self.infallible() ==> r is Ok,
    ;

    /// The dependencies of the features, optionally scoped to a framework.
    fn get_dependencies(&self, framework_id: Option<&str>, features: &[String]) -> (r: Result<
        Vec<Dependency>,
        StoreError,
    >)
        ensures
            r matches Ok(v) ==> views(v@) == self.dependencies_of(
                opt_str_view(framework_id),
                views(features@),
            ),
            self.infallible() ==> r is Ok,
    ;

    /// The config mutations of the features under the framework.
    fn get_config_mutations(&self, framework_id: &str, features: &[String]) -> (r: Result<
        Vec<ConfigMutation>,
        StoreError,
    >)
        ensures
            r matches Ok(v) ==> views(v@) == self.mutations_of(framework_id@, views(features@)),
            self.infallible() ==> r is Ok,
    ;
}

} // verus!
