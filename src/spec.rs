use vstd::prelude::*;
use crate::plan::views;

verus! {

/// The user's declarative, versioned description of a project. Features keep the order
/// given; resolution rejects a feature that is listed twice.
#[derive(Debug, Clone, PartialEq, Eq)]
pub struct ProjectSpec {
    pub spec_version: u32,
    pub language: String,
    pub framework: String,
    pub features: Vec<String>,
}

/// The abstract content of a project spec.
pub struct SpecView {
    pub spec_version: u32,
    pub language: Seq<char>,
    pub framework: Seq<char>,
    pub features: Seq<Seq<char>>,
}

impl View for ProjectSpec {
    type V = SpecView;

    open spec fn view(&self) -> SpecView {
        SpecView {
            spec_version: self.spec_version,
            language: self.language@,
            framework: self.framework@,
            features: views(self.features@),
        }
    }
}

} // verus!
