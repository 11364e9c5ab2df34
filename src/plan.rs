use vstd::prelude::*;

verus! {

/// The views of a sequence of values, element by element.
pub open spec fn views<T: View>(s: Seq<T>) -> Seq<T::V> {
    s.map_values(|x: T| x@)
}

/// The external generator that creates the project skeleton: a program and its arguments.
#[derive(Debug, Clone, PartialEq, Eq)]
pub struct ScaffoldStep {
    pub command: String,
    pub args: Vec<String>,
}

impl View for ScaffoldStep {
    type V = (Seq<char>, Seq<Seq<char>>);

    open spec fn view(&self) -> (Seq<char>, Seq<Seq<char>>) {
        (self.command@, views(self.args@))
    }
}

/// One package to install, with its version constraint.
#[derive(Debug, Clone, PartialEq, Eq)]
pub struct DependencyInstall {
    pub name: String,
    pub version: String,
}

impl View for DependencyInstall {
    type V = (Seq<char>, Seq<char>);

    open spec fn view(&self) -> (Seq<char>, Seq<char>) {
        (self.name@, self.version@)
    }
}

/// A whole file to write, relative to the target directory.
#[derive(Debug, Clone, PartialEq, Eq)]
pub struct FileWrite {
    pub path: String,
    pub content: String,
}

impl View for FileWrite {
    type V = (Seq<char>, Seq<char>);

    open spec fn view(&self) -> (Seq<char>, Seq<char>) {
        (self.path@, self.content@)
    }
}

/// An edit of a generated file: a path, a mutation tag and the payload.
#[derive(Debug, Clone, PartialEq, Eq)]
pub struct FileModification {
    pub path: String,
    pub mutation_type: String,
    pub content: String,
}

impl View for FileModification {
    type V = (Seq<char>, Seq<char>, Seq<char>);

    open spec fn view(&self) -> (Seq<char>, Seq<char>, Seq<char>) {
        (self.path@, self.mutation_type@, self.content@)
    }
}

/// A named script of the generated project.
#[derive(Debug, Clone, PartialEq, Eq)]
pub struct Script {
    pub name: String,
    pub command: String,
}

impl View for Script {
    type V = (Seq<char>, Seq<char>);

    open spec fn view(&self) -> (Seq<char>, Seq<char>) {
        (self.name@, self.command@)
    }
}

/// The abstract content of an execution plan.
pub struct PlanView {
    pub scaffold: Option<(Seq<char>, Seq<Seq<char>>)>,
    pub dependencies: Seq<(Seq<char>, Seq<char>)>,
    pub dev_dependencies: Seq<(Seq<char>, Seq<char>)>,
    pub file_writes: Seq<(Seq<char>, Seq<char>)>,
    pub file_modifications: Seq<(Seq<char>, Seq<char>, Seq<char>)>,
    pub scripts: Seq<(Seq<char>, Seq<char>)>,
}

pub open spec fn scaffold_view(s: Option<ScaffoldStep>) -> Option<(Seq<char>, Seq<Seq<char>>)> {
    match s {
        Some(step) => Some(step@),
        None => None,
    }
}

/// The output of resolution: a complete, self-contained, ordered plan.
#[derive(Debug, Clone, PartialEq, Eq)]
pub struct ExecutionPlan {
    pub scaffold: Option<ScaffoldStep>,
    pub dependencies: Vec<DependencyInstall>,
    pub dev_dependencies: Vec<DependencyInstall>,
    pub file_writes: Vec<FileWrite>,
    pub file_modifications: Vec<FileModification>,
    pub scripts: Vec<Script>,
}

impl View for ExecutionPlan {
    type V = PlanView;

    open spec fn view(&self) -> PlanView {
        PlanView {
            scaffold: scaffold_view(self.scaffold),
            dependencies: views(self.dependencies@),
            dev_dependencies: views(self.dev_dependencies@),
            file_writes: views(self.file_writes@),
            file_modifications: views(self.file_modifications@),
            scripts: views(self.scripts@),
        }
    }
}

} // verus!
