use vstd::prelude::*;

verus! {

/// The view of an optional string.
pub open spec fn opt_view(o: Option<String>) -> Option<Seq<char>> {
    match o {
        Some(s) => Some(s@),
        None => None,
    }
}

/// A framework of the registry: its identifier, its language and its scaffold command.
#[derive(Debug, Clone)]
pub struct Framework {
    pub id: String,
    pub language: String,
    pub base_scaffold_command: Option<String>,
}

impl View for Framework {
    type V = (Seq<char>, Seq<char>, Option<Seq<char>>);

    open spec fn view(&self) -> (Seq<char>, Seq<char>, Option<Seq<char>>) {
        (self.id@, self.language@, opt_view(self.base_scaffold_command))
    }
}

/// A feature of the registry, independent of any framework.
#[derive(Debug, Clone)]
pub struct Feature {
    pub id: String,
    pub description: Option<String>,
}

impl View for Feature {
    type V = (Seq<char>, Option<Seq<char>>);

    open spec fn view(&self) -> (Seq<char>, Option<Seq<char>>) {
        (self.id@, opt_view(self.description))
    }
}

/// A package that a feature asks for, as a query of the registry returns it.
#[derive(Debug, Clone)]
pub struct Dependency {
    pub package_name: String,
    pub version_constraint: String,
    pub is_dev: bool,
}

impl View for Dependency {
    type V = (Seq<char>, Seq<char>, bool);

    open spec fn view(&self) -> (Seq<char>, Seq<char>, bool) {
        (self.package_name@, self.version_constraint@, self.is_dev)
    }
}

/// An edit that a feature requires of a generated file, as a query of the registry returns it.
#[derive(Debug, Clone)]
pub struct ConfigMutation {
    pub file_path: String,
    pub mutation_type: String,
    pub content: String,
}

impl View for ConfigMutation {
    type V = (Seq<char>, Seq<char>, Seq<char>);

    open spec fn view(&self) -> (Seq<char>, Seq<char>, Seq<char>) {
        (self.file_path@, self.mutation_type@, self.content@)
    }
}

} // verus!
