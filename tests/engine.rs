use orchestrator::engine::{file_modifications, scaffold_step, split_dependencies, Engine, ResolveError};
use orchestrator::memory::{CompatibilityEdge, DependencyRecord, MemoryRegistry, MutationRecord};
use orchestrator::models::{ConfigMutation, Dependency, Feature, Framework};
use orchestrator::plan::ScaffoldStep;
use orchestrator::spec::ProjectSpec;

fn s(x: &str) -> String {
    x.to_string()
}

fn framework(id: &str, language: &str, command: Option<&str>) -> Framework {
    Framework { id: s(id), language: s(language), base_scaffold_command: command.map(s) }
}

fn edge(framework_id: &str, feature_id: &str) -> CompatibilityEdge {
    CompatibilityEdge { framework_id: s(framework_id), feature_id: s(feature_id) }
}

fn dep(feature: &str, fw: Option<&str>, name: &str, version: &str, is_dev: bool) -> DependencyRecord {
    DependencyRecord {
        feature_id: s(feature),
        framework_id: fw.map(s),
        package_name: s(name),
        version_constraint: s(version),
        is_dev,
    }
}

fn mutation(fw: &str, feature: &str, path: &str, tag: &str, content: &str) -> MutationRecord {
    MutationRecord {
        framework_id: s(fw),
        feature_id: s(feature),
        file_path: s(path),
        mutation_type: s(tag),
        content: s(content),
    }
}

fn seeded_registry() -> MemoryRegistry {
    MemoryRegistry {
        available: true,
        frameworks: vec![
            framework("react", "javascript", Some("npx create-react-app .")),
            framework("flask", "python", None),
        ],
        features: vec![
            Feature { id: s("typescript"), description: Some(s("TypeScript support")) },
            Feature { id: s("eslint"), description: None },
            Feature { id: s("router"), description: None },
        ],
        compatibility: vec![edge("react", "typescript"), edge("react", "eslint"), edge("react", "router")],
        dependencies: vec![
            dep("typescript", None, "typescript", "^5.0.0", true),
            dep("eslint", None, "eslint", "^8.0.0", true),
            dep("eslint", Some("react"), "eslint-plugin-react", "^7.0.0", true),
            dep("eslint", Some("vue"), "eslint-plugin-vue", "^9.0.0", true),
            dep("router", Some("react"), "react-router-dom", "^6.0.0", false),
            dep("router", None, "history", "^5.0.0", false),
        ],
        mutations: vec![
            mutation("react", "eslint", ".eslintrc", "text_append", "extends: react\n"),
            mutation("react", "router", "README.md", "text_append", "## Routing\n"),
            mutation("react", "eslint", ".eslintrc", "json_merge", "{}"),
            mutation("vue", "eslint", ".eslintrc", "text_append", "extends: vue\n"),
        ],
    }
}

fn spec_of(language: &str, framework: &str, features: &[&str]) -> ProjectSpec {
    ProjectSpec {
        spec_version: 1,
        language: s(language),
        framework: s(framework),
        features: features.iter().map(|f| s(f)).collect(),
    }
}

#[test]
fn test_resolve_react_typescript() {
    let registry = seeded_registry();
    let spec = ProjectSpec {
        spec_version: 1,
        language: "javascript".to_string(),
        framework: "react".to_string(),
        features: vec!["typescript".to_string()],
    };
    let plan = Engine::resolve(&spec, &registry).unwrap();
    assert!(plan.scaffold.is_some());
    assert_eq!(plan.dependencies.len(), 0);
    assert_eq!(plan.dev_dependencies.len(), 1);
    assert_eq!(plan.dev_dependencies[0].name, "typescript");
}

#[test]
fn test_invalid_language() {
    let registry = seeded_registry();
    let spec = ProjectSpec {
        spec_version: 1,
        language: "python".to_string(),
        framework: "react".to_string(),
        features: vec![],
    };
    let result = Engine::resolve(&spec, &registry);
    assert!(result.is_err());
}

#[test]
fn react_typescript_scenario_plan() {
    let registry = seeded_registry();
    let plan = Engine::resolve(&spec_of("javascript", "react", &["typescript"]), &registry).unwrap();
    assert_eq!(
        plan.scaffold,
        Some(ScaffoldStep { command: s("npx"), args: vec![s("create-react-app"), s(".")] })
    );
    assert!(plan.dependencies.is_empty());
    assert_eq!(plan.dev_dependencies.len(), 1);
    assert_eq!(plan.dev_dependencies[0].name, "typescript");
    assert_eq!(plan.dev_dependencies[0].version, "^5.0.0");
    assert!(plan.file_modifications.is_empty());
    assert!(plan.file_writes.is_empty());
    assert!(plan.scripts.is_empty());
}

#[test]
fn python_on_react_is_rejected() {
    let registry = seeded_registry();
    match Engine::resolve(&spec_of("python", "react", &[]), &registry) {
        Err(ResolveError::IncompatibleLanguage { framework, language }) => {
            assert_eq!(framework, "react");
            assert_eq!(language, "python");
        }
        other => panic!("unexpected outcome: {:?}", other),
    }
}

#[test]
fn unknown_framework_is_rejected() {
    let registry = seeded_registry();
    let r = Engine::resolve(&spec_of("javascript", "svelte", &[]), &registry);
    assert!(matches!(r, Err(ResolveError::IncompatibleLanguage { .. })));
}

#[test]
fn resolving_twice_gives_equal_plans() {
    let registry = seeded_registry();
    let spec = spec_of("javascript", "react", &["router", "eslint", "typescript"]);
    let first = Engine::resolve(&spec, &registry).unwrap();
    let second = Engine::resolve(&spec, &registry).unwrap();
    assert_eq!(first, second);
}

#[test]
fn incompatible_feature_is_reported_among_valid_ones() {
    let registry = seeded_registry();
    let spec = spec_of("javascript", "react", &["typescript", "tailwind", "eslint"]);
    match Engine::resolve(&spec, &registry) {
        Err(ResolveError::IncompatibleFeature { feature, framework }) => {
            assert_eq!(feature, "tailwind");
            assert_eq!(framework, "react");
        }
        other => panic!("unexpected outcome: {:?}", other),
    }
}

#[test]
fn first_incompatible_feature_wins() {
    let registry = seeded_registry();
    let spec = spec_of("javascript", "react", &["vuex", "tailwind"]);
    match Engine::resolve(&spec, &registry) {
        Err(ResolveError::IncompatibleFeature { feature, .. }) => assert_eq!(feature, "vuex"),
        other => panic!("unexpected outcome: {:?}", other),
    }
}

#[test]
fn duplicate_feature_is_rejected() {
    let registry = seeded_registry();
    let spec = spec_of("javascript", "react", &["eslint", "typescript", "eslint"]);
    match Engine::resolve(&spec, &registry) {
        Err(ResolveError::DuplicateFeature { feature }) => assert_eq!(feature, "eslint"),
        other => panic!("unexpected outcome: {:?}", other),
    }
}

#[test]
fn dependencies_are_partitioned_and_sorted() {
    let registry = seeded_registry();
    let spec = spec_of("javascript", "react", &["router", "eslint", "typescript"]);
    let plan = Engine::resolve(&spec, &registry).unwrap();
    let runtime: Vec<&str> = plan.dependencies.iter().map(|d| d.name.as_str()).collect();
    let dev: Vec<&str> = plan.dev_dependencies.iter().map(|d| d.name.as_str()).collect();
    assert_eq!(runtime, vec!["history", "react-router-dom"]);
    assert_eq!(dev, vec!["eslint", "eslint-plugin-react", "typescript"]);
    for d in &plan.dependencies {
        assert!(!plan.dev_dependencies.contains(d));
    }
}

#[test]
fn modifications_are_sorted_by_path_then_tag() {
    let registry = seeded_registry();
    let spec = spec_of("javascript", "react", &["router", "eslint"]);
    let plan = Engine::resolve(&spec, &registry).unwrap();
    let keys: Vec<(&str, &str)> = plan
        .file_modifications
        .iter()
        .map(|m| (m.path.as_str(), m.mutation_type.as_str()))
        .collect();
    assert_eq!(keys, vec![(".eslintrc", "json_merge"), (".eslintrc", "text_append"), ("README.md", "text_append")]);
    assert_eq!(plan.file_modifications[1].content, "extends: react\n");
}

#[test]
fn no_features_keeps_the_scaffold_only() {
    let registry = seeded_registry();
    let plan = Engine::resolve(&spec_of("javascript", "react", &[]), &registry).unwrap();
    assert!(plan.dependencies.is_empty());
    assert!(plan.dev_dependencies.is_empty());
    assert!(plan.file_modifications.is_empty());
    assert_eq!(plan.scaffold.unwrap().command, "npx");
}

#[test]
fn framework_without_command_has_no_scaffold() {
    let registry = seeded_registry();
    let plan = Engine::resolve(&spec_of("python", "flask", &[]), &registry).unwrap();
    assert_eq!(plan.scaffold, None);
}

#[test]
fn split_dependencies_is_stable_on_equal_names() {
    let deps = vec![
        Dependency { package_name: s("zod"), version_constraint: s("^3"), is_dev: false },
        Dependency { package_name: s("axios"), version_constraint: s("^1"), is_dev: false },
        Dependency { package_name: s("zod"), version_constraint: s("^2"), is_dev: false },
        Dependency { package_name: s("jest"), version_constraint: s("^29"), is_dev: true },
    ];
    let (runtime, dev) = split_dependencies(&deps);
    let runtime: Vec<(&str, &str)> = runtime.iter().map(|d| (d.name.as_str(), d.version.as_str())).collect();
    assert_eq!(runtime, vec![("axios", "^1"), ("zod", "^3"), ("zod", "^2")]);
    assert_eq!(dev.len(), 1);
    assert_eq!(dev[0].name, "jest");
}

#[test]
fn file_modifications_keep_payloads() {
    let muts = vec![
        ConfigMutation { file_path: s("b.txt"), mutation_type: s("text_append"), content: s("2") },
        ConfigMutation { file_path: s("a.txt"), mutation_type: s("text_append"), content: s("1") },
    ];
    let mods = file_modifications(&muts);
    assert_eq!(mods.len(), 2);
    assert_eq!(mods[0].path, "a.txt");
    assert_eq!(mods[0].content, "1");
    assert_eq!(mods[1].path, "b.txt");
}

#[test]
fn scaffold_step_splits_on_runs_of_white_space() {
    let step = scaffold_step(Some(s("  npm\tcreate   vite@latest  app \n"))).unwrap();
    assert_eq!(step.command, "npm");
    assert_eq!(step.args, vec![s("create"), s("vite@latest"), s("app")]);
}

#[test]
fn blank_scaffold_command_gives_no_step() {
    assert_eq!(scaffold_step(Some(s("   \t "))), None);
    assert_eq!(scaffold_step(Some(s(""))), None);
    assert_eq!(scaffold_step(None), None);
}

#[test]
fn unavailable_store_fails_resolution() {
    let mut registry = seeded_registry();
    registry.available = false;
    let r = Engine::resolve(&spec_of("javascript", "react", &["typescript"]), &registry);
    assert!(matches!(r, Err(ResolveError::Store(_))));
}
