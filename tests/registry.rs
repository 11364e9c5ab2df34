use orchestrator::command::split_whitespace;
use orchestrator::executor::Executor;
use orchestrator::memory::{contains_string, CompatibilityEdge, DependencyRecord, MemoryRegistry};
use orchestrator::models::{Feature, Framework};
use orchestrator::order::{sort_installs, str_le};
use orchestrator::plan::{DependencyInstall, FileModification};
use orchestrator::registry::Registry;

fn s(x: &str) -> String {
    x.to_string()
}

fn small_registry() -> MemoryRegistry {
    MemoryRegistry {
        available: true,
        frameworks: vec![Framework {
            id: s("react"),
            language: s("javascript"),
            base_scaffold_command: Some(s("npx create-react-app .")),
        }],
        features: vec![
            Feature { id: s("typescript"), description: None },
            Feature { id: s("tailwind"), description: Some(s("utility CSS")) },
        ],
        compatibility: vec![CompatibilityEdge { framework_id: s("react"), feature_id: s("typescript") }],
        dependencies: vec![DependencyRecord {
            feature_id: s("typescript"),
            framework_id: None,
            package_name: s("typescript"),
            version_constraint: s("^5.0.0"),
            is_dev: true,
        }],
        mutations: vec![],
    }
}

#[test]
fn memory_registry_answers_queries() {
    let r = small_registry();
    assert!(r.framework_supports_language("react", "javascript").unwrap());
    assert!(!r.framework_supports_language("react", "python").unwrap());
    assert_eq!(r.get_scaffold_command("react").unwrap(), Some(s("npx create-react-app .")));
    assert_eq!(r.get_scaffold_command("vue").unwrap(), None);
    assert!(r.is_feature_compatible("react", "typescript").unwrap());
    assert!(!r.is_feature_compatible("react", "tailwind").unwrap());
    let feats = r.features_for_framework("react").unwrap();
    assert_eq!(feats.len(), 1);
    assert_eq!(feats[0].id, "typescript");
}

#[test]
fn memory_registry_empty_feature_queries_are_empty() {
    let r = small_registry();
    assert!(r.get_dependencies(Some("react"), &[]).unwrap().is_empty());
    assert!(r.get_dependencies(None, &[]).unwrap().is_empty());
    assert!(r.get_config_mutations("react", &[]).unwrap().is_empty());
    let deps = r.get_dependencies(None, &[s("typescript")]).unwrap();
    assert_eq!(deps.len(), 1);
    assert!(deps[0].is_dev);
}

#[test]
fn lexicographic_order_on_strings() {
    assert!(str_le("", ""));
    assert!(str_le("abc", "abd"));
    assert!(str_le("ab", "abc"));
    assert!(!str_le("abc", "ab"));
    assert!(!str_le("b", "abc"));
    assert!(str_le("Z", "a"));
}

#[test]
fn sort_installs_orders_by_name() {
    let v = vec![
        DependencyInstall { name: s("react"), version: s("1") },
        DependencyInstall { name: s("eslint"), version: s("2") },
        DependencyInstall { name: s("react"), version: s("3") },
    ];
    let r = sort_installs(&v);
    let got: Vec<&str> = r.iter().map(|d| d.version.as_str()).collect();
    assert_eq!(got, vec!["2", "1", "3"]);
}

#[test]
fn split_whitespace_words() {
    assert_eq!(split_whitespace("a  b\tc"), vec![s("a"), s("b"), s("c")]);
    assert!(split_whitespace("").is_empty());
    assert!(split_whitespace(" \n ").is_empty());
    assert_eq!(split_whitespace("one"), vec![s("one")]);
}

#[test]
fn contains_string_finds_members() {
    let v = vec![s("a"), s("bc")];
    assert!(contains_string(&v, &s("bc")));
    assert!(!contains_string(&v, &s("b")));
}

#[test]
fn install_arguments_for_both_lists() {
    let deps = vec![
        DependencyInstall { name: s("react-router-dom"), version: s("^6.0.0") },
        DependencyInstall { name: s("history"), version: s("^5.0.0") },
    ];
    assert_eq!(
        Executor::install_arguments(&deps, false),
        vec![s("install"), s("react-router-dom@^6.0.0"), s("history@^5.0.0")]
    );
    assert_eq!(
        Executor::install_arguments(&deps[..1].to_vec(), true),
        vec![s("install"), s("--save-dev"), s("react-router-dom@^6.0.0")]
    );
    assert_eq!(Executor::install_arguments(&vec![], false), vec![s("install")]);
}

#[test]
fn modified_content_cases() {
    let append = FileModification { path: s("a"), mutation_type: s("text_append"), content: s("tail") };
    let merge = FileModification { path: s("a"), mutation_type: s("json_merge"), content: s("{}") };
    assert_eq!(Executor::modified_content(None, &append), Some(s("tail")));
    assert_eq!(Executor::modified_content(Some(s("head ")), &append), Some(s("head tail")));
    assert_eq!(Executor::modified_content(Some(s("head")), &merge), None);
    assert_eq!(Executor::modified_content(None, &merge), Some(s("{}")));
}

#[test]
fn unavailable_store_fails_every_query() {
    let mut r = small_registry();
    r.available = false;
    assert!(r.framework_supports_language("react", "javascript").is_err());
    assert!(r.get_scaffold_command("react").is_err());
    assert!(r.features_for_framework("react").is_err());
    assert!(r.is_feature_compatible("react", "typescript").is_err());
    assert!(r.get_dependencies(None, &[]).is_err());
    assert!(r.get_config_mutations("react", &[]).is_err());
}
