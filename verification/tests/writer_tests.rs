use abnf_engine::codegen::Crate;
use abnf_engine::dependency::CargoDependency;
use abnf_engine::metadata::CrateMetadata;
use abnf_engine::module::{Module, Parent, Visibility};

fn create_test_module() -> Module {
    let top_level_module = Module {
        name: "top_level".into(),
        documentation: "The top module".into(),
        parent: Parent::Lib,
        dependencies: Vec::new(),
        visibility: Visibility::Public,
    };

    let middle_level_module = Module {
        name: "middle_level".into(),
        documentation: "The middle module".into(),
        parent: Parent::Module(Box::new(top_level_module.clone())),
        dependencies: Vec::new(),
        visibility: Visibility::Public,
    };

    Module {
        name: "bottom_level".into(),
        documentation: "The bottom module".into(),
        parent: Parent::Module(Box::new(middle_level_module)),
        dependencies: Vec::new(),
        visibility: Visibility::Public,
    }
}

#[test]
fn test_print_cargo_dependency_with_no_features() {
    let dependency = CargoDependency::new("test-crate".to_string(), "0.1.0".to_string(), vec![]);
    assert_eq!("test-crate = \"0.1.0\"\n", dependency.to_manifest_line());
}

#[test]
fn test_print_cargo_dependency_with_features() {
    let dependency = CargoDependency::new(
        "test-crate".to_string(),
        "0.1.0".to_string(),
        vec!["feature1".to_string(), "feature2".to_string()],
    );
    assert_eq!(
        "test-crate = { version = \"0.1.0\", features = [\"feature1\", \"feature2\"] }\n",
        dependency.to_manifest_line(),
    );
}

#[test]
fn test_to_module_path() {
    let test_module = create_test_module();
    let path_text = test_module.to_module_path();

    assert_eq!("crate::top_level::middle_level::bottom_level", path_text);
}

#[test]
fn test_to_file_path() {
    let test_module = create_test_module();
    let file_path = test_module.to_file_path();
    let expected_path = "top_level/middle_level/bottom_level.rs";

    assert_eq!(expected_path, file_path);
}

#[test]
fn metadata_renders_a_package_section() {
    let metadata = CrateMetadata {
        name: "generated".to_string(),
        description: "A generated client".to_string(),
        version: "0.1.0".to_string(),
        authors: vec!["A. Author <a@example.com>".to_string()],
    };
    let expected = "[package]\nname = \"generated\"\nversion = \"0.1.0\"\nedition = \"2021\"\ndescription = \"A generated client\"\nauthors = [\n    \"A. Author <a@example.com>\",\n]\n\n";
    assert_eq!(expected, metadata.to_manifest());
}

fn plain_module(name: &str, deps: Vec<CargoDependency>) -> Module {
    Module {
        name: name.into(),
        documentation: String::new(),
        parent: Parent::Lib,
        dependencies: deps,
        visibility: Visibility::Public,
    }
}

#[test]
fn cargo_toml_lists_sorted_dependencies() {
    let metadata = CrateMetadata {
        name: "generated".to_string(),
        description: "d".to_string(),
        version: "0.1.0".to_string(),
        authors: vec![],
    };
    let mut c = Crate::new(metadata);
    let zeta = CargoDependency::new("zeta".to_string(), "1".to_string(), vec![]);
    let alpha = CargoDependency::new("alpha".to_string(), "2".to_string(), vec![]);
    c.write(plain_module("one", vec![zeta]), "// one\n".to_string());
    c.write(plain_module("two", vec![alpha]), "// two\n".to_string());
    let manifest = c.cargo_toml_contents();
    let expected = "[package]\nname = \"generated\"\nversion = \"0.1.0\"\nedition = \"2021\"\ndescription = \"d\"\nauthors = [\n]\n\n\n\n[dependencies]\nalpha = \"2\"\nzeta = \"1\"\n\n\n";
    assert_eq!(expected, manifest);
}

#[test]
fn merge_folds_writes_to_the_same_module() {
    let metadata = CrateMetadata {
        name: "generated".to_string(),
        description: "d".to_string(),
        version: "0.1.0".to_string(),
        authors: vec![],
    };
    let mut c = Crate::new(metadata);
    c.write(plain_module("beta", vec![]), "// first\n".to_string());
    c.write(plain_module("alpha", vec![]), "// second\n".to_string());
    c.write(plain_module("beta", vec![]), "// third\n".to_string());
    c.merge_pending_writes();
    let writes = c.writes();
    assert_eq!(writes.len(), 2);
    assert_eq!(writes[0].0.to_module_path(), "crate::alpha");
    assert_eq!(writes[0].1, "// second\n");
    assert_eq!(writes[1].0.to_module_path(), "crate::beta");
    assert_eq!(writes[1].1, "// first\n// third\n");
    let paths = c.module_file_paths();
    assert_eq!(paths.len(), 2);
    assert!(paths.contains(&"beta.rs".to_string()));
    assert!(paths.contains(&"alpha.rs".to_string()));
}

#[test]
fn visibility_prefixes() {
    assert_eq!(Visibility::Public.prefix_str(), "pub ");
    assert_eq!(Visibility::Private.prefix_str(), "");
    assert_eq!(Visibility::PubCrate.prefix_str(), "pub(crate) ");
}
