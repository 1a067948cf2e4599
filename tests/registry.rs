use devenv::{Category, Configuration, Element, Tool};

fn strings(v: &[&str]) -> Vec<String> {
    v.iter().map(|s| s.to_string()).collect()
}

fn sample() -> Configuration {
    Configuration {
        languages: vec![
            Element::new("rust", strings(&["rs"])),
            Element::new("python", strings(&["py", "python3"])),
        ],
        platforms: vec![Element::new("x86", strings(&["x86_64", "x64"])), Element::new("arm", vec![])],
        tools: vec![
            Tool { element: Element::new("docker", strings(&["dockerfile"])), filename: "Dockerfile".to_string() },
            Tool { element: Element::new("just", strings(&["justfile"])), filename: "justfile".to_string() },
        ],
    }
}

#[test]
fn language_found_by_name_and_by_each_alias() {
    let cfg = sample();
    let by_name = cfg.find_language("python").unwrap();
    for alias in ["py", "python3"] {
        let by_alias = cfg.find_language(alias).unwrap();
        assert_eq!(by_alias.name, by_name.name);
        assert_eq!(by_alias.aliases, by_name.aliases);
    }
    assert_eq!(by_name.name, "python");
}

#[test]
fn platform_found_by_name_and_by_each_alias() {
    let cfg = sample();
    for n in ["x86", "x86_64", "x64"] {
        let p = cfg.find_platform(n).unwrap();
        assert_eq!(p.name, "x86");
        assert_eq!(p.aliases, strings(&["x86_64", "x64"]));
    }
}

#[test]
fn tool_found_by_name_and_by_alias() {
    let cfg = sample();
    let a = cfg.find_tool("docker").unwrap();
    let b = cfg.find_tool("dockerfile").unwrap();
    assert_eq!(a.element.name, "docker");
    assert_eq!(b.element.name, "docker");
    assert_eq!(b.filename, "Dockerfile");
}

#[test]
fn lookups_are_case_sensitive_and_exact() {
    let cfg = sample();
    assert!(cfg.find_tool("Docker").is_none());
    assert!(cfg.find_tool("dock").is_none());
    assert!(cfg.find_language("RS").is_none());
    assert!(cfg.find_platform("riscv").is_none());
}

#[test]
fn any_is_the_wildcard_whatever_the_registry_holds() {
    let empty = Configuration { languages: vec![], platforms: vec![], tools: vec![] };
    for cfg in [sample(), empty] {
        let l = cfg.find_language("any").unwrap();
        let p = cfg.find_platform("any").unwrap();
        assert_eq!(l.name, "any");
        assert!(l.aliases.is_empty());
        assert_eq!(p.name, "any");
        assert!(p.aliases.is_empty());
        assert!(cfg.find_tool("any").is_none());
    }
}

#[test]
fn first_match_wins() {
    let cfg = Configuration {
        languages: vec![Element::new("a", strings(&["x"])), Element::new("x", vec![])],
        platforms: vec![],
        tools: vec![],
    };
    assert_eq!(cfg.find_language("x").unwrap().name, "a");
}

#[test]
fn default_registry_contents() {
    let cfg = Configuration::default();
    assert_eq!(cfg.find_language("rs").unwrap().name, "rust");
    assert_eq!(cfg.find_platform("x64").unwrap().name, "x86");
    assert_eq!(cfg.find_tool(".drone.yml").unwrap().filename, ".drone.yml");
    assert_eq!(cfg.find_tool("dockerfile").unwrap().filename, "Dockerfile");
    assert_eq!(cfg.tools.len(), 2);
}

#[test]
fn default_element_is_any() {
    let e = Element::default();
    assert_eq!(e.name, "any");
    assert!(e.aliases.is_empty());
}

#[test]
fn configuration_path_under_root() {
    assert_eq!(Configuration::path("/home/u/.config/devenv"), "/home/u/.config/devenv/config.yml");
}

#[test]
fn create_arguments_resolve_aliases() {
    let cfg = sample();
    let a = devenv::create::Arguments::resolve(&cfg, "dockerfile", "x64", "rs", "body".to_string()).unwrap();
    assert_eq!(a.tool.element.name, "docker");
    assert_eq!(a.platform.name, "x86");
    assert_eq!(a.language.name, "rust");
    assert_eq!(a.data, "body");
}

#[test]
fn create_arguments_report_the_first_unknown() {
    let cfg = sample();
    let e = devenv::create::Arguments::resolve(&cfg, "make", "nowhere", "rs", String::new()).unwrap_err();
    assert_eq!(e.category, Category::Tool);
    assert_eq!(e.name, "make");
    let e = devenv::create::Arguments::resolve(&cfg, "docker", "nowhere", "cobol", String::new()).unwrap_err();
    assert_eq!(e.category, Category::Platform);
    assert_eq!(e.name, "nowhere");
    let e = devenv::create::Arguments::resolve(&cfg, "docker", "arm", "cobol", String::new()).unwrap_err();
    assert_eq!(e.category, Category::Language);
    assert_eq!(e.name, "cobol");
}

#[test]
fn generate_arguments_resolve_every_kind_in_order() {
    let cfg = sample();
    let kinds = strings(&["justfile", "docker"]);
    let a = devenv::generate::Arguments::resolve(&cfg, &kinds, "arm", "any").unwrap();
    let names: Vec<&str> = a.tools.iter().map(|t| t.element.name.as_str()).collect();
    assert_eq!(names, vec!["just", "docker"]);
    assert_eq!(a.platform.name, "arm");
    assert_eq!(a.language.name, "any");
}

#[test]
fn generate_arguments_stop_at_the_first_unknown_tool() {
    let cfg = sample();
    let kinds = strings(&["justfile", "make", "docker", "ci"]);
    let e = devenv::generate::Arguments::resolve(&cfg, &kinds, "nowhere", "cobol").unwrap_err();
    assert_eq!(e.category, Category::Tool);
    assert_eq!(e.name, "make");
}

#[test]
fn generate_arguments_with_no_kinds() {
    let cfg = sample();
    let a = devenv::generate::Arguments::resolve(&cfg, &vec![], "x64", "rs").unwrap();
    assert!(a.tools.is_empty());
    assert_eq!(a.platform.name, "x86");
}

#[test]
fn generate_arguments_fail_on_unknown_platform_or_language() {
    let cfg = sample();
    let kinds = strings(&["docker"]);
    let e = devenv::generate::Arguments::resolve(&cfg, &kinds, "mips", "go").unwrap_err();
    assert_eq!(e.category, Category::Platform);
    let e = devenv::generate::Arguments::resolve(&cfg, &kinds, "x86", "go").unwrap_err();
    assert_eq!(e.category, Category::Language);
    assert_eq!(e.name, "go");
}
