use std::collections::HashMap;

use devenv::files::{fetch_step, record_path, tool_dir};
use devenv::{render, DevFile, Element, FetchStep, StoreError, Template, Tool};

const ROOT: &str = "/data/devenv";

fn tool(name: &str, filename: &str) -> Tool {
    Tool { element: Element::new(name, vec![]), filename: filename.to_string() }
}

fn record(t: &Tool, platform: &str, language: &str, body: &str) -> DevFile {
    DevFile {
        language: Element::new(language, vec![]),
        platform: Element::new(platform, vec![]),
        tool: t.clone(),
        data: body.to_string(),
    }
}

/// Stores a record the way the create command does, in a map standing for the disk.
fn create(disk: &mut HashMap<String, Vec<u8>>, r: &DevFile) {
    disk.insert(r.storage_path(ROOT), r.encode());
}

/// Runs a lookup against the map, counting the probes made.
fn fetch(
    disk: &HashMap<String, Vec<u8>>,
    t: &Tool,
    platform: &str,
    language: &str,
    probes: &mut Vec<String>,
) -> Result<DevFile, StoreError> {
    let platform = Element::new(platform, vec![]);
    let language = Element::new(language, vec![]);
    let mut exact = None;
    let mut fallback = None;
    loop {
        match fetch_step(ROOT, t, &platform, &language, exact, fallback) {
            FetchStep::Probe(p) => {
                let found = disk.contains_key(&p);
                probes.push(p);
                if exact.is_none() {
                    exact = Some(found);
                } else {
                    fallback = Some(found);
                }
            }
            FetchStep::Read(p) => return DevFile::decode(&disk[&p]),
            FetchStep::Fail(e) => return Err(e),
        }
    }
}

#[test]
fn storage_layout() {
    let t = tool("docker", "Dockerfile");
    assert_eq!(tool_dir(ROOT, &t), "/data/devenv/docker");
    assert_eq!(record_path(ROOT, &t, &Element::new("x86", vec![]), "rust"), "/data/devenv/docker/x86-rust.bc");
    let r = record(&t, "arm", "go", "");
    assert_eq!(r.storage_path(ROOT), "/data/devenv/docker/arm-go.bc");
}

#[test]
fn round_trip_keeps_every_field() {
    let t = Tool {
        element: Element::new("drone", vec!["drone.yml".to_string(), ".drone.yml".to_string()]),
        filename: ".drone.yml".to_string(),
    };
    let r = DevFile {
        language: Element::new("python", vec!["py".to_string()]),
        platform: Element::new("x86", vec!["x86_64".to_string(), "x64".to_string()]),
        tool: t,
        data: "kind: pipeline\nname: {ProjectName}\n\u{e9}\u{1F600}".to_string(),
    };
    let back = DevFile::decode(&r.encode()).unwrap();
    assert_eq!(back.language.name, "python");
    assert_eq!(back.language.aliases, vec!["py".to_string()]);
    assert_eq!(back.platform.aliases, vec!["x86_64".to_string(), "x64".to_string()]);
    assert_eq!(back.tool.element.name, "drone");
    assert_eq!(back.tool.element.aliases, vec!["drone.yml".to_string(), ".drone.yml".to_string()]);
    assert_eq!(back.tool.filename, ".drone.yml");
    assert_eq!(back.data, r.data);
}

#[test]
fn round_trip_of_empty_fields() {
    let r = record(&tool("", ""), "", "", "");
    let bytes = r.encode();
    assert!(!bytes.is_empty());
    let back = DevFile::decode(&bytes).unwrap();
    assert_eq!(back.data, "");
    assert_eq!(back.tool.element.name, "");
}

#[test]
fn encoding_holds_the_body_bytes() {
    let r = record(&tool("just", "justfile"), "x86", "any", "build:\n\tcargo build");
    let bytes = r.encode();
    let body = b"build:\n\tcargo build";
    assert!(bytes.windows(body.len()).any(|w| w == body));
    assert!(bytes.windows(8).any(|w| w == b"justfile"));
}

#[test]
fn corrupt_bytes_fail_to_decode() {
    let bytes = record(&tool("docker", "Dockerfile"), "x86", "rust", "FROM base").encode();
    assert!(matches!(DevFile::decode(&bytes[..bytes.len() - 1].to_vec()), Err(StoreError::CorruptRecord)));
    let mut longer = bytes.clone();
    longer.push(0);
    assert!(matches!(DevFile::decode(&longer), Err(StoreError::CorruptRecord)));
    assert!(matches!(DevFile::decode(&vec![]), Err(StoreError::CorruptRecord)));
    assert!(matches!(DevFile::decode(&vec![3, 0xff, 0xfe, 0xfd]), Err(StoreError::CorruptRecord)));
}

#[test]
fn exact_record_is_read_without_probing_the_fallback() {
    let t = tool("docker", "Dockerfile");
    let mut disk = HashMap::new();
    create(&mut disk, &record(&t, "x86", "rust", "exact"));
    create(&mut disk, &record(&t, "x86", "any", "fallback"));
    let mut probes = vec![];
    let r = fetch(&disk, &t, "x86", "rust", &mut probes).unwrap();
    assert_eq!(r.data, "exact");
    assert_eq!(probes, vec!["/data/devenv/docker/x86-rust.bc".to_string()]);
}

#[test]
fn fetch_step_reads_exact_whatever_is_known_of_the_fallback() {
    let t = tool("docker", "Dockerfile");
    let p = Element::new("x86", vec![]);
    let l = Element::new("rust", vec![]);
    for fb in [None, Some(true), Some(false)] {
        match fetch_step(ROOT, &t, &p, &l, Some(true), fb) {
            FetchStep::Read(path) => assert_eq!(path, "/data/devenv/docker/x86-rust.bc"),
            other => panic!("unexpected step {:?}", other),
        }
    }
}

#[test]
fn missing_language_falls_back_to_any() {
    let t = tool("docker", "Dockerfile");
    let mut disk = HashMap::new();
    create(&mut disk, &record(&t, "x86", "any", "generic"));
    let mut probes = vec![];
    let r = fetch(&disk, &t, "x86", "go", &mut probes).unwrap();
    assert_eq!(r.data, "generic");
    assert_eq!(r.language.name, "any");
    assert_eq!(probes.len(), 2);
}

#[test]
fn no_fallback_on_platform() {
    let t = tool("docker", "Dockerfile");
    let mut disk = HashMap::new();
    create(&mut disk, &record(&t, "any", "rust", "any platform"));
    let mut probes = vec![];
    assert!(matches!(fetch(&disk, &t, "arm", "rust", &mut probes), Err(StoreError::NoMatchingTemplate { .. })));
}

#[test]
fn scenario_docker_record_rendered_for_project() {
    let t = tool("docker", "Dockerfile");
    let mut disk = HashMap::new();
    create(&mut disk, &record(&t, "x86", "rust", "FROM base\n# {ProjectName}"));
    let mut probes = vec![];
    let r = fetch(&disk, &t, "x86", "rust", &mut probes).unwrap();
    let out = render(&r.data, &Template::from_project_name("My-App")).unwrap();
    assert_eq!(out, "FROM base\n# My-App");
    assert_eq!(r.tool.filename, "Dockerfile");
}

#[test]
fn scenario_just_any_language_record() {
    let t = tool("just", "justfile");
    let mut disk = HashMap::new();
    create(&mut disk, &record(&t, "x86", "any", "default:\n\techo hi"));
    let mut probes = vec![];
    let r = fetch(&disk, &t, "x86", "python", &mut probes).unwrap();
    assert_eq!(r.language.name, "any");
    assert_eq!(r.data, "default:\n\techo hi");
}

#[test]
fn scenario_drone_total_miss() {
    let t = tool("drone", ".drone.yml");
    let mut disk: HashMap<String, Vec<u8>> = HashMap::new();
    create(&mut disk, &record(&tool("docker", "Dockerfile"), "arm", "go", "other tool"));
    let before = disk.clone();
    let mut probes = vec![];
    match fetch(&disk, &t, "arm", "go", &mut probes) {
        Err(StoreError::NoMatchingTemplate { tool, platform, language }) => {
            assert_eq!(tool, "drone");
            assert_eq!(platform, "arm");
            assert_eq!(language, "go");
        }
        other => panic!("unexpected {:?}", other.map(|r| r.data)),
    }
    assert_eq!(disk, before);
    assert_eq!(
        probes,
        vec!["/data/devenv/drone/arm-go.bc".to_string(), "/data/devenv/drone/arm-any.bc".to_string()]
    );
}

#[test]
fn huge_length_prefix_is_corrupt() {
    let mut bytes = vec![253u8];
    bytes.extend_from_slice(&[0xFF; 8]);
    assert!(matches!(DevFile::decode(&bytes), Err(StoreError::CorruptRecord)));
    let mut list = vec![3u8, b'a', b'b', b'c', 253];
    list.extend_from_slice(&[0xFF; 8]);
    assert!(matches!(DevFile::decode(&list), Err(StoreError::CorruptRecord)));
    assert!(matches!(DevFile::decode(&vec![200u8, 1, 2]), Err(StoreError::CorruptRecord)));
}

#[test]
fn non_canonical_length_prefix_is_corrupt() {
    let bytes = record(&tool("docker", "Dockerfile"), "x86", "rust", "FROM base").encode();
    assert_eq!(bytes[0], 4);
    let mut other = vec![251u8, 4, 0];
    other.extend_from_slice(&bytes[1..]);
    assert!(matches!(DevFile::decode(&other), Err(StoreError::CorruptRecord)));
}

#[test]
fn corrupt_exact_record_does_not_fall_back() {
    let t = tool("docker", "Dockerfile");
    let mut disk = HashMap::new();
    create(&mut disk, &record(&t, "x86", "any", "fallback"));
    disk.insert(record(&t, "x86", "rust", "").storage_path(ROOT), vec![1, 2, 3]);
    let mut probes = vec![];
    assert!(matches!(fetch(&disk, &t, "x86", "rust", &mut probes), Err(StoreError::CorruptRecord)));
    assert_eq!(probes.len(), 1);
}
