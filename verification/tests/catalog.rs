use std::time::Instant;

use cosmic_store::appstream::AppstreamCache;

#[test]
fn bench_yaml_parsing() {
    // A small sample YAML to test structure
    let yaml_data = r#"
---
Origin: test-origin
MediaBaseUrl: https://example.com/media
---
Type: desktop-application
ID: org.example.App1
Name:
  C: App One
Summary:
  C: The first app
Icon:
  cached:
    - name: app1_icon.png
      width: 64
      height: 64
---
Type: desktop-application
ID: org.example.App2
Name:
  C: App Two
Summary:
  C: The second app
    "#;

    let idx = AppstreamCache::default();
    let start = Instant::now();
    let result = idx.parse_yaml("test.yml", yaml_data.as_bytes());
    let duration = start.elapsed();

    assert!(result.is_ok());
    let (origin, infos, _) = result.unwrap();
    assert_eq!(origin, Some("test-origin".to_string()));
    assert_eq!(infos.len(), 2);

    println!("Parsed 2 YAML documents in {:?}", duration);
}

#[test]
fn bench_xml_parsing() {
    let xml_data = r#"<?xml version="1.0"?>
<components version="0.8" origin="test-origin">
  <component type="desktop-application">
    <id>org.example.App1</id>
    <name>App One</name>
    <summary>The first app</summary>
  </component>
  <component type="desktop-application">
    <id>org.example.App2</id>
    <name>App Two</name>
    <summary>The second app</summary>
  </component>
</components>
    "#;

    let idx = AppstreamCache::default();
    let start = Instant::now();
    let result = idx.parse_xml("test.xml", xml_data.as_bytes());
    let duration = start.elapsed();

    assert!(result.is_ok());
    let (origin, infos, _) = result.unwrap();
    assert_eq!(origin, Some("test-origin".to_string()));
    assert_eq!(infos.len(), 2);

    println!("Parsed 2 XML components in {:?}", duration);
}

#[test]
fn yaml_fields_are_extracted() {
    let yaml_data = "---\nOrigin: flathub\n---\nType: desktop-application\nID: org.example.Editor\nName:\n  C: Editor\nSummary:\n  C: Edits things\n";
    let idx = AppstreamCache::default();
    let (origin, infos, addons) = idx.parse_yaml("cat.yml", yaml_data.as_bytes()).unwrap();
    assert_eq!(origin, Some("flathub".to_string()));
    assert_eq!(addons.len(), 0);
    assert_eq!(infos.len(), 1);
    assert_eq!(infos[0].0.normalized(), "org.example.editor");
    assert_eq!(infos[0].1.name, "Editor");
    assert_eq!(infos[0].1.summary, "Edits things");
    assert_eq!(
        infos[0].1.kind,
        cosmic_store::app_info::AppKind::DesktopApplication
    );
}

#[test]
fn yaml_without_origin_or_components() {
    let idx = AppstreamCache::default();
    let (origin, infos, _) = idx.parse_yaml("empty.yml", b"just some text").unwrap();
    assert_eq!(origin, None);
    assert_eq!(infos.len(), 0);
}

#[test]
fn xml_fields_are_extracted() {
    let xml_data = "<components origin=\"remote\"><component><id>com.example.Tool</id><name>Tool</name><summary>A tool</summary></component></components>";
    let idx = AppstreamCache::default();
    let (origin, infos, _) = idx.parse_xml("cat.xml", xml_data.as_bytes()).unwrap();
    assert_eq!(origin, Some("remote".to_string()));
    assert_eq!(infos.len(), 1);
    assert_eq!(infos[0].0.normalized(), "com.example.tool");
    assert_eq!(infos[0].1.name, "Tool");
    assert_eq!(infos[0].1.summary, "A tool");
}
