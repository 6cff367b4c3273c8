use std::io::{Cursor, Write};

use mili_rust::jar_data::{
    jar_dynamic_registries, jar_dynamic_registry_names, jar_dynamic_tags, jar_tag_registry_names,
    registry_entry_name, tag_entry_name, version_jar, versions_jar_path,
};
use zip::write::SimpleFileOptions;

fn archive(files: &[(&str, &[u8])]) -> Vec<u8> {
    let mut w = zip::ZipWriter::new(Cursor::new(Vec::new()));
    let options = SimpleFileOptions::default().compression_method(zip::CompressionMethod::Stored);
    for (name, content) in files {
        w.start_file(*name, options).unwrap();
        w.write_all(content).unwrap();
    }
    w.finish().unwrap().into_inner()
}

#[test]
fn nested_jar_path() {
    assert_eq!(
        versions_jar_path("0f3c9a\t26.2\t26.2/server-26.2.jar\n"),
        Some("META-INF/versions/26.2/server-26.2.jar".to_string())
    );
    assert_eq!(
        versions_jar_path("x\ty\t \u{3000}a b.jar\r\n\tmore"),
        Some("META-INF/versions/a b.jar".to_string())
    );
    assert_eq!(versions_jar_path("x\ty\t"), Some("META-INF/versions/".to_string()));
    assert_eq!(versions_jar_path("only\tone tab"), None);
    assert_eq!(versions_jar_path(""), None);
}

#[test]
fn registry_entries_from_paths() {
    assert_eq!(
        registry_entry_name("damage_type", "data/minecraft/damage_type/fall.json"),
        Some("minecraft:fall".to_string())
    );
    assert_eq!(
        registry_entry_name("damage_type", "data/minecraft/damage_type/sub/in_fire.json"),
        Some("minecraft:in_fire".to_string())
    );
    assert_eq!(
        registry_entry_name("damage_type", "data/minecraft/damage_type/a.json.json"),
        Some("minecraft:a".to_string())
    );
    assert_eq!(registry_entry_name("damage_type", "data/minecraft/damage_type/fall.nbt"), None);
    assert_eq!(registry_entry_name("damage_type", "data/minecraft/damage_type_x/a.json"), None);
    assert_eq!(registry_entry_name("cat_variant", "data/minecraft/damage_type/a.json"), None);
}

#[test]
fn tag_names_from_paths() {
    assert_eq!(
        tag_entry_name("banner_pattern", "data/minecraft/tags/banner_pattern/pattern_item/flower.json"),
        Some("minecraft:pattern_item/flower".to_string())
    );
    assert_eq!(
        tag_entry_name("damage_type", "data/minecraft/tags/damage_type/is_fire.json"),
        Some("minecraft:is_fire".to_string())
    );
    assert_eq!(tag_entry_name("damage_type", "data/minecraft/damage_type/is_fire.json"), None);
}

#[test]
fn registries_read_from_the_jar() {
    let dynamic = jar_dynamic_registry_names();
    assert_eq!(dynamic.len(), 22);
    assert_eq!(dynamic[0], "cat_variant");
    assert!(dynamic.iter().any(|r| r == "damage_type"));
    assert!(!dynamic.iter().any(|r| r == "enchantment"));
    let tagged = jar_tag_registry_names();
    assert_eq!(tagged.len(), 11);
    assert_eq!(tagged[0], "banner_pattern");
    assert_eq!(tagged[10], "timeline");
}

#[test]
fn nested_version_jar() {
    let inner = archive(&[("data/minecraft/damage_type/fall.json", b"{}")]);
    let outer = archive(&[
        ("META-INF/versions.list", b"abc\t26.2\t26.2/server-26.2.jar\n"),
        ("META-INF/versions/26.2/server-26.2.jar", &inner),
    ]);
    assert_eq!(version_jar(&outer), Some(inner.clone()));
    // A jar that names no nested jar is the data jar itself.
    assert_eq!(version_jar(&inner), Some(inner.clone()));
    assert_eq!(version_jar(b"not a zip"), None);
}

#[test]
fn tags_of_the_jar() {
    let jar = archive(&[
        ("data/minecraft/tags/damage_type/is_fire.json", br##"{"values": ["minecraft:in_fire", 3, "#minecraft:lava"]}"##),
        ("data/minecraft/tags/damage_type/empty.json", br#"{"values": [1, 2]}"#),
        ("data/minecraft/tags/damage_type/broken.json", b"{"),
        ("data/minecraft/tags/instrument/goat_horns.json", br#"{"values": ["minecraft:sing"]}"#),
        ("data/minecraft/tags/damage_type/is_fire.json.bak", br#"{"values": ["x"]}"#),
    ]);
    let tags = jar_dynamic_tags(&jar);
    let flat: Vec<(String, Vec<(String, Vec<String>)>)> = tags
        .iter()
        .map(|g| (g.registry.clone(), g.tags.iter().map(|t| (t.name.clone(), t.values.clone())).collect()))
        .collect();
    assert_eq!(
        flat,
        vec![
            (
                "minecraft:damage_type".to_string(),
                vec![("minecraft:is_fire".to_string(), vec!["minecraft:in_fire".to_string(), "#minecraft:lava".to_string()])]
            ),
            ("minecraft:instrument".to_string(), vec![("minecraft:goat_horns".to_string(), vec!["minecraft:sing".to_string()])]),
        ]
    );
    assert!(jar_dynamic_tags(b"not a zip").is_empty());
}

#[test]
fn dynamic_registries_of_the_jar() {
    let jar = archive(&[
        ("data/minecraft/damage_type/lava.json", br#"{"exhaustion": 0.1}"#),
        ("data/minecraft/damage_type/fall.json", br#"{"exhaustion": 0.0}"#),
        ("data/minecraft/damage_type/bad.json", b"{"),
        ("data/minecraft/instrument/sing.json", b"{}"),
    ]);
    let regs = jar_dynamic_registries(&jar);
    let flat: Vec<(String, Vec<String>)> =
        regs.iter().map(|r| (r.registry.clone(), r.entries.iter().map(|e| e.name.clone()).collect())).collect();
    assert_eq!(
        flat,
        vec![
            ("minecraft:damage_type".to_string(), vec!["minecraft:fall".to_string(), "minecraft:lava".to_string()]),
            ("minecraft:instrument".to_string(), vec!["minecraft:sing".to_string()]),
        ]
    );
    assert_eq!(regs[0].entries[0].json, r#"{"exhaustion": 0.0}"#);
}
