use mili_rust::data_files::{registry_list, tag_file};
use mili_rust::tags::{get_tags_data, init_tags_registry};

const REGISTRIES: &str = r#"{
    "minecraft:item": {
        "protocol_id": 7,
        "entries": {
            "minecraft:stone": { "protocol_id": 1 },
            "minecraft:air": { "protocol_id": 0 },
            "minecraft:odd": {},
            "minecraft:big": { "protocol_id": 4294967298 }
        }
    },
    "minecraft:block": { "entries": [] },
    "minecraft:fluid": {}
}"#;

#[test]
fn registry_list_reads_ids_and_names() {
    let (ids, entries) = registry_list(REGISTRIES);
    // serde_json's map walks its keys in order.
    let regs: Vec<&str> = ids.iter().map(|r| r.registry.as_str()).collect();
    assert_eq!(regs, vec!["minecraft:block", "minecraft:fluid", "minecraft:item"]);
    assert!(ids[0].entries.is_empty());
    assert!(ids[1].entries.is_empty());
    let item: Vec<(&str, i32)> = ids[2].entries.iter().map(|e| (e.name.as_str(), e.id)).collect();
    // An id is taken by its low 32 bits; an entry without one is left out.
    assert_eq!(item, vec![("minecraft:air", 0), ("minecraft:big", 2), ("minecraft:stone", 1)]);
    assert_eq!(entries.len(), 3);
    assert!(entries[0].entries.is_empty());
    assert_eq!(
        entries[2].entries,
        vec!["minecraft:air", "minecraft:big", "minecraft:odd", "minecraft:stone"]
    );
}

#[test]
fn registry_list_of_no_object_is_empty() {
    let (ids, entries) = registry_list("not json");
    assert!(ids.is_empty() && entries.is_empty());
    let (ids, entries) = registry_list("[1, 2]");
    assert!(ids.is_empty() && entries.is_empty());
}

#[test]
fn tag_file_reads_tags_and_values() {
    let tags = tag_file(
        r##"{ "item": { "logs": ["minecraft:oak", 3, "#minecraft:birch"], "odd": 5 }, "block": 1 }"##,
    );
    assert_eq!(tags.len(), 2);
    assert_eq!(tags[0].registry, "block");
    assert!(tags[0].tags.is_none());
    assert_eq!(tags[1].registry, "item");
    let item = tags[1].tags.as_ref().unwrap();
    assert_eq!(item[0].name, "logs");
    assert_eq!(
        item[0].values,
        Some(vec![Some("minecraft:oak".to_string()), None, Some("#minecraft:birch".to_string())])
    );
    assert_eq!(item[1].name, "odd");
    assert!(item[1].values.is_none());
    assert!(tag_file("{").is_empty());
}

#[test]
fn tags_from_the_texts() {
    let (ids, _) = registry_list(REGISTRIES);
    let sources = tag_file(r##"{ "fluid": {}, "item": { "base": ["minecraft:stone", "#minecraft:air", "minecraft:none"] } }"##);
    let play = init_tags_registry(&sources, &ids);
    assert_eq!(play.len(), 1);
    assert_eq!(play[0].registry, "minecraft:item");
    assert_eq!(play[0].tags[0].name, "minecraft:base");
    assert_eq!(play[0].tags[0].ids, vec![1, 0]);
    let config = get_tags_data(&sources, &ids, &Vec::new(), &Vec::new());
    // A registry with no tags gives no group.
    assert_eq!(config.len(), 1);
    assert_eq!(config[0].registry, "minecraft:item");
    assert_eq!(config[0].tags[0].ids, vec![1, 0]);
}
