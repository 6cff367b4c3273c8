use mili_rust::registry::{
    parse_hex_color, BiomeEffects, BiomeId, ColorError, DimensionTypeId, MonsterSpawnLightLevel,
};
use mili_rust::registry_sync::{
    get_all_registry_entries, get_core_registry_names, plan_registry_sends, NamedCount,
    RegistryEntries, RegistrySource,
};

#[test]
fn hex_colors_parse() {
    assert_eq!(parse_hex_color("#ff8000"), Ok(0xff8000));
    assert_eq!(parse_hex_color("ff8000"), Ok(0xff8000));
    assert_eq!(parse_hex_color("##A0b0C0"), Ok(0xa0b0c0));
    assert_eq!(parse_hex_color("#80ff8000"), Ok(0x80ff8000));
    // A pair is read as `u32::from_str_radix` reads it: a leading `+` is allowed.
    assert_eq!(parse_hex_color("+f+f+f"), Ok(0x0f0f0f));
}

#[test]
fn hex_color_errors() {
    assert_eq!(parse_hex_color("#12345"), Err(ColorError::InvalidLength));
    assert_eq!(parse_hex_color(""), Err(ColorError::InvalidLength));
    assert_eq!(parse_hex_color("#gg0000"), Err(ColorError::BadRed));
    assert_eq!(parse_hex_color("#00gg00"), Err(ColorError::BadGreen));
    assert_eq!(parse_hex_color("#0000gg"), Err(ColorError::BadBlue));
    assert_eq!(parse_hex_color("#zz000000"), Err(ColorError::BadAlpha));
    assert_eq!(parse_hex_color("#00zz0000"), Err(ColorError::BadRed));
    assert_eq!(parse_hex_color("-10000"), Err(ColorError::BadRed));
}

#[test]
fn registry_ids() {
    assert_eq!(BiomeId::default().to_index(), 0);
    assert_eq!(BiomeId::from_index(7).to_index(), 7);
    assert_eq!(BiomeId::from_index((1usize << 32) + 5).to_index(), 5);
    assert_eq!(DimensionTypeId::from_index(70000).to_index(), 70000 % 65536);
    assert_eq!(DimensionTypeId::default().to_index(), 0);
}

#[test]
fn light_level_from_int() {
    assert_eq!(MonsterSpawnLightLevel::from(7), MonsterSpawnLightLevel::Int(7));
}

#[test]
fn default_biome_colors() {
    let e = BiomeEffects::default();
    assert_eq!(e.fog_color, 12638463);
    assert_eq!(e.sky_color, 7907327);
    assert_eq!(e.water_color, 4159204);
    assert_eq!(e.water_fog_color, 329011);
    assert_eq!(e.grass_color, None);
}

fn names(v: &[&str]) -> Vec<String> {
    v.iter().map(|s| s.to_string()).collect()
}

fn counts(v: &[(&str, usize)]) -> Vec<NamedCount> {
    v.iter().map(|(n, c)| NamedCount { name: n.to_string(), entries: *c }).collect()
}

#[test]
fn core_registry_list() {
    let core = get_core_registry_names();
    assert_eq!(core.len(), 80);
    assert_eq!(core[0], "minecraft:activity");
    assert!(core.contains(&"minecraft:dimension_type".to_owned()));
    assert_eq!(core[79], "minecraft:worldgen/biome");
    assert!(!core.contains(&"minecraft:damage_type".to_owned()));
}

#[test]
fn registry_sends_when_core_pack_known() {
    let listed = names(&["minecraft:block", "minecraft:damage_type", "minecraft:chat_type", "minecraft:foo"]);
    let jar = counts(&[("minecraft:damage_type", 5), ("minecraft:cat_variant", 3), ("minecraft:wolf_variant", 0)]);
    let codec = counts(&[
        ("minecraft:chat_type", 2),
        ("minecraft:dimension_type", 4),
        ("minecraft:worldgen/biome", 0),
        ("minecraft:enchantment", 10),
    ]);
    let plan = plan_registry_sends(true, &listed, &get_core_registry_names(), &jar, &codec);
    let got: Vec<(&str, RegistrySource)> = plan.iter().map(|s| (s.registry.as_str(), s.source)).collect();
    assert_eq!(
        got,
        vec![
            ("minecraft:block", RegistrySource::CoreNames),
            ("minecraft:damage_type", RegistrySource::Jar),
            ("minecraft:chat_type", RegistrySource::Codec),
            ("minecraft:foo", RegistrySource::Placeholder),
            ("minecraft:cat_variant", RegistrySource::Jar),
            ("minecraft:dimension_type", RegistrySource::CodecNames),
        ]
    );
}

#[test]
fn core_registry_of_the_jar_outside_the_list_is_sent_with_data() {
    // The one case where a core registry is sent with data: the jar has it
    // and the registry list does not.
    let listed = names(&["minecraft:block"]);
    let jar = counts(&[("minecraft:dimension_type", 2)]);
    let plan = plan_registry_sends(true, &listed, &get_core_registry_names(), &jar, &counts(&[]));
    let got: Vec<(&str, RegistrySource)> = plan.iter().map(|s| (s.registry.as_str(), s.source)).collect();
    assert_eq!(
        got,
        vec![("minecraft:block", RegistrySource::CoreNames), ("minecraft:dimension_type", RegistrySource::Jar)]
    );
}

#[test]
fn registry_sends_without_core_pack() {
    let codec = counts(&[("minecraft:chat_type", 2), ("minecraft:enchantment", 10), ("minecraft:dimension_type", 0)]);
    let plan = plan_registry_sends(false, &names(&["minecraft:block"]), &get_core_registry_names(), &counts(&[]), &codec);
    let got: Vec<(&str, RegistrySource)> = plan.iter().map(|s| (s.registry.as_str(), s.source)).collect();
    assert_eq!(
        got,
        vec![("minecraft:chat_type", RegistrySource::Codec), ("minecraft:dimension_type", RegistrySource::Codec)]
    );
}

#[test]
fn registry_list_is_sorted() {
    let st = |x: &str| x.to_string();
    let listed = vec![
        RegistryEntries {
            registry: st("minecraft:item"),
            entries: vec![st("minecraft:stone"), st("minecraft:apple"), st("minecraft:dirt")],
        },
        RegistryEntries { registry: st("minecraft:block"), entries: vec![st("minecraft:b"), st("minecraft:a")] },
        RegistryEntries { registry: st("minecraft:banner_pattern"), entries: vec![] },
    ];
    let sorted = get_all_registry_entries(&listed);
    let flat: Vec<(String, Vec<String>)> =
        sorted.iter().map(|r| (r.registry.clone(), r.entries.clone())).collect();
    assert_eq!(
        flat,
        vec![
            (st("minecraft:banner_pattern"), vec![]),
            (st("minecraft:block"), vec![st("minecraft:a"), st("minecraft:b")]),
            (st("minecraft:item"), vec![st("minecraft:apple"), st("minecraft:dirt"), st("minecraft:stone")]),
        ]
    );
}
