use mili_rust::tags::{
    get_tags_data, init_tags_registry, parse_ident, registry_full_name, EntryId, JarRegistry,
    JarTag, JarTags, RegistryIds, RegistryTags, TagGroup, TagSource,
};

fn s(x: &str) -> String {
    x.to_string()
}

fn ids(registry: &str, entries: &[(&str, i32)]) -> RegistryIds {
    RegistryIds {
        registry: s(registry),
        entries: entries.iter().map(|(n, i)| EntryId { name: s(n), id: *i }).collect(),
    }
}

fn tag(name: &str, values: &[Option<&str>]) -> TagSource {
    TagSource { name: s(name), values: Some(values.iter().map(|v| v.map(s)).collect()) }
}

fn flat(groups: &[TagGroup]) -> Vec<(String, Vec<(String, Vec<i32>)>)> {
    groups
        .iter()
        .map(|g| (g.registry.clone(), g.tags.iter().map(|t| (t.name.clone(), t.ids.clone())).collect()))
        .collect()
}

#[test]
fn identifiers() {
    assert_eq!(parse_ident(&s("stone")), Some(s("minecraft:stone")));
    assert_eq!(parse_ident(&s("minecraft:stone")), Some(s("minecraft:stone")));
    assert_eq!(parse_ident(&s("my_mod:blocks/red.brick-1")), Some(s("my_mod:blocks/red.brick-1")));
    assert_eq!(parse_ident(&s("mineable/axe")), Some(s("minecraft:mineable/axe")));
    assert_eq!(parse_ident(&s("Stone")), None);
    assert_eq!(parse_ident(&s("a:b:c")), None);
    assert_eq!(parse_ident(&s(":stone")), None);
    assert_eq!(parse_ident(&s("minecraft:")), None);
    assert_eq!(parse_ident(&s("mine/craft:stone")), None);
    assert_eq!(parse_ident(&s("")), None);
}

#[test]
fn registry_full_names() {
    assert_eq!(registry_full_name(&s("block")), s("minecraft:block"));
    assert_eq!(registry_full_name(&s("minecraft:item")), s("minecraft:item"));
}

#[test]
fn play_phase_tags() {
    let regs = vec![
        ids("minecraft:block", &[("minecraft:stone", 1), ("minecraft:dirt", 2)]),
        ids("minecraft:item", &[]),
    ];
    let sources = vec![
        RegistryTags {
            registry: s("block"),
            tags: Some(vec![
                tag(
                    "minecraft:mineable/pickaxe",
                    &[Some("minecraft:stone"), Some("#minecraft:dirt"), None, Some("minecraft:gone")],
                ),
                tag("minecraft:dirt_like", &[Some("minecraft:dirt")]),
                tag("minecraft:nothing", &[Some("minecraft:gone")]),
                tag("Bad Name", &[Some("minecraft:stone")]),
                TagSource { name: s("minecraft:not_a_list"), values: None },
            ]),
        },
        RegistryTags {
            registry: s("item"),
            tags: Some(vec![tag("minecraft:logs", &[Some("minecraft:oak_log")])]),
        },
        RegistryTags { registry: s("fluid"), tags: None },
    ];
    let groups = init_tags_registry(&sources, &regs);
    assert_eq!(
        flat(&groups),
        vec![(
            s("minecraft:block"),
            vec![
                (s("minecraft:dirt_like"), vec![2]),
                (s("minecraft:mineable/pickaxe"), vec![1, 2]),
            ]
        )]
    );
}

#[test]
fn play_phase_groups_are_ordered_and_later_registries_replace_earlier() {
    let regs = vec![
        ids("minecraft:item", &[("minecraft:a", 7)]),
        ids("minecraft:block", &[("minecraft:a", 3)]),
        // A later entry of the same registry takes the place of the earlier one.
        ids("minecraft:block", &[("minecraft:a", 4)]),
    ];
    let sources = vec![
        RegistryTags { registry: s("minecraft:item"), tags: Some(vec![tag("b", &[Some("minecraft:a")])]) },
        RegistryTags { registry: s("block"), tags: Some(vec![tag("z", &[Some("a")]), tag("y", &[Some("minecraft:a")])]) },
    ];
    let groups = init_tags_registry(&sources, &regs);
    assert_eq!(
        flat(&groups),
        vec![
            (s("minecraft:block"), vec![(s("minecraft:y"), vec![4])]),
            (s("minecraft:item"), vec![(s("minecraft:b"), vec![7])]),
        ]
    );
}

#[test]
fn configuration_phase_tags() {
    let regs = vec![
        ids("minecraft:block", &[("minecraft:stone", 1)]),
        ids("minecraft:damage_type", &[("minecraft:fall", 40), ("minecraft:lava", 41)]),
    ];
    let sources = vec![
        RegistryTags {
            registry: s("block"),
            tags: Some(vec![
                tag("minecraft:rocks", &[Some("minecraft:stone")]),
                tag("minecraft:empty", &[Some("minecraft:gone")]),
                TagSource { name: s("minecraft:not_a_list"), values: None },
                tag("Bad Name", &[Some("minecraft:stone")]),
            ]),
        },
        RegistryTags { registry: s("damage_type"), tags: Some(vec![tag("minecraft:is_fall", &[Some("minecraft:fall")])]) },
    ];
    let jar_regs = vec![JarRegistry {
        registry: s("minecraft:damage_type"),
        entries: vec![s("minecraft:fall"), s("minecraft:magic")],
    }];
    let jar = vec![
        JarTags {
            registry: s("minecraft:damage_type"),
            tags: vec![
                JarTag { name: s("minecraft:bypasses_armor"), values: vec![s("minecraft:magic"), s("#minecraft:lava")] },
                JarTag { name: s("minecraft:is_fall"), values: vec![s("minecraft:fall")] },
                JarTag { name: s("minecraft:none"), values: vec![s("minecraft:gone")] },
            ],
        },
        JarTags {
            registry: s("minecraft:banner_pattern"),
            tags: vec![JarTag { name: s("minecraft:no_item"), values: vec![s("minecraft:x")] }],
        },
    ];
    let groups = get_tags_data(&sources, &regs, &jar, &jar_regs);
    assert_eq!(
        flat(&groups),
        vec![
            (
                s("minecraft:block"),
                vec![
                    (s("minecraft:empty"), vec![]),
                    (s("minecraft:not_a_list"), vec![]),
                    (s("minecraft:rocks"), vec![1]),
                    (s("minecraft:unknown"), vec![1]),
                ]
            ),
            (
                s("minecraft:damage_type"),
                vec![
                    // The jar's entries give `magic` index 1; `lava` is only in
                    // the registry list; `fall` is index 0 of the jar.
                    (s("minecraft:bypasses_armor"), vec![1, 41]),
                    (s("minecraft:is_fall"), vec![0]),
                ]
            ),
        ]
    );
}

#[test]
fn configuration_phase_jar_only_registry() {
    let jar_regs = vec![JarRegistry {
        registry: s("minecraft:instrument"),
        entries: vec![s("minecraft:ponder"), s("minecraft:sing")],
    }];
    let jar = vec![JarTags {
        registry: s("minecraft:instrument"),
        tags: vec![JarTag { name: s("minecraft:goat_horns"), values: vec![s("minecraft:sing"), s("minecraft:ponder")] }],
    }];
    let groups = get_tags_data(&vec![], &vec![], &jar, &jar_regs);
    assert_eq!(
        flat(&groups),
        vec![(s("minecraft:instrument"), vec![(s("minecraft:goat_horns"), vec![1, 0])])]
    );
}
