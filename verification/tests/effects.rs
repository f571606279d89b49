use asset_registry::effects::{
    asset_files, content_path, effect_kind, find_effects, same_text, Effect, EffectKind,
};
use asset_registry::error::{MAGIC_END, MAGIC_START};
use asset_registry::index::NameIndexFlagged;
use asset_registry::record::{AssetData, Dependencies};
use asset_registry::registry::AssetRegistry;

fn data(package_name: usize, asset_name: usize, asset_class: usize) -> AssetData {
    AssetData {
        object_path: NameIndexFlagged(0, None),
        package_path: NameIndexFlagged(0, None),
        asset_class: NameIndexFlagged(asset_class, None),
        package_name: NameIndexFlagged(package_name, None),
        asset_name: NameIndexFlagged(asset_name, Some(1)),
        tag_meta: 0,
        bundle_count: 0,
        chunk_ids: vec![],
        flags: 0,
    }
}

fn registry(names: &[&str], asset_data: Vec<AssetData>) -> AssetRegistry {
    AssetRegistry {
        version: [0; 16],
        unknown1: 0,
        unknown2: 0,
        unknown3: 0,
        unknown4: 0,
        unknown5: 0,
        idk: vec![0; names.len()],
        names: names.iter().map(|n| n.to_string()).collect(),
        magic_start: MAGIC_START,
        unknown7: 0,
        unknown8: 0,
        unknown9: 0,
        unknown10: 0,
        texts: vec![],
        numberless_names: vec![],
        names_idk: vec![],
        assets: vec![],
        export_paths: vec![],
        ansi_strings: vec![],
        wide_strings: vec![],
        pairs: vec![],
        magic_end: MAGIC_END,
        asset_data,
        dependencies: Dependencies {
            dependencies_size: 0,
            dependencies: vec![],
            package_data_buffer_size: 0,
        },
    }
}

#[test]
fn same_text_compares_strings() {
    assert!(same_text("", ""));
    assert!(same_text("abc", "abc"));
    assert!(same_text("é€", "é€"));
    assert!(!same_text("abc", "abd"));
    assert!(!same_text("abc", "ab"));
    assert!(!same_text("", "a"));
}

#[test]
fn effect_kinds_by_class() {
    assert_eq!(effect_kind("ParticleSystem"), Some(EffectKind::Particle));
    assert_eq!(effect_kind("NiagaraSystem"), Some(EffectKind::Niagara));
    assert_eq!(effect_kind("particlesystem"), None);
    assert_eq!(effect_kind("ParticleSystems"), None);
    assert_eq!(effect_kind("Blueprint"), None);
    assert_eq!(effect_kind(""), None);
}

#[test]
fn effects_are_found_in_order() {
    let names = ["ParticleSystem", "NiagaraSystem", "Texture2D", "/Game/A", "A", "/Game/B", "B"];
    let r = registry(
        &names,
        vec![data(3, 4, 1), data(5, 6, 2), data(5, 6, 0), data(3, 6, 1)],
    );
    assert_eq!(
        find_effects(&r),
        Some(vec![
            Effect { kind: EffectKind::Niagara, package_name: 3, asset_name: 4 },
            Effect { kind: EffectKind::Particle, package_name: 5, asset_name: 6 },
            Effect { kind: EffectKind::Niagara, package_name: 3, asset_name: 6 },
        ])
    );
}

#[test]
fn no_effects_in_an_empty_registry() {
    assert_eq!(find_effects(&registry(&[], vec![])), Some(vec![]));
    assert_eq!(find_effects(&registry(&["Texture2D"], vec![data(0, 0, 0)])), Some(vec![]));
}

#[test]
fn a_name_outside_the_table_gives_no_answer() {
    let names = ["ParticleSystem", "x"];
    assert_eq!(find_effects(&registry(&names, vec![data(2, 1, 0)])), None);
    assert_eq!(find_effects(&registry(&names, vec![data(1, 2, 0)])), None);
    assert_eq!(find_effects(&registry(&names, vec![data(1, 1, 2)])), None);
    assert_eq!(find_effects(&registry(&names, vec![data(1, 1, 1), data(1, 1, 9)])), None);
    assert!(find_effects(&registry(&names, vec![data(1, 1, 1)])).is_some());
}

#[test]
fn content_paths() {
    assert_eq!(
        content_path("/Game/Effects/Fire"),
        Some("FSD/Content/Effects/Fire".to_string())
    );
    assert_eq!(content_path("/Game/"), Some("FSD/Content/".to_string()));
    assert_eq!(content_path("/Game/é€"), Some("FSD/Content/é€".to_string()));
    assert_eq!(content_path("/Game"), None);
    assert_eq!(content_path("/Engine/Effects"), None);
    assert_eq!(content_path("Game/Effects/Fire"), None);
    assert_eq!(content_path(""), None);
}

#[test]
fn asset_file_names() {
    assert_eq!(
        asset_files("/Game/Effects/Fire"),
        Some((
            "FSD/Content/Effects/Fire.uasset".to_string(),
            "FSD/Content/Effects/Fire.uexp".to_string()
        ))
    );
    assert_eq!(asset_files("/Script/Engine"), None);
}
