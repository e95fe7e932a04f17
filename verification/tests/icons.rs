use std::collections::HashSet;

use labolabo_app::icons::{Assets, Icon};

#[test]
fn every_icon_variant_resolves_through_the_asset_source() {
    let assets = Assets;
    for icon in Icon::all() {
        assert_eq!(assets.resolve(icon.asset_path()), Some(icon));
    }
}

#[test]
fn asset_paths_are_unique_and_namespaced() {
    let paths: Vec<&str> = Icon::all().iter().map(|icon| icon.asset_path()).collect();
    let mut seen = HashSet::new();
    for path in &paths {
        assert!(path.starts_with("icons/"), "{path:?} not under icons/");
        assert!(path.ends_with(".svg"), "{path:?} is not an svg");
        assert!(seen.insert(*path), "duplicate asset path: {path:?}");
    }
    assert_eq!(paths.len(), 15);
}

#[test]
fn unknown_path_resolves_to_none_not_an_error() {
    let assets = Assets;
    assert_eq!(assets.resolve("icons/does-not-exist.svg"), None);
    assert_eq!(assets.resolve(""), None);
}

#[test]
fn a_few_paths_by_name() {
    assert_eq!(Icon::NotFound.asset_path(), "icons/not-found.svg");
    assert_eq!(Icon::Check.asset_path(), "icons/check.svg");
    assert_eq!(Assets.resolve("icons/chevron.svg"), Some(Icon::Chevron));
}
