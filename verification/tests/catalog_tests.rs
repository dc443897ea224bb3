use mas_installer::catalog::{
    AssetRole, GHAsset, GHRelease, ReleaseData, asset_matches_role, matches_def_ver_name,
    matches_dlx_ver_name, matches_spr_name, release_catalog_url, resolve_release,
};
use mas_installer::errors::InstallerError;

fn asset(name: &str, size: u64, url: &str) -> GHAsset {
    GHAsset { name: name.to_string(), size, browser_download_url: url.to_string() }
}

fn good_asset(name: &str) -> GHAsset {
    asset(name, 1024, "https://example.invalid/download.zip")
}

fn release(tag: &str, name: &str, assets: Vec<GHAsset>) -> GHRelease {
    GHRelease { tag_name: tag.to_string(), name: name.to_string(), assets }
}

#[test]
fn def_ver_pattern_accepts_standard_names() {
    assert!(matches_def_ver_name("Monika_After_Story-0.12.15-Mod.zip"));
    assert!(matches_def_ver_name("Monika_After_Story-1.2.3-Mod.zip"));
    assert!(matches_def_ver_name("Monika_After_Story-10.0.777-Mod.zip"));
}

#[test]
fn def_ver_pattern_rejects_other_names() {
    assert!(!matches_def_ver_name("Monika_After_Story-1.2.3-Mod-Dlx.zip"));
    assert!(!matches_def_ver_name("Monika_After_Story-1.2-Mod.zip"));
    assert!(!matches_def_ver_name("Monika_After_Story-1.2.3.4-Mod.zip"));
    assert!(!matches_def_ver_name("Monika_After_Story--Mod.zip"));
    assert!(!matches_def_ver_name("Monika_After_Story-1.2.3-Mod.zip.bak"));
    assert!(!matches_def_ver_name("monika_after_story-1.2.3-Mod.zip"));
    assert!(!matches_def_ver_name("Monika_After_Story-1.a.3-Mod.zip"));
    assert!(!matches_def_ver_name("spritepacks.zip"));
    assert!(!matches_def_ver_name(""));
}

#[test]
fn dlx_ver_pattern_accepts_enhanced_names() {
    assert!(matches_dlx_ver_name("Monika_After_Story-0.12.15-Mod-Dlx.zip"));
    assert!(!matches_dlx_ver_name("Monika_After_Story-0.12.15-Mod.zip"));
    assert!(!matches_dlx_ver_name("Monika_After_Story-0.12-Mod-Dlx.zip"));
}

#[test]
fn spr_pattern_is_exact() {
    assert!(matches_spr_name("spritepacks.zip"));
    assert!(!matches_spr_name("spritepacks.zip2"));
    assert!(!matches_spr_name("Spritepacks.zip"));
    assert!(!matches_spr_name("spritepacks.zi"));
}

#[test]
fn role_dispatch_matches_patterns() {
    assert!(asset_matches_role(AssetRole::DefVer, "Monika_After_Story-1.2.3-Mod.zip"));
    assert!(asset_matches_role(AssetRole::DlxVer, "Monika_After_Story-1.2.3-Mod-Dlx.zip"));
    assert!(asset_matches_role(AssetRole::Spr, "spritepacks.zip"));
    assert!(!asset_matches_role(AssetRole::Spr, "Monika_After_Story-1.2.3-Mod.zip"));
}

#[test]
fn asset_validity_checks_name_size_and_url() {
    assert!(good_asset("a.zip").is_valid());
    assert!(!asset("", 10, "https://example.invalid/a.zip").is_valid());
    assert!(!asset("a.zip", 0, "https://example.invalid/a.zip").is_valid());
    assert!(!asset("a.zip", 10, "http://example.invalid/a.zip").is_valid());
    assert!(!asset("a.zip", 10, "https://example.invalid/a.tar").is_valid());
    assert!(!asset("a.zip", 10, "").is_valid());
}

#[test]
fn release_validity_checks_names_and_assets() {
    assert!(release("v1", "First", vec![good_asset("a.zip")]).is_valid());
    assert!(!release("", "First", vec![good_asset("a.zip")]).is_valid());
    assert!(!release("v1", "", vec![good_asset("a.zip")]).is_valid());
    assert!(!release("v1", "First", vec![]).is_valid());
}

#[test]
fn release_data_new_keeps_fields() {
    let d = ReleaseData::new(
        "v1".to_string(),
        "First".to_string(),
        good_asset("def.zip"),
        good_asset("dlx.zip"),
        good_asset("spr.zip"),
    );
    assert_eq!(d.version, "v1");
    assert_eq!(d.name, "First");
    assert_eq!(d.def_ver_asset.name, "def.zip");
    assert_eq!(d.dlx_ver_asset.name, "dlx.zip");
    assert_eq!(d.spr_asset.name, "spr.zip");
}

#[test]
fn resolution_binds_each_role_to_its_matching_asset() {
    let rel = release(
        "v0.12.15",
        "Release 0.12.15",
        vec![
            good_asset("checksums.txt.zip"),
            good_asset("Monika_After_Story-0.12.15-Mod.zip"),
            good_asset("Monika_After_Story-0.12.15-Mod-Dlx.zip"),
            good_asset("spritepacks.zip"),
        ],
    );
    let data = resolve_release(&rel).unwrap();
    assert_eq!(data.version, "v0.12.15");
    assert_eq!(data.name, "Release 0.12.15");
    assert_eq!(data.def_ver_asset.name, "Monika_After_Story-0.12.15-Mod.zip");
    assert_eq!(data.dlx_ver_asset.name, "Monika_After_Story-0.12.15-Mod-Dlx.zip");
    assert_eq!(data.spr_asset.name, "spritepacks.zip");
}

#[test]
fn resolution_is_independent_of_asset_order() {
    let names = [
        "spritepacks.zip",
        "Monika_After_Story-0.12.15-Mod-Dlx.zip",
        "checksums.txt.zip",
        "Monika_After_Story-0.12.15-Mod.zip",
    ];
    let rel = release(
        "v0.12.15",
        "Release 0.12.15",
        names.iter().map(|n| good_asset(n)).collect(),
    );
    let data = resolve_release(&rel).unwrap();
    assert_eq!(data.def_ver_asset.name, "Monika_After_Story-0.12.15-Mod.zip");
    assert_eq!(data.dlx_ver_asset.name, "Monika_After_Story-0.12.15-Mod-Dlx.zip");
    assert_eq!(data.spr_asset.name, "spritepacks.zip");
}

#[test]
fn resolution_fails_when_a_role_is_missing() {
    let rel = release(
        "v1",
        "First",
        vec![
            good_asset("Monika_After_Story-0.12.15-Mod.zip"),
            good_asset("Monika_After_Story-0.12.15-Mod-Dlx.zip"),
        ],
    );
    match resolve_release(&rel) {
        Err(InstallerError::CorruptedJSON(m)) => {
            assert_eq!(m, "An asset is missing from the release");
        },
        other => panic!("expected a corrupted-catalog error, got {:?}", other),
    }
}

#[test]
fn resolution_fails_on_invalid_release() {
    let rel = release("", "First", vec![good_asset("spritepacks.zip")]);
    match resolve_release(&rel) {
        Err(InstallerError::CorruptedJSON(m)) => {
            assert_eq!(m, "Latest release is invalid");
        },
        other => panic!("expected a corrupted-catalog error, got {:?}", other),
    }
}

#[test]
fn resolution_fails_on_invalid_matched_asset() {
    let rel = release(
        "v1",
        "First",
        vec![
            asset("Monika_After_Story-0.12.15-Mod.zip", 0, "https://example.invalid/a.zip"),
            good_asset("Monika_After_Story-0.12.15-Mod-Dlx.zip"),
            good_asset("spritepacks.zip"),
        ],
    );
    match resolve_release(&rel) {
        Err(InstallerError::CorruptedJSON(m)) => {
            assert_eq!(m, "Found a required asset, but it's invalid");
        },
        other => panic!("expected a corrupted-catalog error, got {:?}", other),
    }
}

#[test]
fn invalid_matched_asset_is_reported_before_a_missing_role() {
    // The scan hits the invalid bound asset before the end-of-scan check
    // finds the unbound role, so the invalid-asset message wins.
    let rel = release(
        "v1",
        "First",
        vec![
            asset("Monika_After_Story-1.2.3-Mod.zip", 0, "https://example.invalid/a.zip"),
            good_asset("Monika_After_Story-1.2.3-Mod-Dlx.zip"),
        ],
    );
    match resolve_release(&rel) {
        Err(InstallerError::CorruptedJSON(m)) => {
            assert_eq!(m, "Found a required asset, but it's invalid");
        },
        other => panic!("expected a corrupted-catalog error, got {:?}", other),
    }
}

#[test]
fn standard_variant_selects_standard_asset() {
    let rel = release(
        "v1.0.0",
        "First",
        vec![
            good_asset("Monika_After_Story-1.0.0-Mod.zip"),
            good_asset("Monika_After_Story-1.0.0-Mod-Dlx.zip"),
            good_asset("spritepacks.zip"),
        ],
    );
    let data = resolve_release(&rel).unwrap();
    let use_enhanced_variant = false;
    let chosen = if use_enhanced_variant { &data.dlx_ver_asset } else { &data.def_ver_asset };
    assert_eq!(chosen.name, "Monika_After_Story-1.0.0-Mod.zip");
}

#[test]
fn catalog_url_is_built_from_org_and_repo() {
    assert_eq!(
        release_catalog_url("Monika-After-Story", "MonikaModDev"),
        "https://api.github.com/repos/Monika-After-Story/MonikaModDev/releases/latest"
    );
}
