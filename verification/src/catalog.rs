//! Release catalog model and the release resolver.
//!
//! A release carries a list of assets; a small fixed set of logical asset
//! roles (standard build, enhanced build, optional addon) is bound to
//! concrete assets by matching asset filenames against the role's fixed
//! filename pattern, in catalog order, first match wins.

use vstd::prelude::*;

use crate::ContentSize;
use crate::errors::InstallerError;
use crate::strutil::{
    is_digit, spec_starts_with, spec_ends_with, str_starts_with, str_ends_with,
};

verus! {

/// The fixed set of logical asset roles a release must provide.
#[derive(Clone, Copy, Debug)]
pub enum AssetRole {
    /// The standard build of the asset (`...-Mod.zip`).
    DefVer,
    /// The enhanced (deluxe) build of the asset (`...-Mod-Dlx.zip`).
    DlxVer,
    /// The optional spritepacks addon (`spritepacks.zip`).
    Spr,
}

/// Positions `i < j` split `s` into three non-empty runs of decimal digits
/// separated by dots: `digits '.' digits '.' digits`.
pub open spec fn is_version_split(s: Seq<char>, i: int, j: int) -> bool {
    &&& 0 < i
    &&& i + 1 < j
    &&& j + 1 < s.len()
    &&& s[i] == '.'
    &&& s[j] == '.'
    &&& forall|k: int| 0 <= k < s.len() && k != i && k != j ==> is_digit(#[trigger] s[k])
}

/// `s` is a three-component dotted version core, `digits.digits.digits`.
pub open spec fn is_version_core(s: Seq<char>) -> bool {
    exists|i: int, j: int| is_version_split(s, i, j)
}

/// The filename pattern of the standard build:
/// `Monika_After_Story-<version>-Mod.zip`.
pub open spec fn matches_def_ver(name: Seq<char>) -> bool {
    &&& spec_starts_with(name, "Monika_After_Story-"@)
    &&& spec_ends_with(name, "-Mod.zip"@)
    &&& name.len() >= "Monika_After_Story-"@.len() + "-Mod.zip"@.len()
    &&& is_version_core(
        name.subrange(
            "Monika_After_Story-"@.len() as int,
            name.len() - "-Mod.zip"@.len(),
        ),
    )
}

/// The filename pattern of the enhanced build:
/// `Monika_After_Story-<version>-Mod-Dlx.zip`.
pub open spec fn matches_dlx_ver(name: Seq<char>) -> bool {
    &&& spec_starts_with(name, "Monika_After_Story-"@)
    &&& spec_ends_with(name, "-Mod-Dlx.zip"@)
    &&& name.len() >= "Monika_After_Story-"@.len() + "-Mod-Dlx.zip"@.len()
    &&& is_version_core(
        name.subrange(
            "Monika_After_Story-"@.len() as int,
            name.len() - "-Mod-Dlx.zip"@.len(),
        ),
    )
}

/// The filename pattern of the optional addon: exactly `spritepacks.zip`.
pub open spec fn matches_spr(name: Seq<char>) -> bool {
    name == "spritepacks.zip"@
}

/// Which names bind to which role.
pub open spec fn role_matches(role: AssetRole, name: Seq<char>) -> bool {
    match role {
        AssetRole::DefVer => matches_def_ver(name),
        AssetRole::DlxVer => matches_dlx_ver(name),
        AssetRole::Spr => matches_spr(name),
    }
}

/// Whether `s` is a dotted three-component version core, by a single scan
/// for its two dots.
pub fn is_version_core_str(s: &str) -> (r: bool)
    ensures
        r == is_version_core(s@),
{
    let m: usize = s.unicode_len();
    let mut cnt: usize = 0;
    let mut p1: usize = 0;
    let mut p2: usize = 0;
    let mut i: usize = 0;
    while i < m
        invariant
            i <= m,
            m == s@.len(),
            cnt <= 2,
            forall|k: int| 0 <= k < i && s@[k] != '.' ==> is_digit(#[trigger] s@[k]),
            cnt == 0 ==> forall|k: int| 0 <= k < i ==> (#[trigger] s@[k]) != '.',
            cnt >= 1 ==> p1 < i && s@[p1 as int] == '.',
            cnt >= 2 ==> p1 < p2 && p2 < i && s@[p2 as int] == '.',
            cnt >= 1 ==> forall|k: int|
                0 <= k < i && (#[trigger] s@[k]) == '.' ==> (k == p1 || (cnt >= 2 && k == p2)),
        decreases m - i,
    {
        let c = s.get_char(i);
        if c == '.' {
            if cnt == 0 {
                p1 = i;
                cnt = 1;
            } else if cnt == 1 {
                p2 = i;
                cnt = 2;
            } else {
                // A third dot: no split can absorb three dots into two
                // separator positions.
                proof {
                    assert forall|a: int, b: int| !is_version_split(s@, a, b) by {
                        if is_version_split(s@, a, b) {
                            assert(s@[p1 as int] == '.' && !is_digit('.'));
                            assert(p1 == a || p1 == b);
                            assert(p2 == a || p2 == b);
                            assert(i == a || i == b);
                        }
                    }
                }
                return false;
            }
        } else if c < '0' || c > '9' {
            // Neither a digit nor a dot: no split tolerates this character.
            proof {
                assert forall|a: int, b: int| !is_version_split(s@, a, b) by {
                    if is_version_split(s@, a, b) {
                        assert(s@[i as int] == c);
                        if i == a || i == b {
                            assert(s@[i as int] == '.');
                        } else {
                            assert(is_digit(s@[i as int]));
                        }
                    }
                }
            }
            return false;
        }
        i += 1;
    }
    if cnt == 2 && p1 > 0 && p2 > p1 + 1 && p2 + 1 < m {
        proof {
            assert forall|k: int| 0 <= k < s@.len() && k != p1 && k != p2
                implies is_digit(#[trigger] s@[k]) by {
                assert(s@[k] != '.');
            }
            assert(is_version_split(s@, p1 as int, p2 as int));
        }
        true
    } else {
        proof {
            assert forall|a: int, b: int| !is_version_split(s@, a, b) by {
                if is_version_split(s@, a, b) {
                    assert(s@[a] == '.' && s@[b] == '.' && !is_digit('.'));
                    if cnt == 0 {
                    } else if cnt == 1 {
                        assert(a == p1 && b == p1);
                    } else {
                        assert(a == p1 && b == p2);
                        assert(!is_version_split(s@, p1 as int, p2 as int));
                    }
                }
            }
        }
        false
    }
}

/// Whether `name` matches the standard-build filename pattern.
pub fn matches_def_ver_name(name: &str) -> (r: bool)
    ensures
        r == matches_def_ver(name@),
{
    if !str_starts_with(name, "Monika_After_Story-") {
        return false;
    }
    if !str_ends_with(name, "-Mod.zip") {
        return false;
    }
    proof {
        reveal_strlit("Monika_After_Story-");
        reveal_strlit("-Mod.zip");
    }
    let m: usize = name.unicode_len();
    if m < 27 {
        return false;
    }
    let core = name.substring_char(19, m - 8);
    is_version_core_str(core)
}

/// Whether `name` matches the enhanced-build filename pattern.
pub fn matches_dlx_ver_name(name: &str) -> (r: bool)
    ensures
        r == matches_dlx_ver(name@),
{
    if !str_starts_with(name, "Monika_After_Story-") {
        return false;
    }
    if !str_ends_with(name, "-Mod-Dlx.zip") {
        return false;
    }
    proof {
        reveal_strlit("Monika_After_Story-");
        reveal_strlit("-Mod-Dlx.zip");
    }
    let m: usize = name.unicode_len();
    if m < 31 {
        return false;
    }
    let core = name.substring_char(19, m - 12);
    is_version_core_str(core)
}

/// Whether `name` matches the addon filename pattern.
pub fn matches_spr_name(name: &str) -> (r: bool)
    ensures
        r == matches_spr(name@),
{
    proof {
        reveal_strlit("spritepacks.zip");
    }
    let m: usize = name.unicode_len();
    if m != 15 {
        return false;
    }
    let b = str_starts_with(name, "spritepacks.zip");
    proof {
        if b {
            assert(name@.subrange(0, 15) =~= name@);
        } else {
            if name@ == "spritepacks.zip"@ {
                assert(name@.subrange(0, 15) =~= "spritepacks.zip"@);
            }
        }
    }
    b
}

/// Whether `name` matches the filename pattern of `role`.
pub fn asset_matches_role(role: AssetRole, name: &str) -> (r: bool)
    ensures
        r == role_matches(role, name@),
{
    match role {
        AssetRole::DefVer => matches_def_ver_name(name),
        AssetRole::DlxVer => matches_dlx_ver_name(name),
        AssetRole::Spr => matches_spr_name(name),
    }
}

/// A filename binds to at most one role: the three fixed patterns are
/// mutually exclusive.
pub proof fn lemma_roles_exclusive(name: Seq<char>)
    ensures
        !(matches_def_ver(name) && matches_dlx_ver(name)),
        !(matches_def_ver(name) && matches_spr(name)),
        !(matches_dlx_ver(name) && matches_spr(name)),
{
    reveal_strlit("Monika_After_Story-");
    reveal_strlit("-Mod.zip");
    reveal_strlit("-Mod-Dlx.zip");
    reveal_strlit("spritepacks.zip");
    if matches_def_ver(name) && matches_dlx_ver(name) {
        // The character five places before the end is 'd' by the one
        // suffix and 'x' by the other.
        let n = name.len() as int;
        assert(name.subrange(n - 8, n)[3] == name[n - 5]);
        assert(name.subrange(n - 12, n)[7] == name[n - 5]);
    }
    if matches_def_ver(name) && matches_spr(name) {
        assert(name.len() == 15);
    }
    if matches_dlx_ver(name) && matches_spr(name) {
        assert(name.len() == 15);
    }
}

/// An attachment of a release: a named downloadable archive.
#[derive(Debug)]
pub struct GHAsset {
    pub name: String,
    pub size: ContentSize,
    pub browser_download_url: String,
}

impl Clone for GHAsset {
    fn clone(&self) -> (r: Self)
        ensures
            r == *self,
    {
        GHAsset {
            name: self.name.clone(),
            size: self.size,
            browser_download_url: self.browser_download_url.clone(),
        }
    }
}

impl GHAsset {
    /// An asset is valid when it has a name, a non-zero size, and an HTTPS
    /// download link pointing at an archive.
    pub open spec fn spec_is_valid(&self) -> bool {
        &&& self.name@.len() > 0
        &&& self.size != 0
        &&& self.browser_download_url@.len() > 0
        &&& spec_starts_with(self.browser_download_url@, "https://"@)
        &&& spec_ends_with(self.browser_download_url@, ".zip"@)
    }

    /// Check if this asset is valid.
    pub fn is_valid(&self) -> (r: bool)
        ensures
            r == self.spec_is_valid(),
    {
        if self.name.as_str().is_empty() {
            return false;
        }
        if self.size == 0 {
            return false;
        }
        if self.browser_download_url.as_str().is_empty() {
            return false;
        }
        str_starts_with(self.browser_download_url.as_str(), "https://")
            && str_ends_with(self.browser_download_url.as_str(), ".zip")
    }
}

/// A release of the catalog: a version tag, a display name, and assets.
#[derive(Debug)]
pub struct GHRelease {
    pub tag_name: String,
    pub name: String,
    pub assets: Vec<GHAsset>,
}

impl GHRelease {
    /// A release is valid when both of its names are non-empty and it
    /// carries at least one asset.
    pub open spec fn spec_is_valid(&self) -> bool {
        &&& self.tag_name@.len() > 0
        &&& self.name@.len() > 0
        &&& self.assets@.len() != 0
    }

    /// Check if this release is valid.
    pub fn is_valid(&self) -> (r: bool)
        ensures
            r == self.spec_is_valid(),
    {
        !self.tag_name.as_str().is_empty() && !self.name.as_str().is_empty()
            && self.assets.len() != 0
    }
}

/// The data of one resolved release: one concrete asset per role.
#[derive(Debug)]
pub struct ReleaseData {
    pub version: String,
    pub name: String,
    pub def_ver_asset: GHAsset,
    pub dlx_ver_asset: GHAsset,
    pub spr_asset: GHAsset,
}

impl ReleaseData {
    /// Creates new release data.
    pub fn new(
        version: String,
        name: String,
        def_ver_asset: GHAsset,
        dlx_ver_asset: GHAsset,
        spr_asset: GHAsset,
    ) -> (r: Self)
        ensures
            r.version == version,
            r.name == name,
            r.def_ver_asset == def_ver_asset,
            r.dlx_ver_asset == dlx_ver_asset,
            r.spr_asset == spr_asset,
    {
        ReleaseData { version, name, def_ver_asset, dlx_ver_asset, spr_asset }
    }
}

/// The index of the first asset of `assets` whose name matches `role`,
/// if any: scan order is catalog order, first match wins.
pub open spec fn first_match(assets: Seq<GHAsset>, role: AssetRole) -> Option<int>
    decreases assets.len(),
{
    if assets.len() == 0 {
        None
    } else if role_matches(role, assets[0].name@) {
        Some(0)
    } else {
        match first_match(assets.drop_first(), role) {
            Some(i) => Some(i + 1),
            None => None,
        }
    }
}

/// `first_match` returns the smallest matching index, or `None` when no
/// asset matches.
pub proof fn lemma_first_match_is_first(assets: Seq<GHAsset>, role: AssetRole)
    ensures
        match first_match(assets, role) {
            Some(i) => 0 <= i < assets.len() && role_matches(role, assets[i].name@)
                && forall|j: int| 0 <= j < i ==> !role_matches(role, #[trigger] assets[j].name@),
            None => forall|j: int|
                0 <= j < assets.len() ==> !role_matches(role, #[trigger] assets[j].name@),
        },
    decreases assets.len(),
{
    if assets.len() > 0 && !role_matches(role, assets[0].name@) {
        let rest = assets.drop_first();
        lemma_first_match_is_first(rest, role);
        match first_match(rest, role) {
            Some(i) => {
                assert(rest[i] == assets[i + 1]);
                assert forall|j: int| 0 <= j < i + 1 implies !role_matches(
                    role,
                    #[trigger] assets[j].name@,
                ) by {
                    if j > 0 {
                        assert(rest[j - 1] == assets[j]);
                    }
                }
            },
            None => {
                assert forall|j: int| 0 <= j < assets.len() implies !role_matches(
                    role,
                    #[trigger] assets[j].name@,
                ) by {
                    if j > 0 {
                        assert(rest[j - 1] == assets[j]);
                    }
                }
            },
        }
    }
}

/// Appending one asset to the scanned prefix either keeps the existing
/// first match, or binds the new asset when it is the first to match.
pub proof fn lemma_first_match_push(assets: Seq<GHAsset>, role: AssetRole, a: GHAsset)
    ensures
        first_match(assets.push(a), role) == (match first_match(assets, role) {
            Some(i) => Some(i),
            None => if role_matches(role, a.name@) {
                Some(assets.len() as int)
            } else {
                None
            },
        }),
    decreases assets.len(),
{
    if assets.len() == 0 {
        assert(assets.push(a)[0] == a);
        assert(assets.push(a).drop_first() =~= Seq::<GHAsset>::empty());
        assert(first_match(Seq::<GHAsset>::empty(), role) is None);
        assert(first_match(assets, role) is None);
    } else {
        assert(assets.push(a)[0] == assets[0]);
        assert(assets.push(a).drop_first() =~= assets.drop_first().push(a));
        lemma_first_match_push(assets.drop_first(), role, a);
        if role_matches(role, assets[0].name@) {
            assert(first_match(assets.push(a), role) == Some(0int));
            assert(first_match(assets, role) == Some(0int));
        } else {
            assert(first_match(assets.push(a), role) == (
                match first_match(assets.drop_first().push(a), role) {
                    Some(i) => Some(i + 1),
                    None => None,
                }
            ));
            assert(first_match(assets, role) == (
                match first_match(assets.drop_first(), role) {
                    Some(i) => Some(i + 1),
                    None => None,
                }
            ));
        }
    }
}

/// When no asset of the scanned prefix matches `role` and the asset at
/// position `n` does, that asset is the role's first match.
pub proof fn lemma_first_match_binds_here(all: Seq<GHAsset>, role: AssetRole, n: int)
    requires
        0 <= n < all.len(),
        first_match(all.subrange(0, n), role) is None,
        role_matches(role, all[n].name@),
    ensures
        first_match(all, role) == Some(n),
{
    lemma_first_match_is_first(all.subrange(0, n), role);
    assert forall|j: int| 0 <= j < n implies !role_matches(
        role,
        #[trigger] all[j].name@,
    ) by {
        assert(all.subrange(0, n)[j] == all[j]);
    }
    lemma_first_match_is_first(all, role);
    match first_match(all, role) {
        Some(i) => {
            if i < n {
                assert(!role_matches(role, all[i].name@));
            } else if i > n {
                assert(!role_matches(role, all[n].name@));
            }
        },
        None => {
            assert(!role_matches(role, all[n].name@));
        },
    }
}

/// Resolution succeeds exactly when the release is structurally valid,
/// every role is matched by some asset, and the first matching asset of
/// every role is itself valid.
pub open spec fn resolution_succeeds(release: GHRelease) -> bool {
    &&& release.spec_is_valid()
    &&& first_match(release.assets@, AssetRole::DefVer) is Some
    &&& first_match(release.assets@, AssetRole::DlxVer) is Some
    &&& first_match(release.assets@, AssetRole::Spr) is Some
    &&& release.assets@[first_match(release.assets@, AssetRole::DefVer)->0].spec_is_valid()
    &&& release.assets@[first_match(release.assets@, AssetRole::DlxVer)->0].spec_is_valid()
    &&& release.assets@[first_match(release.assets@, AssetRole::Spr)->0].spec_is_valid()
}

/// Some role's first matching asset fails asset-level validation.
pub open spec fn some_first_match_invalid(release: GHRelease) -> bool {
    exists|role: AssetRole|
        {
            let fm = #[trigger] first_match(release.assets@, role);
            fm is Some && !release.assets@[fm->0].spec_is_valid()
        }
}

/// The message a failed resolution reports: a structurally invalid
/// release comes first, then an invalid bound asset (the scan hits it
/// before the end-of-scan check for unbound roles), then a missing role.
pub open spec fn resolution_error_message(release: GHRelease) -> Seq<char> {
    if !release.spec_is_valid() {
        "Latest release is invalid"@
    } else if some_first_match_invalid(release) {
        "Found a required asset, but it's invalid"@
    } else {
        "An asset is missing from the release"@
    }
}

/// The data a successful resolution returns: the first matching asset of
/// each role, under the release's version tag and display name.
pub open spec fn resolved_data(release: GHRelease) -> ReleaseData {
    ReleaseData {
        version: release.tag_name,
        name: release.name,
        def_ver_asset: release.assets@[first_match(release.assets@, AssetRole::DefVer)->0],
        dlx_ver_asset: release.assets@[first_match(release.assets@, AssetRole::DlxVer)->0],
        spr_asset: release.assets@[first_match(release.assets@, AssetRole::Spr)->0],
    }
}

/// Resolves a release to one concrete asset per role.
///
/// Assets are scanned in catalog order; each unmatched role tests the
/// asset's filename against its pattern, the first match binds the role,
/// and an asset is consumed by at most one role. Resolution fails with a
/// catalog-corruption error when the release is structurally invalid, when
/// a bound asset fails validation, or when, after scanning all assets,
/// some role is still unbound.
pub fn resolve_release(release: &GHRelease) -> (r: Result<ReleaseData, InstallerError>)
    ensures
        r is Ok <==> resolution_succeeds(*release),
        r matches Ok(data) ==> data == resolved_data(*release),
        r is Err ==> (r matches Err(InstallerError::CorruptedJSON(m)) && m@
            == resolution_error_message(*release)),
{
    if !release.is_valid() {
        return Err(InstallerError::CorruptedJSON("Latest release is invalid"));
    }

    let ghost all = release.assets@;
    let mut def_a: Option<GHAsset> = None;
    let mut dlx_a: Option<GHAsset> = None;
    let mut spr_a: Option<GHAsset> = None;

    let n: usize = release.assets.len();
    let mut idx: usize = 0;
    while idx < n
        invariant
            idx <= n,
            n == all.len(),
            all == release.assets@,
            release.spec_is_valid(),
            def_a is Some <==> first_match(all.subrange(0, idx as int), AssetRole::DefVer)
                is Some,
            dlx_a is Some <==> first_match(all.subrange(0, idx as int), AssetRole::DlxVer)
                is Some,
            spr_a is Some <==> first_match(all.subrange(0, idx as int), AssetRole::Spr) is Some,
            def_a matches Some(a) ==> {
                let fm = first_match(all.subrange(0, idx as int), AssetRole::DefVer);
                fm is Some && a == all[fm->0] && a.spec_is_valid()
            },
            dlx_a matches Some(a) ==> {
                let fm = first_match(all.subrange(0, idx as int), AssetRole::DlxVer);
                fm is Some && a == all[fm->0] && a.spec_is_valid()
            },
            spr_a matches Some(a) ==> {
                let fm = first_match(all.subrange(0, idx as int), AssetRole::Spr);
                fm is Some && a == all[fm->0] && a.spec_is_valid()
            },
        decreases n - idx,
    {
        let asset = &release.assets[idx];
        let ghost prefix = all.subrange(0, idx as int);
        let ghost prefix1 = all.subrange(0, idx as int + 1);
        proof {
            assert(prefix1 =~= prefix.push(all[idx as int]));
            lemma_first_match_push(prefix, AssetRole::DefVer, all[idx as int]);
            lemma_first_match_push(prefix, AssetRole::DlxVer, all[idx as int]);
            lemma_first_match_push(prefix, AssetRole::Spr, all[idx as int]);
            lemma_roles_exclusive(all[idx as int].name@);
        }
        if def_a.is_none() && matches_def_ver_name(asset.name.as_str()) {
            if !asset.is_valid() {
                proof {
                    lemma_first_match_binds_here(all, AssetRole::DefVer, idx as int);
                    assert(some_first_match_invalid(*release)) by {
                        let fm = first_match(release.assets@, AssetRole::DefVer);
                        assert(fm is Some && !release.assets@[fm->0].spec_is_valid());
                    }
                }
                return Err(InstallerError::CorruptedJSON(
                    "Found a required asset, but it's invalid",
                ));
            }
            def_a = Some(asset.clone());
        } else if dlx_a.is_none() && matches_dlx_ver_name(asset.name.as_str()) {
            if !asset.is_valid() {
                proof {
                    lemma_first_match_binds_here(all, AssetRole::DlxVer, idx as int);
                    assert(some_first_match_invalid(*release)) by {
                        let fm = first_match(release.assets@, AssetRole::DlxVer);
                        assert(fm is Some && !release.assets@[fm->0].spec_is_valid());
                    }
                }
                return Err(InstallerError::CorruptedJSON(
                    "Found a required asset, but it's invalid",
                ));
            }
            dlx_a = Some(asset.clone());
        } else if spr_a.is_none() && matches_spr_name(asset.name.as_str()) {
            if !asset.is_valid() {
                proof {
                    lemma_first_match_binds_here(all, AssetRole::Spr, idx as int);
                    assert(some_first_match_invalid(*release)) by {
                        let fm = first_match(release.assets@, AssetRole::Spr);
                        assert(fm is Some && !release.assets@[fm->0].spec_is_valid());
                    }
                }
                return Err(InstallerError::CorruptedJSON(
                    "Found a required asset, but it's invalid",
                ));
            }
            spr_a = Some(asset.clone());
        }
        idx += 1;
    }

    proof {
        assert(all.subrange(0, n as int) =~= all);
        assert(!some_first_match_invalid(*release)) by {
            assert forall|role: AssetRole|
                !{
                    let fm = #[trigger] first_match(release.assets@, role);
                    fm is Some && !release.assets@[fm->0].spec_is_valid()
                } by {
                match role {
                    AssetRole::DefVer => {},
                    AssetRole::DlxVer => {},
                    AssetRole::Spr => {},
                }
            }
        }
    }

    match (def_a, dlx_a, spr_a) {
        (Some(def_asset), Some(dlx_asset), Some(spr_asset)) => {
            Ok(ReleaseData::new(
                release.tag_name.clone(),
                release.name.clone(),
                def_asset,
                dlx_asset,
                spr_asset,
            ))
        },
        _ => Err(InstallerError::CorruptedJSON("An asset is missing from the release")),
    }
}

/// When each required role is matched by exactly one asset of a valid
/// release, and those assets are valid, resolution succeeds and returns
/// exactly those bindings: the result is fixed by which assets match,
/// independent of where they stand in the asset list.
pub proof fn lemma_resolution_binds_unique_assets(
    release: GHRelease,
    di: int,
    xi: int,
    si: int,
)
    requires
        release.spec_is_valid(),
        0 <= di < release.assets@.len(),
        0 <= xi < release.assets@.len(),
        0 <= si < release.assets@.len(),
        role_matches(AssetRole::DefVer, release.assets@[di].name@),
        role_matches(AssetRole::DlxVer, release.assets@[xi].name@),
        role_matches(AssetRole::Spr, release.assets@[si].name@),
        forall|j: int| 0 <= j < release.assets@.len() && j != di
            ==> !role_matches(AssetRole::DefVer, #[trigger] release.assets@[j].name@),
        forall|j: int| 0 <= j < release.assets@.len() && j != xi
            ==> !role_matches(AssetRole::DlxVer, #[trigger] release.assets@[j].name@),
        forall|j: int| 0 <= j < release.assets@.len() && j != si
            ==> !role_matches(AssetRole::Spr, #[trigger] release.assets@[j].name@),
        release.assets@[di].spec_is_valid(),
        release.assets@[xi].spec_is_valid(),
        release.assets@[si].spec_is_valid(),
    ensures
        resolution_succeeds(release),
        resolved_data(release).def_ver_asset == release.assets@[di],
        resolved_data(release).dlx_ver_asset == release.assets@[xi],
        resolved_data(release).spr_asset == release.assets@[si],
        resolved_data(release).version == release.tag_name,
        resolved_data(release).name == release.name,
{
    lemma_first_match_is_first(release.assets@, AssetRole::DefVer);
    lemma_first_match_is_first(release.assets@, AssetRole::DlxVer);
    lemma_first_match_is_first(release.assets@, AssetRole::Spr);
    assert(first_match(release.assets@, AssetRole::DefVer) == Some(di));
    assert(first_match(release.assets@, AssetRole::DlxVer) == Some(xi));
    assert(first_match(release.assets@, AssetRole::Spr) == Some(si));
}

/// A release in which some required role matches no asset at all never
/// resolves successfully.
pub proof fn lemma_missing_role_fails(release: GHRelease, role: AssetRole)
    requires
        forall|j: int| 0 <= j < release.assets@.len()
            ==> !role_matches(role, #[trigger] release.assets@[j].name@),
    ensures
        !resolution_succeeds(release),
{
    lemma_first_match_is_first(release.assets@, role);
    if first_match(release.assets@, role) is Some {
        let i = first_match(release.assets@, role)->0;
        assert(!role_matches(role, release.assets@[i].name@));
    }
}

/// A valid release in which some required role matches no asset fails
/// resolution with the missing-asset message, provided no role's first
/// matching asset is itself invalid: the scan reports an invalid bound
/// asset before the end-of-scan check finds the unbound role, so such
/// releases get the invalid-asset message instead and are left out here.
pub proof fn lemma_missing_role_message(release: GHRelease, role: AssetRole)
    requires
        release.spec_is_valid(),
        forall|j: int| 0 <= j < release.assets@.len()
            ==> !role_matches(role, #[trigger] release.assets@[j].name@),
        !some_first_match_invalid(release),
    ensures
        !resolution_succeeds(release),
        resolution_error_message(release) == "An asset is missing from the release"@,
{
    lemma_missing_role_fails(release, role);
}


/// The address of the release-catalog endpoint for the given
/// organization and repository.
pub fn release_catalog_url(org: &str, repo: &str) -> (r: String)
    ensures
        r@ == "https://api.github.com/repos/"@ + org@ + "/"@ + repo@ + "/releases/latest"@,
{
    let mut url = String::from_str("https://api.github.com/repos/");
    url.append(org);
    url.append("/");
    url.append(repo);
    url.append("/releases/latest");
    url
}


/// Two valid releases that carry the same uniquely-matching, valid
/// assets — wherever those assets stand in each asset list — resolve to
/// the same bindings.
pub proof fn lemma_resolution_order_independent(
    r1: GHRelease,
    r2: GHRelease,
    di1: int,
    xi1: int,
    si1: int,
    di2: int,
    xi2: int,
    si2: int,
)
    requires
        r1.spec_is_valid(),
        r2.spec_is_valid(),
        r1.tag_name == r2.tag_name,
        r1.name == r2.name,
        0 <= di1 < r1.assets@.len(),
        0 <= xi1 < r1.assets@.len(),
        0 <= si1 < r1.assets@.len(),
        0 <= di2 < r2.assets@.len(),
        0 <= xi2 < r2.assets@.len(),
        0 <= si2 < r2.assets@.len(),
        r1.assets@[di1] == r2.assets@[di2],
        r1.assets@[xi1] == r2.assets@[xi2],
        r1.assets@[si1] == r2.assets@[si2],
        role_matches(AssetRole::DefVer, r1.assets@[di1].name@),
        role_matches(AssetRole::DlxVer, r1.assets@[xi1].name@),
        role_matches(AssetRole::Spr, r1.assets@[si1].name@),
        forall|j: int| 0 <= j < r1.assets@.len() && j != di1
            ==> !role_matches(AssetRole::DefVer, #[trigger] r1.assets@[j].name@),
        forall|j: int| 0 <= j < r1.assets@.len() && j != xi1
            ==> !role_matches(AssetRole::DlxVer, #[trigger] r1.assets@[j].name@),
        forall|j: int| 0 <= j < r1.assets@.len() && j != si1
            ==> !role_matches(AssetRole::Spr, #[trigger] r1.assets@[j].name@),
        forall|j: int| 0 <= j < r2.assets@.len() && j != di2
            ==> !role_matches(AssetRole::DefVer, #[trigger] r2.assets@[j].name@),
        forall|j: int| 0 <= j < r2.assets@.len() && j != xi2
            ==> !role_matches(AssetRole::DlxVer, #[trigger] r2.assets@[j].name@),
        forall|j: int| 0 <= j < r2.assets@.len() && j != si2
            ==> !role_matches(AssetRole::Spr, #[trigger] r2.assets@[j].name@),
        r1.assets@[di1].spec_is_valid(),
        r1.assets@[xi1].spec_is_valid(),
        r1.assets@[si1].spec_is_valid(),
    ensures
        resolution_succeeds(r1),
        resolution_succeeds(r2),
        resolved_data(r1) == resolved_data(r2),
{
    lemma_resolution_binds_unique_assets(r1, di1, xi1, si1);
    lemma_resolution_binds_unique_assets(r2, di2, xi2, si2);
}

} // verus!
