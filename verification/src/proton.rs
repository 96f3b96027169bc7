//! GE-Proton release handling: which release asset is the installable
//! archive, how an installed copy is named, when a download conflicts with
//! an installed version, and when deleting one is allowed. Downloading and
//! unpacking are I/O and stay outside.

use vstd::prelude::*;
use vstd::string::StrSliceExecFns;
use vstd::string::StringExecFns;

use crate::paths::parent_spec;
use crate::strutil::{
    contains_seq, is_prefix_of, is_suffix_of, str_contains, str_ends_with, str_eq,
};

verus! {

/// One downloadable GE-Proton release: its tag, display name, publication
/// time, the archive's URL, and the archive size in bytes.
#[derive(Debug, Clone)]
pub struct GeProtonRelease {
    pub tag_name: String,
    pub name: String,
    pub published_at: String,
    pub download_url: String,
    pub size_bytes: u64,
}

/// One asset of a release, as the release listing reports it.
#[derive(Debug, Clone)]
pub struct ProtonAsset {
    pub name: String,
    pub download_url: String,
    pub size_bytes: u64,
}

/// The installable archive among a release's assets is the `.tar.gz` that
/// is not a checksum file.
pub open spec fn is_archive_name(name: Seq<char>) -> bool {
    is_suffix_of(".tar.gz"@, name) && !is_suffix_of(".sha512sum"@, name)
}

/// Whether an asset name is the installable archive.
pub fn is_proton_archive_asset(name: &str) -> (r: bool)
    ensures
        r == is_archive_name(name@),
{
    str_ends_with(name, ".tar.gz") && !str_ends_with(name, ".sha512sum")
}

/// Picks the first installable archive among a release's assets; absent
/// when the release has none.
pub fn pick_release_asset(assets: &Vec<ProtonAsset>) -> (r: Option<ProtonAsset>)
    ensures
        match r {
            Some(a) => exists|j: int|
                {
                    &&& 0 <= j < assets@.len()
                    &&& a == #[trigger] assets@[j]
                    &&& is_archive_name(assets@[j].name@)
                    &&& forall|j0: int| 0 <= j0 < j ==> !is_archive_name(
                        (#[trigger] assets@[j0]).name@,
                    )
                },
            None => forall|j: int| 0 <= j < assets@.len() ==> !is_archive_name(
                (#[trigger] assets@[j]).name@,
            ),
        },
{
    let n = assets.len();
    let mut i: usize = 0;
    while i < n
        invariant
            n == assets@.len(),
            i <= n,
            forall|j0: int| 0 <= j0 < i ==> !is_archive_name((#[trigger] assets@[j0]).name@),
        decreases n - i,
    {
        if is_proton_archive_asset(assets[i].name.as_str()) {
            let a = ProtonAsset {
                name: assets[i].name.clone(),
                download_url: assets[i].download_url.clone(),
                size_bytes: assets[i].size_bytes,
            };
            proof {
                assert(a == assets@[i as int]);
            }
            return Some(a);
        }
        i = i + 1;
    }
    None
}

/// The directory name an installed copy gets: a marker prefix before the
/// release tag, to tell our installs from Lutris-managed ones.
pub fn prefixed_install_name(tag_name: &str) -> (r: String)
    ensures
        r@ == "rustris-"@ + tag_name@,
{
    let mut r = "rustris-".to_owned();
    r.append(tag_name);
    r
}

/// A display name up to its source suffix: everything before the first
/// ` (`, the whole name when there is none.
pub open spec fn name_before_source(s: Seq<char>) -> Seq<char>
    decreases s.len(),
{
    if s.len() == 0 {
        s
    } else if is_prefix_of(" ("@, s) {
        Seq::empty()
    } else {
        seq![s[0]] + name_before_source(s.skip(1))
    }
}

/// Strips the ` (source)` suffix a disambiguated display name carries.
pub fn name_without_source(display_name: &str) -> (r: String)
    ensures
        r@ == name_before_source(display_name@),
{
    let n = display_name.unicode_len();
    let mut i: usize = 0;
    proof {
        reveal_strlit(" (");
        assert(display_name@.skip(0) =~= display_name@);
        assert(display_name@.subrange(0, 0) + name_before_source(display_name@)
            =~= name_before_source(display_name@));
    }
    while n >= 2 && i < n - 1
        invariant
            n == display_name@.len(),
            i <= n,
            name_before_source(display_name@) == display_name@.subrange(0, i as int)
                + name_before_source(display_name@.skip(i as int)),
        decreases n - i,
    {
        let window = display_name.substring_char(i, i + 2);
        proof {
            reveal_strlit(" (");
            assert(window@ =~= display_name@.skip(i as int).subrange(0, 2));
        }
        if str_eq(window, " (") {
            proof {
                assert(is_prefix_of(" ("@, display_name@.skip(i as int)));
                assert(name_before_source(display_name@.skip(i as int))
                    =~= Seq::<char>::empty());
                assert(name_before_source(display_name@) =~= display_name@.subrange(
                    0,
                    i as int,
                ));
            }
            return display_name.substring_char(0, i).to_owned();
        }
        proof {
            assert(display_name@.skip(i as int)[0] == display_name@[i as int]);
            assert(display_name@.skip(i as int).skip(1) =~= display_name@.skip(i + 1));
            assert(!is_prefix_of(" ("@, display_name@.skip(i as int)));
            assert(display_name@.subrange(0, i as int) + (seq![display_name@[i as int]]
                + name_before_source(display_name@.skip(i + 1))) =~= display_name@.subrange(
                0,
                i + 1,
            ) + name_before_source(display_name@.skip(i + 1)));
        }
        i = i + 1;
    }
    proof {
        reveal_strlit(" (");
        let rest = display_name@.skip(i as int);
        if rest.len() == 0 {
            assert(name_before_source(rest) =~= Seq::<char>::empty());
        } else {
            assert(rest.len() == 1);
            assert(!is_prefix_of(" ("@, rest));
            assert(rest.skip(1) =~= Seq::<char>::empty());
            assert(name_before_source(rest.skip(1)) =~= Seq::<char>::empty());
            assert(name_before_source(rest) =~= seq![rest[0]]);
            assert(rest[0] == display_name@[i as int]);
        }
        assert(name_before_source(display_name@) =~= display_name@);
    }
    display_name.to_owned()
}

/// Whether an installed version conflicts with a release tag: its display
/// name (source suffix aside) is the tag, or its path ends in the tag.
pub fn conflicts_with_tag(tag_name: &str, display_name: &str, path: &str) -> (r: bool)
    ensures
        r == (name_before_source(display_name@) == tag_name@ || is_suffix_of(tag_name@, path@)),
{
    let plain = name_without_source(display_name);
    str_eq(plain.as_str(), tag_name) || str_ends_with(path, tag_name)
}

/// Whether deleting a version directory is allowed, and why not when it is
/// not: only paths under the Lutris wine or proton runner directories may
/// go, and never the current default version's folder (given as the folder
/// the default resolves to) nor the folder containing it.
pub fn deletion_allowed(path: &str, default_folder: Option<&str>) -> (r: Result<(), String>)
    ensures
        match r {
            Ok(_) => {
                &&& (contains_seq(path@, ".local/share/lutris/runners/wine"@) || contains_seq(
                    path@,
                    ".local/share/lutris/runners/proton"@,
                ))
                &&& (default_folder matches Some(d) ==> path@ != d@ && path@ != parent_spec(d@))
            },
            Err(msg) => {
                ||| (!contains_seq(path@, ".local/share/lutris/runners/wine"@) && !contains_seq(
                    path@,
                    ".local/share/lutris/runners/proton"@,
                ) && msg@
                    == "Can only delete wine/proton versions from Rustris/Lutris directories"@)
                ||| (default_folder matches Some(d) && (path@ == d@ || path@ == parent_spec(
                    d@,
                )) && msg@
                    == "Cannot delete the default Lutris Wine/Proton version. Please set a different default first."@)
            },
        },
{
    if !(str_contains(path, ".local/share/lutris/runners/wine") || str_contains(
        path,
        ".local/share/lutris/runners/proton",
    )) {
        return Err("Can only delete wine/proton versions from Rustris/Lutris directories".to_owned());
    }
    if let Some(d) = default_folder {
        let parent = crate::paths::parent_path(d);
        if str_eq(path, d) || str_eq(path, parent.as_str()) {
            return Err(
                "Cannot delete the default Lutris Wine/Proton version. Please set a different default first.".to_owned(),
            );
        }
    }
    Ok(())
}

} // verus!
