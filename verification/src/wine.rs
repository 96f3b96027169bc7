//! Wine and Proton version management: naming the versions a directory scan
//! found, sorting and de-duplicating them for display, choosing the default
//! wine folder, and the per-game version update.
//!
//! The scans themselves (directory listings, file reads) are I/O and stay
//! outside; their results are taken here as plain values.

use vstd::prelude::*;
use vstd::multiset::Multiset;
use vstd::string::StringExecFns;

use crate::lutris_config::{install_instructions_spec, LutrisConfig};
use crate::paths::{data_subdir_path, joined, last_path_segment, parent_path, parent_spec, path_exists, path_join};
use crate::strutil::{
    lemma_lex_leq_total, lemma_lex_leq_trans, lex_leq, second_token, second_token_spec, split_on,
    str_eq, str_lex_leq,
};

verus! {

/// One wine or proton version as a directory scan reported it: its version
/// name, the label of the scan source, and its path.
#[derive(Debug, Clone)]
pub struct ScannedWineVersion {
    pub name: String,
    pub source: String,
    pub path: String,
}

/// One wine or proton version as shown to the user: its path as the
/// identifier, and a display name.
#[derive(Debug, Clone)]
pub struct WineVersionInfo {
    pub path: String,
    pub display_name: String,
}

/// The version name a runner directory's `version` file yields: its second
/// whitespace-separated field (the file holds a timestamp, then the name),
/// or the fallback — the directory name — when there is no second field.
pub open spec fn version_name_spec(contents: Seq<char>, fallback: Seq<char>) -> Seq<char> {
    if second_token_spec(contents).len() > 0 {
        second_token_spec(contents)
    } else {
        fallback
    }
}

/// Extracts a version name from a runner `version` file.
pub fn version_name_from_file(contents: &str, fallback: &str) -> (r: String)
    ensures
        r@ == version_name_spec(contents@, fallback@),
{
    let token = second_token(contents);
    if token.unicode_len() > 0 {
        token
    } else {
        fallback.to_owned()
    }
}

/// How many scanned versions carry this name.
pub open spec fn count_name(found: Seq<ScannedWineVersion>, name: Seq<char>) -> int
    decreases found.len(),
{
    if found.len() == 0 {
        0int
    } else {
        count_name(found.drop_last(), name) + if found.last().name@ == name {
            1int
        } else {
            0int
        }
    }
}

/// The display name of scan entry `j`: its version name, with the source
/// label appended in parentheses when another entry shares the name.
pub open spec fn display_name_spec(found: Seq<ScannedWineVersion>, j: int) -> Seq<char> {
    if count_name(found, found[j].name@) > 1 {
        found[j].name@ + " ("@ + found[j].source@ + ")"@
    } else {
        found[j].name@
    }
}

/// `e` is the display entry of some scan entry.
pub open spec fn is_displayed_entry(e: WineVersionInfo, found: Seq<ScannedWineVersion>) -> bool {
    exists|j: int|
        0 <= j < found.len() && e.display_name@ == display_name_spec(found, j) && e.path@
            == found[j].path@
}

/// The list is sorted by display name.
pub open spec fn sorted_by_display(s: Seq<WineVersionInfo>) -> bool {
    forall|k: int| 0 <= k < s.len() - 1 ==> lex_leq(
        (#[trigger] s[k]).display_name@,
        s[k + 1].display_name@,
    )
}

/// The list after dropping every entry whose path equals the path of the
/// entry kept just before it (exact duplicates sort together, so this drops
/// them).
pub open spec fn dedup_paths_spec(s: Seq<WineVersionInfo>) -> Seq<WineVersionInfo>
    decreases s.len(),
{
    if s.len() == 0 {
        s
    } else {
        let rest = dedup_paths_spec(s.drop_last());
        if rest.len() > 0 && rest.last().path@ == s.last().path@ {
            rest
        } else {
            rest.push(s.last())
        }
    }
}

/// Counts the scan entries carrying a name.
fn count_occurrences(found: &Vec<ScannedWineVersion>, name: &str) -> (r: usize)
    ensures
        r == count_name(found@, name@),
{
    let n = found.len();
    let mut count: usize = 0;
    let mut i: usize = 0;
    while i < n
        invariant
            n == found@.len(),
            count == count_name(found@.take(i as int), name@),
            i <= n,
            count <= i,
        decreases n - i,
    {
        proof {
            assert(found@.take(i + 1).drop_last() =~= found@.take(i as int));
        }
        if str_eq(found[i].name.as_str(), name) {
            count = count + 1;
        }
        i = i + 1;
    }
    proof {
        assert(found@.take(n as int) =~= found@);
    }
    count
}

/// Sorts entries by display name. The result is sorted and holds exactly
/// the input entries: the multisets agree.
#[verifier::rlimit(80)]
fn sort_by_display_name(list: Vec<WineVersionInfo>) -> (r: Vec<WineVersionInfo>)
    ensures
        r@.len() == list@.len(),
        sorted_by_display(r@),
        r@.to_multiset() == list@.to_multiset(),
{
    broadcast use vstd::seq_lib::group_to_multiset_ensures;

    let mut rem = list;
    let mut out: Vec<WineVersionInfo> = Vec::new();
    proof {
        broadcast use vstd::seq_lib::group_to_multiset_ensures;
        broadcast use vstd::multiset::group_multiset_axioms;

        assert(out@.to_multiset() =~= Multiset::<WineVersionInfo>::empty());
        assert(out@.to_multiset().add(rem@.to_multiset()) =~= list@.to_multiset());
    }
    while rem.len() > 0
        invariant
            out@.len() + rem@.len() == list@.len(),
            sorted_by_display(out@),
            out@.to_multiset().add(rem@.to_multiset()) == list@.to_multiset(),
            forall|k: int, l: int|
                0 <= k < out@.len() && 0 <= l < rem@.len() ==> lex_leq(
                    (#[trigger] out@[k]).display_name@,
                    (#[trigger] rem@[l]).display_name@,
                ),
        decreases rem@.len(),
    {
        let mut min_idx: usize = 0;
        let mut m: usize = 1;
        proof {
            lemma_lex_leq_total(rem@[0].display_name@, rem@[0].display_name@);
        }
        while m < rem.len()
            invariant
                rem@.len() > 0,
                min_idx < m,
                1 <= m <= rem@.len(),
                forall|l: int| 0 <= l < m ==> lex_leq(
                    rem@[min_idx as int].display_name@,
                    (#[trigger] rem@[l]).display_name@,
                ),
            decreases rem@.len() - m,
        {
            if !str_lex_leq(
                rem[min_idx].display_name.as_str(),
                rem[m].display_name.as_str(),
            ) {
                proof {
                    lemma_lex_leq_total(
                        rem@[min_idx as int].display_name@,
                        rem@[m as int].display_name@,
                    );
                    assert forall|l: int| 0 <= l < m + 1 implies lex_leq(
                        rem@[m as int].display_name@,
                        (#[trigger] rem@[l]).display_name@,
                    ) by {
                        if l < m {
                            lemma_lex_leq_trans(
                                rem@[m as int].display_name@,
                                rem@[min_idx as int].display_name@,
                                rem@[l].display_name@,
                            );
                        } else {
                            lemma_lex_leq_total(
                                rem@[m as int].display_name@,
                                rem@[m as int].display_name@,
                            );
                        }
                    }
                }
                min_idx = m;
            }
            m = m + 1;
        }
        let ghost pre_rem = rem@;
        let ghost pre_out = out@;
        let x = rem.remove(min_idx);
        out.push(x);
        proof {
            broadcast use vstd::seq_lib::group_to_multiset_ensures;
            broadcast use vstd::multiset::group_multiset_axioms;

            assert(x == pre_rem[min_idx as int]);
            assert(rem@ == pre_rem.remove(min_idx as int));
            assert(pre_rem.remove(min_idx as int).to_multiset() =~= pre_rem.to_multiset()
                .remove(x));
            assert(out@ == pre_out.push(x));
            assert(pre_out.push(x).to_multiset() =~= pre_out.to_multiset().insert(x));
            assert(pre_rem.to_multiset().count(x) >= 1);
            assert(out@.to_multiset().add(rem@.to_multiset()) =~= pre_out.to_multiset().add(
                pre_rem.to_multiset(),
            ));
            assert forall|k: int, l: int|
                0 <= k < out@.len() && 0 <= l < rem@.len() implies lex_leq(
                (#[trigger] out@[k]).display_name@,
                (#[trigger] rem@[l]).display_name@,
            ) by {
                let l0 = if l < min_idx as int {
                    l
                } else {
                    l + 1
                };
                assert(rem@[l] == pre_rem[l0]);
                if k < pre_out.len() {
                    assert(lex_leq(pre_out[k].display_name@, pre_rem[l0].display_name@));
                } else {
                    assert(out@[k] == x);
                    assert(lex_leq(x.display_name@, pre_rem[l0].display_name@));
                }
            }
            assert forall|k: int| 0 <= k < out@.len() - 1 implies lex_leq(
                (#[trigger] out@[k]).display_name@,
                out@[k + 1].display_name@,
            ) by {
                if k + 1 == out@.len() - 1 {
                    assert(lex_leq(pre_out[k].display_name@, pre_rem[min_idx as int].display_name@));
                }
            }
        }
    }
    proof {
        broadcast use vstd::seq_lib::group_to_multiset_ensures;
        broadcast use vstd::multiset::group_multiset_axioms;

        assert(rem@ =~= Seq::<WineVersionInfo>::empty());
        assert(rem@.to_multiset() =~= Multiset::<WineVersionInfo>::empty());
        assert(out@.to_multiset() =~= list@.to_multiset());
    }
    out
}

/// Drops every entry whose path repeats the path kept just before it.
fn dedup_by_path(list: Vec<WineVersionInfo>) -> (r: Vec<WineVersionInfo>)
    ensures
        r@ == dedup_paths_spec(list@),
{
    let n = list.len();
    let mut out: Vec<WineVersionInfo> = Vec::new();
    let mut i: usize = 0;
    while i < n
        invariant
            n == list@.len(),
            i <= n,
            out@ == dedup_paths_spec(list@.take(i as int)),
        decreases n - i,
    {
        proof {
            assert(list@.take(i + 1).drop_last() =~= list@.take(i as int));
            assert(list@.take(i + 1).last() == list@[i as int]);
        }
        if out.len() > 0 && str_eq(
            out[out.len() - 1].path.as_str(),
            list[i].path.as_str(),
        ) {
            // duplicate of the entry just kept: drop it
        } else {
            let kept = WineVersionInfo {
                path: list[i].path.clone(),
                display_name: list[i].display_name.clone(),
            };
            proof {
                assert(kept == list@[i as int]);
            }
            out.push(kept);
            proof {
                assert(out@ =~= dedup_paths_spec(list@.take(i as int)).push(list@[i as int]));
            }
        }
        i = i + 1;
    }
    proof {
        assert(list@.take(n as int) =~= list@);
    }
    out
}

/// Builds the user-facing version list from a scan: each entry is named by
/// its version name, disambiguated by its source when the name repeats; the
/// list is sorted by display name, and entries whose path repeats the
/// previously kept path are dropped. No path found by the scan is lost, and
/// no entry is invented.
#[verifier::rlimit(80)]
pub fn build_wine_version_list(found: Vec<ScannedWineVersion>) -> (r: Vec<WineVersionInfo>)
    ensures
        exists|mid: Seq<WineVersionInfo>|
            {
                &&& #[trigger] sorted_by_display(mid)
                &&& mid.len() == found@.len()
                &&& (forall|k: int| 0 <= k < mid.len() ==> is_displayed_entry(
                    #[trigger] mid[k],
                    found@,
                ))
                &&& (forall|j: int| 0 <= j < found@.len() ==> exists|k: int|
                    0 <= k < mid.len() && mid[k].path@ == (#[trigger] found@[j]).path@)
                &&& r@ == dedup_paths_spec(mid)
            },
{
    let n = found.len();
    let mut displayed: Vec<WineVersionInfo> = Vec::new();
    let mut i: usize = 0;
    while i < n
        invariant
            n == found@.len(),
            i <= n,
            displayed@.len() == i,
            forall|k: int| 0 <= k < i ==> (#[trigger] displayed@[k]).display_name@
                == display_name_spec(found@, k) && displayed@[k].path@ == found@[k].path@,
        decreases n - i,
    {
        let count = count_occurrences(&found, found[i].name.as_str());
        let display_name = if count > 1 {
            let mut d = found[i].name.clone();
            d.append(" (");
            d.append(found[i].source.as_str());
            d.append(")");
            d
        } else {
            found[i].name.clone()
        };
        displayed.push(WineVersionInfo { path: found[i].path.clone(), display_name });
        i = i + 1;
    }
    let sorted = sort_by_display_name(displayed);
    let ghost mid = sorted@;
    let deduped = dedup_by_path(sorted);
    proof {
        broadcast use vstd::seq_lib::group_to_multiset_ensures;
        broadcast use vstd::multiset::group_multiset_axioms;

        assert forall|k: int| 0 <= k < mid.len() implies is_displayed_entry(
            #[trigger] mid[k],
            found@,
        ) by {
            assert(mid.to_multiset().count(mid[k]) > 0);
            assert(displayed@.to_multiset().count(mid[k]) > 0);
            assert(displayed@.contains(mid[k]));
            let j = choose|j: int| 0 <= j < displayed@.len() && displayed@[j] == mid[k];
            assert(mid[k].display_name@ == display_name_spec(found@, j));
        }
        assert forall|j: int| 0 <= j < found@.len() implies exists|k: int|
            0 <= k < mid.len() && mid[k].path@ == (#[trigger] found@[j]).path@ by {
            assert(displayed@.contains(displayed@[j]));
            assert(displayed@.to_multiset().count(displayed@[j]) > 0);
            assert(mid.to_multiset().count(displayed@[j]) > 0);
            assert(mid.contains(displayed@[j]));
            let k = choose|k: int| 0 <= k < mid.len() && mid[k] == displayed@[j];
            assert(mid[k].path@ == found@[j].path@);
        }
        assert(sorted_by_display(mid));
    }
    deduped
}

/// The folder holding Lutris's global default wine version, decided from the
/// wine runner config's plain values: the directory of a custom wine
/// executable path when one is set, otherwise the named version as found
/// under the proton runners directory, otherwise nothing.
pub fn default_wine_folder(custom_wine_path: Option<&str>, version_name: Option<&str>) -> (r:
    Option<String>)
    ensures
        match custom_wine_path {
            Some(cp) => r matches Some(p) && p@ == parent_spec(cp@),
            None => match version_name {
                Some(v) => r matches Some(p) ==> exists|base: Seq<char>|
                    p@ == joined(joined(data_subdir_path(base, "runners"@), "proton"@), v@),
                None => r is None,
            },
        },
{
    if let Some(cp) = custom_wine_path {
        return Some(parent_path(cp));
    }
    if let Some(v) = version_name {
        if let Some(proton_dir) = crate::paths::lutris_proton_dir() {
            let candidate = path_join(proton_dir.as_str(), v);
            if path_exists(candidate.as_str()) {
                return Some(candidate);
            }
        }
    }
    None
}

/// The wine settings a per-game version update writes: the version name is
/// the final path segment of the chosen version folder, and any custom wine
/// path is cleared so Lutris resolves the name in its runners directory. A
/// path whose final segment is empty is rejected.
#[derive(Debug, Clone)]
pub struct WineSettings {
    pub version: Option<String>,
    pub custom_wine_path: Option<String>,
}

/// Decides the settings for a per-game wine version update.
pub fn wine_settings_for_version(version_path: &str) -> (r: Result<WineSettings, String>)
    ensures
        match r {
            Ok(s) => {
                &&& split_on(version_path@, '/').last().len() > 0
                &&& s.version matches Some(v) && v@ == split_on(version_path@, '/').last()
                &&& s.custom_wine_path is None
            },
            Err(msg) => {
                &&& split_on(version_path@, '/').last().len() == 0
                &&& msg@ == "Invalid wine version path"@
            },
        },
{
    let name = last_path_segment(version_path);
    if name.unicode_len() == 0 {
        Err("Invalid wine version path".to_owned())
    } else {
        Ok(WineSettings { version: Some(name), custom_wine_path: None })
    }
}

/// Information about the Lutris installation status, as reported to the
/// user interface.
#[derive(Debug)]
pub struct LutrisAvailability {
    pub is_available: bool,
    pub installation_type: Option<String>,
    pub install_instructions: Option<String>,
}

/// Reports whether Lutris is installed, from the probe outcomes: a found
/// installation is described, a missing one gets install instructions.
pub fn check_lutris_availability(
    system_present: bool,
    flatpak_present: bool,
    home: &str,
    os_release: Option<&str>,
) -> (r: LutrisAvailability)
    ensures
        r.is_available == (system_present || flatpak_present),
        system_present || flatpak_present ==> (r.installation_type matches Some(d) && (
        system_present ==> d@ == "System Lutris (lutris)"@) && (!system_present ==> d@
            == "Flatpak Lutris (net.lutris.Lutris)"@) && r.install_instructions is None),
        !system_present && !flatpak_present ==> (r.installation_type is None && (
        r.install_instructions matches Some(msg) && msg@ == install_instructions_spec(
            match os_release {
                Some(s) => Some(s@),
                None => None,
            },
        ))),
{
    match LutrisConfig::auto_detect(system_present, flatpak_present, home, os_release) {
        Ok(config) => {
            let d = config.description();
            proof {
                if system_present {
                    reveal_strlit("System Lutris (");
                    reveal_strlit("lutris");
                    reveal_strlit(")");
                    reveal_strlit("System Lutris (lutris)");
                    assert(d@ =~= "System Lutris (lutris)"@);
                }
            }
            LutrisAvailability {
                is_available: true,
                installation_type: Some(d),
                install_instructions: None,
            }
        },
        Err(instructions) => LutrisAvailability {
            is_available: false,
            installation_type: None,
            install_instructions: Some(instructions),
        },
    }
}

} // verus!
