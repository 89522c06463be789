//! One backend's view of one application, and the deterministic preference
//! order that decides which entry represents an identifier: installed
//! entries first, then higher static (backend, source) priority, then
//! source identifier, then backend name.

use vstd::prelude::*;
use crate::app_id::{spec_is_system, AppId};
use crate::app_info::{AppInfo, AppInfoV};
use crate::strutil::{cmp_flip, lemma_seq_cmp_flip, lemma_seq_cmp_trans_full, seq_cmp, str_eq,
    str_starts_with, Cmp};

verus! {

/// One backend's entry for one application identifier.
#[derive(Debug)]
pub struct AppEntry {
    pub backend_name: String,
    pub info: AppInfo,
    pub installed: bool,
}

/// Ghost form of a backend entry.
#[verifier::ext_equal]
pub ghost struct AppEntryV {
    pub backend_name: Seq<char>,
    pub info: AppInfoV,
    pub installed: bool,
}

impl View for AppEntry {
    type V = AppEntryV;

    open spec fn view(&self) -> AppEntryV {
        AppEntryV { backend_name: self.backend_name@, info: self.info@, installed: self.installed }
    }
}

impl Clone for AppEntry {
    fn clone(&self) -> (r: Self)
        ensures
            r@ == self@,
    {
        let r = AppEntry {
            backend_name: self.backend_name.clone(),
            info: self.info.clone(),
            installed: self.installed,
        };
        proof {
            assert(r@ =~= self@);
        }
        r
    }
}

/// Static preference of a (backend, source) pair for an identifier: the
/// system package backend is preferred for OS-native identifiers; for
/// reverse-DNS identifiers the flathub repository is preferred, then any
/// Flatpak-family backend. Higher is preferred.
pub open spec fn spec_priority(backend: Seq<char>, source: Seq<char>, id_norm: Seq<char>) -> int {
    if spec_is_system(id_norm) {
        if backend == "packagekit"@ {
            2
        } else {
            0
        }
    } else {
        if source == "flathub"@ {
            2
        } else if crate::strutil::starts_with_seq(backend, "flatpak-"@) {
            1
        } else {
            0
        }
    }
}

/// Exec form of the static (backend, source) priority.
pub fn priority(backend_name: &str, source_id: &str, id: &AppId) -> (p: i8)
    ensures
        p as int == spec_priority(backend_name@, source_id@, id@),
{
    if id.is_system() {
        if str_eq(backend_name, "packagekit") {
            2
        } else {
            0
        }
    } else {
        if str_eq(source_id, "flathub") {
            2
        } else if str_starts_with(backend_name, "flatpak-") {
            1
        } else {
            0
        }
    }
}

/// Preference order between two entries of one identifier, as an ordering
/// of the first entry relative to the second: installed entries sort
/// first, then higher priority, then source identifier, then backend name.
/// The string tie-breaks compare by code point: a desktop shell would
/// collate source and backend names by locale, but a locale-dependent
/// order cannot be a specification value, and only the fixed order keeps
/// the merged map a function of its inputs alone.
pub open spec fn spec_entry_cmp(a: AppEntryV, b: AppEntryV, id_norm: Seq<char>) -> Cmp {
    if a.installed != b.installed {
        if a.installed {
            Cmp::Less
        } else {
            Cmp::Greater
        }
    } else {
        let pa = spec_priority(a.backend_name, a.info.source_id, id_norm);
        let pb = spec_priority(b.backend_name, b.info.source_id, id_norm);
        if pa != pb {
            if pa > pb {
                Cmp::Less
            } else {
                Cmp::Greater
            }
        } else if seq_cmp(a.info.source_id, b.info.source_id) != Cmp::Equal {
            seq_cmp(a.info.source_id, b.info.source_id)
        } else {
            seq_cmp(a.backend_name, b.backend_name)
        }
    }
}

/// `a` is preferred over `b` or tied with it.
pub open spec fn entry_le(a: AppEntryV, b: AppEntryV, id_norm: Seq<char>) -> bool {
    spec_entry_cmp(a, b, id_norm) != Cmp::Greater
}

/// Exec preference comparison between two entries of one identifier.
pub fn entry_cmp(a: &AppEntry, b: &AppEntry, id: &AppId) -> (r: Cmp)
    ensures
        r == spec_entry_cmp(a@, b@, id@),
{
    if a.installed != b.installed {
        if a.installed {
            Cmp::Less
        } else {
            Cmp::Greater
        }
    } else {
        let pa = priority(a.backend_name.as_str(), a.info.source_id.as_str(), id);
        let pb = priority(b.backend_name.as_str(), b.info.source_id.as_str(), id);
        if pa != pb {
            if pa > pb {
                Cmp::Less
            } else {
                Cmp::Greater
            }
        } else {
            let sc = crate::strutil::str_cmp(a.info.source_id.as_str(), b.info.source_id.as_str());
            match sc {
                Cmp::Equal => crate::strutil::str_cmp(
                    a.backend_name.as_str(),
                    b.backend_name.as_str(),
                ),
                _ => sc,
            }
        }
    }
}

/// Swapping the entries reverses the preference comparison.
pub proof fn lemma_entry_cmp_flip(a: AppEntryV, b: AppEntryV, id_norm: Seq<char>)
    ensures
        spec_entry_cmp(b, a, id_norm) == cmp_flip(spec_entry_cmp(a, b, id_norm)),
{
    lemma_seq_cmp_flip(a.info.source_id, b.info.source_id);
    lemma_seq_cmp_flip(a.backend_name, b.backend_name);
}

/// The preference order is transitive.
pub proof fn lemma_entry_le_trans(a: AppEntryV, b: AppEntryV, c: AppEntryV, id_norm: Seq<char>)
    requires
        entry_le(a, b, id_norm),
        entry_le(b, c, id_norm),
    ensures
        entry_le(a, c, id_norm),
{
    lemma_seq_cmp_trans_full(a.info.source_id, b.info.source_id, c.info.source_id);
    lemma_seq_cmp_trans_full(a.backend_name, b.backend_name, c.backend_name);
}

} // verus!
