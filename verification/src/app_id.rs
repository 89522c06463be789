//! Normalized application identifiers.
//!
//! An `AppId` names one logical application across every backend. Two raw
//! identifier strings that differ only by ASCII case or by an optional
//! trailing `.desktop` qualifier normalize to the same `AppId`, so the
//! identifier can serve as the join key of the merged catalog.

use vstd::prelude::*;
use crate::strutil::{
    chars_of, ends_with_chars, ends_with_seq, lower_chars_of, lower_seq, str_eq,
    string_from_chars,
};

verus! {

/// The canonical form of a raw identifier: ASCII-lowercased, with one
/// trailing `.desktop` qualifier removed if present.
pub open spec fn norm_of(raw: Seq<char>) -> Seq<char> {
    let low = lower_seq(raw);
    if ends_with_seq(low, ".desktop"@) {
        low.subrange(0, low.len() - ".desktop"@.len())
    } else {
        low
    }
}

/// An identifier is OS-native (a plain package name) when its normalized
/// form contains no dot; reverse-DNS application identifiers always do.
pub open spec fn spec_is_system(norm: Seq<char>) -> bool {
    forall|k: int| 0 <= k < norm.len() ==> norm[k] != '.'
}

/// Normalized application identifier; the join key across backends.
#[derive(Debug)]
pub struct AppId {
    norm: String,
}

impl View for AppId {
    type V = Seq<char>;

    closed spec fn view(&self) -> Seq<char> {
        self.norm@
    }
}

impl Clone for AppId {
    fn clone(&self) -> (r: Self)
        ensures
            r@ == self@,
    {
        AppId { norm: self.norm.clone() }
    }
}

impl PartialEq for AppId {
    fn eq(&self, other: &Self) -> (r: bool) {
        str_eq(self.norm.as_str(), other.norm.as_str())
    }
}

impl vstd::std_specs::cmp::PartialEqSpecImpl for AppId {
    open spec fn obeys_eq_spec() -> bool {
        true
    }

    open spec fn eq_spec(&self, other: &Self) -> bool {
        self@ == other@
    }
}

impl AppId {
    /// Build the identifier for a raw string; any string is accepted.
    pub fn new(raw: &str) -> (r: AppId)
        ensures
            r@ == norm_of(raw@),
    {
        let mut low = lower_chars_of(raw);
        let suf = chars_of(".desktop");
        if ends_with_chars(&low, &suf) {
            let keep = low.len() - suf.len();
            low.truncate(keep);
        }
        AppId { norm: string_from_chars(&low) }
    }

    /// The canonical comparison key.
    pub fn normalized(&self) -> (r: &str)
        ensures
            r@ == self@,
    {
        self.norm.as_str()
    }

    /// Whether this identifier names an OS-native package rather than a
    /// reverse-DNS application.
    pub fn is_system(&self) -> (r: bool)
        ensures
            r == spec_is_system(self@),
    {
        let v = chars_of(self.norm.as_str());
        let mut i: usize = 0;
        while i < v.len()
            invariant
                v@ == self@,
                i <= v@.len(),
                forall|k: int| 0 <= k < i ==> v@[k] != '.',
            decreases v@.len() - i,
        {
            if v[i] == '.' {
                return false;
            }
            i += 1;
        }
        true
    }
}

/// Normalization ignores ASCII case: raw identifiers with the same
/// lowercase form produce equal `AppId` values.
pub proof fn lemma_norm_case_insensitive(a: Seq<char>, b: Seq<char>)
    requires
        lower_seq(a) == lower_seq(b),
    ensures
        norm_of(a) == norm_of(b),
{
}

/// The `.desktop` qualifier itself is already lowercase.
proof fn lemma_desktop_suffix_lower()
    ensures
        lower_seq(".desktop"@) == ".desktop"@,
{
    reveal_strlit(".desktop");
    assert(lower_seq(".desktop"@) =~= ".desktop"@) by {
        assert forall|k: int| 0 <= k < ".desktop"@.len() implies #[trigger] lower_seq(".desktop"@)[k]
            == ".desktop"@[k] by {
            let c = ".desktop"@[k];
            assert(!('A' <= c && c <= 'Z'));
        }
    }
}

/// Appending a `.desktop` qualifier to a raw identifier whose lowercase
/// form does not already end in `.desktop` leaves the `AppId` unchanged.
pub proof fn lemma_norm_desktop_suffix(raw: Seq<char>)
    requires
        !ends_with_seq(lower_seq(raw), ".desktop"@),
    ensures
        norm_of(raw + ".desktop"@) == norm_of(raw),
{
    lemma_desktop_suffix_lower();
    let low = lower_seq(raw);
    let suf = ".desktop"@;
    assert(lower_seq(raw + suf) =~= low + suf) by {
        assert forall|k: int| 0 <= k < (raw + suf).len() implies #[trigger] lower_seq(raw + suf)[k]
            == (low + suf)[k] by {
            if k < raw.len() {
            } else {
                assert(lower_seq(suf)[k - raw.len()] == suf[k - raw.len()]);
            }
        }
    }
    assert((low + suf).subrange((low + suf).len() - suf.len(), (low + suf).len() as int) =~= suf);
    assert(ends_with_seq(low + suf, suf));
    assert((low + suf).subrange(0, (low + suf).len() - suf.len()) =~= low);
    assert(norm_of(raw + suf) == low);
    assert(norm_of(raw) == low);
}

} // verus!
