//! The popularity/compatibility snapshot: a read-only mapping from
//! application identifier to monthly downloads and an optional
//! compatibility classification, assembled by the caller and read by
//! every query. Absence of data yields defaults, never an error.

use vstd::prelude::*;
use crate::app_id::{norm_of, AppId};
use crate::app_info::{AppInfo, AppInfoV};
use crate::compat::WaylandCompatibility;

verus! {

/// One snapshot row.
#[derive(Debug)]
pub struct StatsEntry {
    pub id: AppId,
    pub monthly_downloads: u64,
    pub compat_opt: Option<WaylandCompatibility>,
}

/// Ghost form of a snapshot row.
#[verifier::ext_equal]
pub ghost struct StatsEntryV {
    pub id: Seq<char>,
    pub monthly_downloads: u64,
    pub compat_opt: Option<WaylandCompatibility>,
}

impl View for StatsEntry {
    type V = StatsEntryV;

    open spec fn view(&self) -> StatsEntryV {
        StatsEntryV {
            id: self.id@,
            monthly_downloads: self.monthly_downloads,
            compat_opt: self.compat_opt,
        }
    }
}

/// The read-only stats snapshot of one query.
#[derive(Debug)]
pub struct AppStats {
    entries: Vec<StatsEntry>,
}

impl View for AppStats {
    type V = Seq<StatsEntryV>;

    closed spec fn view(&self) -> Seq<StatsEntryV> {
        Seq::new(self.entries@.len(), |i: int| self.entries@[i]@)
    }
}

/// The first snapshot row of an identifier, or -1 when none exists.
pub open spec fn stats_find(v: Seq<StatsEntryV>, id: Seq<char>) -> int
    decreases v.len(),
{
    if v.len() == 0 {
        -1
    } else if v[0].id == id {
        0
    } else {
        let r = stats_find(v.skip(1), id);
        if r == -1 {
            -1
        } else {
            r + 1
        }
    }
}

/// What `stats_find` finds.
pub proof fn lemma_stats_find(v: Seq<StatsEntryV>, id: Seq<char>)
    ensures
        stats_find(v, id) == -1 ==> forall|k: int| 0 <= k < v.len() ==> (#[trigger] v[k]).id != id,
        stats_find(v, id) != -1 ==> 0 <= stats_find(v, id) < v.len() && v[stats_find(v, id)].id
            == id,
    decreases v.len(),
{
    if v.len() > 0 && v[0].id != id {
        lemma_stats_find(v.skip(1), id);
        if stats_find(v, id) == -1 {
            assert forall|k: int| 0 <= k < v.len() implies (#[trigger] v[k]).id != id by {
                if k > 0 {
                    assert(v.skip(1)[k - 1] == v[k]);
                }
            }
        } else {
            assert(v.skip(1)[stats_find(v.skip(1), id)] == v[stats_find(v, id)]);
        }
    }
}

/// When no row before `i` holds the identifier and row `i` does,
/// `stats_find` finds exactly `i`.
proof fn lemma_stats_find_prefix(v: Seq<StatsEntryV>, id: Seq<char>, i: int)
    requires
        0 <= i < v.len(),
        v[i].id == id,
        forall|k: int| 0 <= k < i ==> (#[trigger] v[k]).id != id,
    ensures
        stats_find(v, id) == i,
    decreases i,
{
    if i > 0 {
        assert forall|k: int| 0 <= k < i - 1 implies (#[trigger] v.skip(1)[k]).id != id by {
            assert(v.skip(1)[k] == v[k + 1]);
        }
        lemma_stats_find_prefix(v.skip(1), id, i - 1);
    }
}

impl AppStats {
    /// An empty snapshot.
    pub fn new() -> (r: AppStats)
        ensures
            r@ == Seq::<StatsEntryV>::empty(),
    {
        let r = AppStats { entries: Vec::new() };
        proof {
            assert(r@ =~= Seq::<StatsEntryV>::empty());
        }
        r
    }

    /// Append one row; an identifier's first row wins on lookup.
    pub fn push(&mut self, entry: StatsEntry)
        ensures
            final(self)@ == old(self)@ + seq![entry@],
    {
        self.entries.push(entry);
        proof {
            assert(self@ =~= old(self)@ + seq![entry@]);
        }
    }

    /// Number of rows.
    pub fn len(&self) -> (n: usize)
        ensures
            n == self@.len(),
    {
        self.entries.len()
    }

    /// The monthly download count of an identifier, if the snapshot has
    /// a row for it.
    pub fn try_monthly_downloads(&self, id: &AppId) -> (r: Option<u64>)
        ensures
            stats_find(self@, id@) == -1 <==> r is None,
            r is Some ==> r.unwrap() == self@[stats_find(self@, id@)].monthly_downloads,
    {
        proof {
            lemma_stats_find(self@, id@);
        }
        let n = self.entries.len();
        let mut i: usize = 0;
        while i < n
            invariant
                n == self@.len(),
                i <= n,
                forall|k: int| 0 <= k < i ==> (#[trigger] self@[k]).id != id@,
            decreases n - i,
        {
            if self.entries[i].id == *id {
                proof {
                    lemma_stats_find_prefix(self@, id@, i as int);
                }
                return Some(self.entries[i].monthly_downloads);
            }
            i += 1;
        }
        None
    }

    /// The compatibility classification of an identifier, if the
    /// snapshot holds one for it.
    pub fn try_wayland_compatibility(&self, id: &AppId) -> (r: Option<WaylandCompatibility>)
        ensures
            r == {
                let k = stats_find(self@, id@);
                if k == -1 {
                    None
                } else {
                    self@[k].compat_opt
                }
            },
    {
        proof {
            lemma_stats_find(self@, id@);
        }
        let n = self.entries.len();
        let mut i: usize = 0;
        while i < n
            invariant
                n == self@.len(),
                i <= n,
                forall|k: int| 0 <= k < i ==> (#[trigger] self@[k]).id != id@,
            decreases n - i,
        {
            if self.entries[i].id == *id {
                proof {
                    lemma_stats_find_prefix(self@, id@, i as int);
                }
                return self.entries[i].compat_opt;
            }
            i += 1;
        }
        None
    }
}

/// A record with its popularity and compatibility fields filled from the
/// snapshot: downloads default to zero, the classification to none, and
/// every other field is kept unchanged.
pub open spec fn spec_with_stats(info: AppInfoV, stats: Seq<StatsEntryV>, id: Seq<char>) -> AppInfoV {
    let k = stats_find(stats, id);
    AppInfoV {
        monthly_downloads: if k == -1 {
            0
        } else {
            stats[k].monthly_downloads
        },
        wayland_compat_opt: if k == -1 {
            None
        } else {
            stats[k].compat_opt
        },
        ..info
    }
}

/// Fill a record's popularity and compatibility fields from the
/// snapshot at construction time.
pub fn with_stats(info: AppInfo, stats: &AppStats, id: &AppId) -> (r: AppInfo)
    ensures
        r@ == spec_with_stats(info@, stats@, id@),
{
    let downloads = stats.try_monthly_downloads(id);
    let compat = stats.try_wayland_compatibility(id);
    proof {
        lemma_stats_find(stats@, id@);
    }
    let r = AppInfo {
        monthly_downloads: match downloads {
            Some(d) => d,
            None => 0,
        },
        wayland_compat_opt: compat,
        ..info
    };
    proof {
        assert(r@ =~= spec_with_stats(info@, stats@, id@));
    }
    r
}

/// Whether a fresh stats file should be fetched, from the generation
/// timestamps of the remote and cached metadata: fetch when the remote
/// metadata cannot be read, when nothing is cached, or when the remote
/// snapshot is strictly newer.
pub fn should_download_new_version(remote_generated_at: Option<u64>, cached_generated_at: Option<
    u64,
>) -> (r: bool)
    ensures
        r == (remote_generated_at is None || cached_generated_at is None
            || remote_generated_at.unwrap() > cached_generated_at.unwrap()),
{
    match (remote_generated_at, cached_generated_at) {
        (None, _) => true,
        (_, None) => true,
        (Some(remote), Some(cached)) => remote > cached,
    }
}


/// Saturating addition of download counts.
pub open spec fn spec_sat_add(a: u64, b: u64) -> u64 {
    if a + b > u64::MAX {
        u64::MAX
    } else {
        (a + b) as u64
    }
}

/// The identifier part of a download ref: everything before its first
/// slash, normalized.
pub open spec fn spec_ref_id(r: Seq<char>) -> Seq<char> {
    norm_of(crate::strutil::spec_split(r, '/')[0])
}

/// First index of an identifier in an accumulator, or -1.
pub open spec fn spec_count_find(acc: Seq<(Seq<char>, u64)>, id: Seq<char>) -> int
    decreases acc.len(),
{
    if acc.len() == 0 {
        -1
    } else if acc[0].0 == id {
        0
    } else {
        let r = spec_count_find(acc.skip(1), id);
        if r == -1 {
            -1
        } else {
            r + 1
        }
    }
}

/// What `spec_count_find` finds.
proof fn lemma_count_find(acc: Seq<(Seq<char>, u64)>, id: Seq<char>)
    ensures
        spec_count_find(acc, id) == -1 ==> forall|k: int|
            0 <= k < acc.len() ==> (#[trigger] acc[k]).0 != id,
        spec_count_find(acc, id) != -1 ==> 0 <= spec_count_find(acc, id) < acc.len() && acc[
            spec_count_find(acc, id)].0 == id,
    decreases acc.len(),
{
    if acc.len() > 0 && acc[0].0 != id {
        lemma_count_find(acc.skip(1), id);
        if spec_count_find(acc, id) == -1 {
            assert forall|k: int| 0 <= k < acc.len() implies (#[trigger] acc[k]).0 != id by {
                if k > 0 {
                    assert(acc.skip(1)[k - 1] == acc[k]);
                }
            }
        } else {
            assert(acc.skip(1)[spec_count_find(acc.skip(1), id)] == acc[spec_count_find(acc, id)]);
        }
    }
}

/// When no earlier accumulator row holds the identifier and row `i`
/// does, `spec_count_find` finds exactly `i`.
proof fn lemma_count_find_prefix(acc: Seq<(Seq<char>, u64)>, id: Seq<char>, i: int)
    requires
        0 <= i < acc.len(),
        acc[i].0 == id,
        forall|k: int| 0 <= k < i ==> (#[trigger] acc[k]).0 != id,
    ensures
        spec_count_find(acc, id) == i,
    decreases i,
{
    if i > 0 {
        assert forall|k: int| 0 <= k < i - 1 implies (#[trigger] acc.skip(1)[k]).0 != id by {
            assert(acc.skip(1)[k] == acc[k + 1]);
        }
        lemma_count_find_prefix(acc.skip(1), id, i - 1);
    }
}

/// Adding one ref's count to the accumulator: into the row of its
/// identifier, saturating, or as a fresh row at the end.
pub open spec fn spec_accumulate(acc: Seq<(Seq<char>, u64)>, id: Seq<char>, n: u64) -> Seq<(
    Seq<char>,
    u64,
)> {
    let k = spec_count_find(acc, id);
    if k == -1 {
        acc + seq![(id, n)]
    } else {
        acc.update(k, (id, spec_sat_add(acc[k].1, n)))
    }
}

/// Folding a whole ref list into per-identifier totals.
pub open spec fn spec_aggregate(refs: Seq<(String, u64)>, acc: Seq<(Seq<char>, u64)>) -> Seq<(
    Seq<char>,
    u64,
)>
    decreases refs.len(),
{
    if refs.len() == 0 {
        acc
    } else {
        spec_aggregate(refs.skip(1), spec_accumulate(acc, spec_ref_id(refs[0].0@), refs[0].1))
    }
}

/// Ghost list of an aggregation result.
pub open spec fn counts_view(s: Seq<(AppId, u64)>) -> Seq<(Seq<char>, u64)> {
    Seq::new(s.len(), |i: int| (s[i].0@, s[i].1))
}

/// The first row of an identifier in an aggregation, or none.
fn find_count_pos(out: &Vec<(AppId, u64)>, id: &AppId) -> (r: Option<usize>)
    ensures
        r is None ==> forall|k: int|
            0 <= k < out@.len() ==> (#[trigger] counts_view(out@)[k]).0 != id@,
        r is Some ==> r.unwrap() < out@.len() && counts_view(out@)[r.unwrap() as int].0 == id@
            && forall|k: int|
            0 <= k < r.unwrap() ==> (#[trigger] counts_view(out@)[k]).0 != id@,
{
    let n = out.len();
    let mut j: usize = 0;
    while j < n
        invariant
            n == out@.len(),
            j <= n,
            forall|k: int| 0 <= k < j ==> (#[trigger] counts_view(out@)[k]).0 != id@,
        decreases n - j,
    {
        if out[j].0 == *id {
            proof {
                assert(counts_view(out@)[j as int].0 == id@);
            }
            return Some(j);
        }
        proof {
            assert(counts_view(out@)[j as int].0 == out@[j as int].0@);
        }
        j += 1;
    }
    None
}

/// Sum the per-ref download counts of one month into per-application
/// totals: each ref names its application before the first slash, and
/// counts of one application add up, saturating. Totals keep the order
/// in which applications were first seen.
pub fn aggregate_ref_downloads(refs: &Vec<(String, u64)>) -> (r: Vec<(AppId, u64)>)
    ensures
        counts_view(r@) == spec_aggregate(refs@, Seq::<(Seq<char>, u64)>::empty()),
{
    let mut out: Vec<(AppId, u64)> = Vec::new();
    let n = refs.len();
    let mut i: usize = 0;
    proof {
        assert(refs@.skip(0) =~= refs@);
        assert(counts_view(out@) =~= Seq::<(Seq<char>, u64)>::empty());
    }
    while i < n
        invariant
            n == refs@.len(),
            i <= n,
            spec_aggregate(refs@, Seq::<(Seq<char>, u64)>::empty()) == spec_aggregate(
                refs@.skip(i as int),
                counts_view(out@),
            ),
        decreases n - i,
    {
        let ghost rest = refs@.skip(i as int);
        proof {
            assert(rest[0] == refs@[i as int]);
            assert(rest.skip(1) =~= refs@.skip(i as int + 1));
        }
        // The identifier is the ref up to its first slash.
        let cs = crate::strutil::chars_of(refs[i].0.as_str());
        let parts = crate::strutil::split_chars(&cs, '/');
        proof {
            assert(parts.deep_view().len() >= 1);
        }
        let id = AppId::new(crate::strutil::string_from_chars(&parts[0]).as_str());
        let count = refs[i].1;
        proof {
            assert(parts.deep_view()[0] == parts@[0]@);
            assert(id@ == spec_ref_id(refs@[i as int].0@));
        }
        match find_count_pos(&out, &id) {
            Some(j) => {
                proof {
                    lemma_count_find_prefix(counts_view(out@), id@, j as int);
                }
                let total = if u64::MAX - out[j].1 < count {
                    u64::MAX
                } else {
                    out[j].1 + count
                };
                let ghost before = out@;
                out.set(j, (id, total));
                proof {
                    assert(counts_view(out@) =~= spec_accumulate(
                        counts_view(before),
                        spec_ref_id(rest[0].0@),
                        count,
                    ));
                }
            },
            None => {
                proof {
                    lemma_count_find(counts_view(out@), id@);
                    if spec_count_find(counts_view(out@), id@) != -1 {
                        assert(counts_view(out@)[spec_count_find(counts_view(out@), id@)].0
                            == id@);
                    }
                }
                let ghost before = out@;
                out.push((id, count));
                proof {
                    assert(counts_view(out@) =~= spec_accumulate(
                        counts_view(before),
                        spec_ref_id(rest[0].0@),
                        count,
                    ));
                }
            },
        }
        i += 1;
    }
    proof {
        assert(refs@.skip(n as int) =~= Seq::<(String, u64)>::empty());
    }
    out
}

} // verus!
