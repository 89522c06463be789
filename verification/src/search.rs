//! The generic search engine: one shared filter/weight/sort pipeline
//! consumed by every page. Per identifier it scans the backend entries,
//! skips entries published for another OS release, applies the page's
//! scoring rule keeping the best (lowest) weight, filters by compatibility
//! bucket, and sorts the survivors by the requested mode with full
//! tie-breaks, so the output is a function of the inputs alone.

use vstd::prelude::*;
use crate::app_entry::AppEntryV;
use crate::app_id::{spec_is_system, AppId};
use crate::app_info::{latest_timestamp, spec_latest_timestamp, AppInfo, AppInfoV, AppProvide,
    AppProvideV, ReleaseV};
use crate::apps::{Apps, BucketV};
use crate::category::{spec_category_id, Category};
use crate::compat::{risk_ord, spec_risk_ord, RiskLevel, WaylandCompatibility};
use crate::strutil::{
    cmp_flip, contains_seq, lemma_seq_cmp_flip, lemma_seq_cmp_trans_full, seq_cmp, starts_with_seq,
    str_cmp, str_eq, Cmp,
};
use crate::textquery::{text_find, TextQuery};

verus! {

/// How a result list is ordered.
#[derive(Clone, Copy, Debug, Eq, PartialEq, Structural)]
pub enum SearchSortMode {
    Relevance,
    MostDownloads,
    RecentlyUpdated,
    BestWaylandSupport,
}

/// Which compatibility bucket a result list is restricted to.
#[derive(Clone, Copy, Debug, Eq, PartialEq, Structural)]
pub enum WaylandFilter {
    All,
    Excellent,
    Good,
    Caution,
    Limited,
    Unknown,
}

/// A relevance weight: compared lexicographically, lower is better. The
/// major part carries the rule's primary measure, the minor part its
/// popularity tie-break.
#[derive(Clone, Copy, Debug, Eq, PartialEq, Structural)]
pub struct Weight {
    pub major: i64,
    pub minor: i64,
}

/// Lexicographic comparison of weights.
pub open spec fn weight_cmp(a: Weight, b: Weight) -> Cmp {
    if a.major < b.major {
        Cmp::Less
    } else if a.major > b.major {
        Cmp::Greater
    } else if a.minor < b.minor {
        Cmp::Less
    } else if a.minor > b.minor {
        Cmp::Greater
    } else {
        Cmp::Equal
    }
}

/// `a` is a strictly better (lower) weight than `b`.
pub open spec fn weight_lt(a: Weight, b: Weight) -> bool {
    weight_cmp(a, b) == Cmp::Less
}

/// Exec lexicographic comparison of weights.
pub fn weight_cmp_exec(a: Weight, b: Weight) -> (r: Cmp)
    ensures
        r == weight_cmp(a, b),
{
    if a.major < b.major {
        Cmp::Less
    } else if a.major > b.major {
        Cmp::Greater
    } else if a.minor < b.minor {
        Cmp::Less
    } else if a.minor > b.minor {
        Cmp::Greater
    } else {
        Cmp::Equal
    }
}

/// The download count as a weight contribution: more downloads give a
/// lower (better) weight, saturating at the far end of the range.
pub open spec fn spec_neg_downloads(d: u64) -> i64 {
    if d > i64::MAX as u64 {
        i64::MIN
    } else {
        (-(d as int)) as i64
    }
}

/// Exec form of the download-count weight contribution.
pub fn neg_downloads(d: u64) -> (r: i64)
    ensures
        r == spec_neg_downloads(d),
{
    if d > i64::MAX as u64 {
        i64::MIN
    } else {
        -(d as i64)
    }
}

/// Negated release timestamp as a weight, saturating on the one value
/// whose negation does not fit.
pub open spec fn spec_neg_ts(ts: i64) -> i64 {
    if ts == i64::MIN {
        i64::MAX
    } else {
        (-(ts as int)) as i64
    }
}

/// One ranked result of a query.
#[derive(Debug)]
pub struct SearchResult {
    backend_name: String,
    pub id: AppId,
    pub info: AppInfo,
    pub weight: Weight,
}

/// Ghost form of a result.
#[verifier::ext_equal]
pub ghost struct SearchResultV {
    pub backend_name: Seq<char>,
    pub id: Seq<char>,
    pub info: AppInfoV,
    pub weight: Weight,
}

impl View for SearchResult {
    type V = SearchResultV;

    closed spec fn view(&self) -> SearchResultV {
        SearchResultV {
            backend_name: self.backend_name@,
            id: self.id@,
            info: self.info@,
            weight: self.weight,
        }
    }
}

impl SearchResult {
    /// Assemble a result.
    pub fn new(backend_name: String, id: AppId, info: AppInfo, weight: Weight) -> (r: Self)
        ensures
            r@ == (SearchResultV { backend_name: backend_name@, id: id@, info: info@, weight }),
    {
        SearchResult { backend_name, id, info, weight }
    }

    /// The backend this result came from, for later operation dispatch.
    pub fn backend_name(&self) -> (r: &str)
        ensures
            r@ == self@.backend_name,
    {
        self.backend_name.as_str()
    }
}

impl Clone for SearchResult {
    fn clone(&self) -> (r: Self)
        ensures
            r@ == self@,
    {
        let r = SearchResult {
            backend_name: self.backend_name.clone(),
            id: self.id.clone(),
            info: self.info.clone(),
            weight: self.weight,
        };
        proof {
            assert(r@ =~= self@);
        }
        r
    }
}

/// The page-specific scoring rules: each page configures the engine with
/// one of these, and each is a pure function of the entry it scores.
#[derive(Debug)]
pub enum ScoreRule {
    /// Free-text search: match against name, then summary, then
    /// description, penalizing partial and non-prefix matches, breaking
    /// ties by popularity.
    TextSearch(TextQuery),
    /// Membership in any of the listed categories, most downloaded first.
    Category(Vec<Category>),
    /// Position in a fixed editorial list of normalized identifiers.
    EditorsChoice(Vec<String>),
    /// Every desktop application, most downloaded first.
    PopularApps,
    /// Desktop applications providing the platform-application capability,
    /// most downloaded first.
    MadeForCosmic,
    /// Desktop applications by newest release not after the given time.
    RecentlyUpdated(i64),
    /// Installed entries only, OS-native packages first.
    Installed,
    /// Exactly one identifier.
    AppIdExact(AppId),
    /// Desktop entries handling one media type, most downloaded first.
    MimeHandler(String),
    /// A rule that excludes every entry, for pages whose listing is not
    /// yet defined.
    Nothing,
}

/// Ghost form of a scoring rule.
#[verifier::ext_equal]
pub ghost enum ScoreRuleV {
    TextSearch(Seq<char>),
    Category(Seq<Category>),
    EditorsChoice(Seq<Seq<char>>),
    PopularApps,
    MadeForCosmic,
    RecentlyUpdated(i64),
    Installed,
    AppIdExact(Seq<char>),
    MimeHandler(Seq<char>),
    Nothing,
}

impl View for ScoreRule {
    type V = ScoreRuleV;

    open spec fn view(&self) -> ScoreRuleV {
        match self {
            ScoreRule::TextSearch(q) => ScoreRuleV::TextSearch(q@),
            ScoreRule::Category(cats) => ScoreRuleV::Category(cats@),
            ScoreRule::EditorsChoice(ids) => ScoreRuleV::EditorsChoice(ids.deep_view()),
            ScoreRule::PopularApps => ScoreRuleV::PopularApps,
            ScoreRule::MadeForCosmic => ScoreRuleV::MadeForCosmic,
            ScoreRule::RecentlyUpdated(now) => ScoreRuleV::RecentlyUpdated(*now),
            ScoreRule::Installed => ScoreRuleV::Installed,
            ScoreRule::AppIdExact(id) => ScoreRuleV::AppIdExact(id@),
            ScoreRule::MimeHandler(m) => ScoreRuleV::MimeHandler(m@),
            ScoreRule::Nothing => ScoreRuleV::Nothing,
        }
    }
}

/// The capability identifier that marks an applet.
pub open spec fn applet_provide_id() -> Seq<char> {
    "com.system76.CosmicApplet"@
}

/// The capability identifier that marks a platform application.
pub open spec fn cosmic_provide_id() -> Seq<char> {
    "com.system76.CosmicApplication"@
}

/// The record declares that it provides the named component interface.
pub open spec fn spec_provides_id(info: AppInfoV, pid: Seq<char>) -> bool {
    exists|j: int| 0 <= j < info.provides.len() && info.provides[j] == AppProvideV::Id(pid)
}

/// The record declares that it handles the named media type.
pub open spec fn spec_provides_media(info: AppInfoV, mime: Seq<char>) -> bool {
    exists|j: int|
        0 <= j < info.provides.len() && info.provides[j] == AppProvideV::MediaType(mime)
}

/// The record lists the category identifier among its categories.
pub open spec fn spec_has_category(info: AppInfoV, cat_id: Seq<char>) -> bool {
    exists|j: int| 0 <= j < info.categories.len() && info.categories[j] == cat_id
}

/// The record belongs to one of the listed categories; the synthetic
/// applet category means providing the applet capability instead.
pub open spec fn spec_in_categories(info: AppInfoV, cats: Seq<Category>) -> bool {
    exists|j: int|
        0 <= j < cats.len() && {
            if cats[j] == Category::CosmicApplet {
                spec_provides_id(info, applet_provide_id())
            } else {
                spec_has_category(info, spec_category_id(#[trigger] cats[j]))
            }
        }
}

/// The weight of a text match against one field: the base if the match
/// covers the whole field, one more if it starts the field without
/// covering it, two more if it starts later; `None` when the field does
/// not match.
pub open spec fn spec_text_field(q: Seq<char>, field: Seq<char>, base: int) -> Option<int> {
    match text_find(q, field) {
        None => None,
        Some(m) => Some(
            if m.0 == 0 {
                if m.1 == vstd::utf8::encode_utf8(field).len() as usize {
                    base
                } else {
                    base + 1
                }
            } else {
                base + 2
            },
        ),
    }
}

/// The primary text-search weight of a record: its name at base 0, else
/// its summary at base 3, else its description at base 6.
pub open spec fn spec_text_major(q: Seq<char>, info: AppInfoV) -> Option<int> {
    match spec_text_field(q, info.name, 0) {
        Some(w) => Some(w),
        None => match spec_text_field(q, info.summary, 3) {
            Some(w) => Some(w),
            None => spec_text_field(q, info.description, 6),
        },
    }
}

/// First position of a normalized identifier in the editorial list, or -1.
pub open spec fn spec_first_index(list: Seq<Seq<char>>, x: Seq<char>) -> int
    decreases list.len(),
{
    if list.len() == 0 {
        -1
    } else if list[0] == x {
        0
    } else {
        let r = spec_first_index(list.skip(1), x);
        if r == -1 {
            -1
        } else {
            r + 1
        }
    }
}

/// A nonnegative position, saturated into the weight range.
pub open spec fn spec_sat_i64(k: int) -> i64 {
    if k > i64::MAX {
        i64::MAX
    } else {
        k as i64
    }
}

/// The recency weight: the most negative negated timestamp of any release
/// strictly before `now`, starting from zero.
pub open spec fn spec_recent_weight(releases: Seq<ReleaseV>, now: i64, acc: i64) -> i64
    decreases releases.len(),
{
    if releases.len() == 0 {
        acc
    } else {
        let acc1 = match releases[0].timestamp_opt {
            Some(ts) => if ts < now && spec_neg_ts(ts) < acc {
                spec_neg_ts(ts)
            } else {
                acc
            },
            None => acc,
        };
        spec_recent_weight(releases.skip(1), now, acc1)
    }
}

/// The score a rule gives one entry: `None` excludes the entry, otherwise
/// a weight where lower is better.
pub open spec fn spec_score(
    rule: ScoreRuleV,
    id_norm: Seq<char>,
    info: AppInfoV,
    installed: bool,
) -> Option<Weight> {
    match rule {
        ScoreRuleV::TextSearch(q) => {
            if info.kind != crate::app_info::AppKind::DesktopApplication {
                None
            } else {
                match spec_text_major(q, info) {
                    None => None,
                    Some(m) => Some(
                        Weight {
                            major: m as i64,
                            minor: spec_neg_downloads(info.monthly_downloads),
                        },
                    ),
                }
            }
        },
        ScoreRuleV::Category(cats) => {
            if info.kind != crate::app_info::AppKind::DesktopApplication {
                None
            } else if spec_in_categories(info, cats) {
                Some(Weight { major: spec_neg_downloads(info.monthly_downloads), minor: 0 })
            } else {
                None
            }
        },
        ScoreRuleV::EditorsChoice(list) => {
            let k = spec_first_index(list, id_norm);
            if k == -1 {
                None
            } else {
                Some(Weight { major: spec_sat_i64(k), minor: 0 })
            }
        },
        ScoreRuleV::PopularApps => {
            if info.kind != crate::app_info::AppKind::DesktopApplication {
                None
            } else {
                Some(Weight { major: spec_neg_downloads(info.monthly_downloads), minor: 0 })
            }
        },
        ScoreRuleV::MadeForCosmic => {
            if info.kind != crate::app_info::AppKind::DesktopApplication {
                None
            } else if spec_provides_id(info, cosmic_provide_id()) {
                Some(Weight { major: spec_neg_downloads(info.monthly_downloads), minor: 0 })
            } else {
                None
            }
        },
        ScoreRuleV::RecentlyUpdated(now) => {
            if info.kind != crate::app_info::AppKind::DesktopApplication {
                None
            } else {
                Some(Weight { major: spec_recent_weight(info.releases, now, 0), minor: 0 })
            }
        },
        ScoreRuleV::Installed => {
            if installed {
                Some(
                    Weight {
                        major: if spec_is_system(id_norm) {
                            -1i64
                        } else {
                            0i64
                        },
                        minor: 0,
                    },
                )
            } else {
                None
            }
        },
        ScoreRuleV::AppIdExact(qid) => {
            if id_norm == qid {
                Some(Weight { major: 0, minor: 0 })
            } else {
                None
            }
        },
        ScoreRuleV::MimeHandler(mime) => {
            if spec_provides_media(info, mime) {
                Some(Weight { major: spec_neg_downloads(info.monthly_downloads), minor: 0 })
            } else {
                None
            }
        },
        ScoreRuleV::Nothing => None,
    }
}

/// Whether the record declares the capability identifier.
fn provides_id_exec(info: &AppInfo, pid: &str) -> (r: bool)
    ensures
        r == spec_provides_id(info@, pid@),
{
    let n = info.provides.len();
    let mut j: usize = 0;
    while j < n
        invariant
            n == info.provides@.len(),
            j <= n,
            forall|k: int| 0 <= k < j ==> info.provides@[k]@ != AppProvideV::Id(pid@),
        decreases n - j,
    {
        match &info.provides[j] {
            AppProvide::Id(s) => {
                if str_eq(s.as_str(), pid) {
                    proof {
                        assert(info@.provides[j as int] == AppProvideV::Id(pid@));
                    }
                    return true;
                }
            },
            AppProvide::MediaType(_) => {},
        }
        j += 1;
    }
    proof {
        assert forall|k: int| 0 <= k < info@.provides.len() implies #[trigger] info@.provides[k]
            != AppProvideV::Id(pid@) by {
            assert(info@.provides[k] == info.provides@[k]@);
        }
    }
    false
}

/// Whether the record declares the media type.
fn provides_media_exec(info: &AppInfo, mime: &str) -> (r: bool)
    ensures
        r == spec_provides_media(info@, mime@),
{
    let n = info.provides.len();
    let mut j: usize = 0;
    while j < n
        invariant
            n == info.provides@.len(),
            j <= n,
            forall|k: int| 0 <= k < j ==> info.provides@[k]@ != AppProvideV::MediaType(mime@),
        decreases n - j,
    {
        match &info.provides[j] {
            AppProvide::MediaType(s) => {
                if str_eq(s.as_str(), mime) {
                    proof {
                        assert(info@.provides[j as int] == AppProvideV::MediaType(mime@));
                    }
                    return true;
                }
            },
            AppProvide::Id(_) => {},
        }
        j += 1;
    }
    proof {
        assert forall|k: int| 0 <= k < info@.provides.len() implies #[trigger] info@.provides[k]
            != AppProvideV::MediaType(mime@) by {
            assert(info@.provides[k] == info.provides@[k]@);
        }
    }
    false
}

/// Whether the record lists the category identifier.
fn has_category_exec(info: &AppInfo, cat_id: &str) -> (r: bool)
    ensures
        r == spec_has_category(info@, cat_id@),
{
    let n = info.categories.len();
    let mut j: usize = 0;
    while j < n
        invariant
            n == info.categories@.len(),
            j <= n,
            forall|k: int| 0 <= k < j ==> info.categories@[k]@ != cat_id@,
        decreases n - j,
    {
        if str_eq(info.categories[j].as_str(), cat_id) {
            proof {
                assert(info@.categories[j as int] == cat_id@);
            }
            return true;
        }
        j += 1;
    }
    proof {
        assert forall|k: int| 0 <= k < info@.categories.len() implies #[trigger] info@.categories[k]
            != cat_id@ by {
            assert(info@.categories[k] == info.categories@[k]@);
        }
    }
    false
}

/// The score a rule gives one entry.
pub fn score(rule: &ScoreRule, id: &AppId, info: &AppInfo, installed: bool) -> (r: Option<Weight>)
    ensures
        r == spec_score(rule@, id@, info@, installed),
{
    match rule {
        ScoreRule::TextSearch(q) => {
            if !matches!(info.kind, crate::app_info::AppKind::DesktopApplication) {
                return None;
            }
            let minor = neg_downloads(info.monthly_downloads);
            if let Some(m) = q.find(info.name.as_str()) {
                let major: i64 = if m.0 == 0 {
                    if m.1 == info.name.as_str().len() {
                        0
                    } else {
                        1
                    }
                } else {
                    2
                };
                return Some(Weight { major, minor });
            }
            if let Some(m) = q.find(info.summary.as_str()) {
                let major: i64 = if m.0 == 0 {
                    if m.1 == info.summary.as_str().len() {
                        3
                    } else {
                        4
                    }
                } else {
                    5
                };
                return Some(Weight { major, minor });
            }
            if let Some(m) = q.find(info.description.as_str()) {
                let major: i64 = if m.0 == 0 {
                    if m.1 == info.description.as_str().len() {
                        6
                    } else {
                        7
                    }
                } else {
                    8
                };
                return Some(Weight { major, minor });
            }
            None
        },
        ScoreRule::Category(cats) => {
            if !matches!(info.kind, crate::app_info::AppKind::DesktopApplication) {
                return None;
            }
            let n = cats.len();
            let mut j: usize = 0;
            while j < n
                invariant
                    rule@ == ScoreRuleV::Category(cats@),
                    info@.kind == crate::app_info::AppKind::DesktopApplication,
                    n == cats@.len(),
                    j <= n,
                    forall|k: int|
                        0 <= k < j ==> !{
                            if cats@[k] == Category::CosmicApplet {
                                spec_provides_id(info@, applet_provide_id())
                            } else {
                                spec_has_category(info@, spec_category_id(#[trigger] cats@[k]))
                            }
                        },
                decreases n - j,
            {
                let cat = cats[j];
                let matched = if matches!(cat, Category::CosmicApplet) {
                    provides_id_exec(info, "com.system76.CosmicApplet")
                } else {
                    has_category_exec(info, cat.id())
                };
                if matched {
                    proof {
                        let cj = cats@[j as int];
                        assert(0 <= j < cats@.len() && {
                            if cj == Category::CosmicApplet {
                                spec_provides_id(info@, applet_provide_id())
                            } else {
                                spec_has_category(info@, spec_category_id(cj))
                            }
                        });
                        assert(spec_in_categories(info@, cats@));
                    }
                    return Some(Weight { major: neg_downloads(info.monthly_downloads), minor: 0 });
                }
                j += 1;
            }
            None
        },
        ScoreRule::EditorsChoice(list) => {
            proof {
                lemma_first_index_facts(list.deep_view(), id@);
            }
            let n = list.len();
            let mut j: usize = 0;
            while j < n
                invariant
                    rule@ == ScoreRuleV::EditorsChoice(list.deep_view()),
                    n == list@.len(),
                    j <= n,
                    forall|k: int| 0 <= k < j ==> list.deep_view()[k] != id@,
                decreases n - j,
            {
                if str_eq(list[j].as_str(), id.normalized()) {
                    proof {
                        assert(list.deep_view()[j as int] == id@);
                        lemma_first_index_prefix(list.deep_view(), id@, j as int);
                    }
                    let major: i64 = if (j as u64) > (i64::MAX as u64) {
                        i64::MAX
                    } else {
                        j as i64
                    };
                    return Some(Weight { major, minor: 0 });
                }
                proof {
                    assert(list.deep_view()[j as int] == list@[j as int]@);
                }
                j += 1;
            }
            proof {
                assert(forall|k: int|
                    0 <= k < list.deep_view().len() ==> #[trigger] list.deep_view()[k] != id@);
            }
            None
        },
        ScoreRule::PopularApps => {
            if !matches!(info.kind, crate::app_info::AppKind::DesktopApplication) {
                return None;
            }
            Some(Weight { major: neg_downloads(info.monthly_downloads), minor: 0 })
        },
        ScoreRule::MadeForCosmic => {
            if !matches!(info.kind, crate::app_info::AppKind::DesktopApplication) {
                return None;
            }
            if provides_id_exec(info, "com.system76.CosmicApplication") {
                Some(Weight { major: neg_downloads(info.monthly_downloads), minor: 0 })
            } else {
                None
            }
        },
        ScoreRule::RecentlyUpdated(now) => {
            if !matches!(info.kind, crate::app_info::AppKind::DesktopApplication) {
                return None;
            }
            proof {
                assert(info@.releases.skip(0) =~= info@.releases);
            }
            let n = info.releases.len();
            let mut acc: i64 = 0;
            let mut j: usize = 0;
            while j < n
                invariant
                    n == info.releases@.len(),
                    j <= n,
                    spec_recent_weight(info@.releases, *now, 0) == spec_recent_weight(
                        info@.releases.skip(j as int),
                        *now,
                        acc,
                    ),
                decreases n - j,
            {
                let ghost rest = info@.releases.skip(j as int);
                proof {
                    assert(rest[0] == info@.releases[j as int]);
                    assert(info@.releases[j as int] == info.releases@[j as int]@);
                    assert(rest.skip(1) =~= info@.releases.skip(j as int + 1));
                }
                if let Some(ts) = info.releases[j].timestamp_opt {
                    if ts < *now {
                        let w: i64 = if ts == i64::MIN {
                            i64::MAX
                        } else {
                            -ts
                        };
                        if w < acc {
                            acc = w;
                        }
                    }
                }
                j += 1;
            }
            proof {
                assert(info@.releases.skip(n as int) =~= Seq::<ReleaseV>::empty());
            }
            Some(Weight { major: acc, minor: 0 })
        },
        ScoreRule::Installed => {
            if installed {
                Some(
                    Weight {
                        major: if id.is_system() {
                            -1
                        } else {
                            0
                        },
                        minor: 0,
                    },
                )
            } else {
                None
            }
        },
        ScoreRule::AppIdExact(qid) => {
            if *id == *qid {
                Some(Weight { major: 0, minor: 0 })
            } else {
                None
            }
        },
        ScoreRule::MimeHandler(mime) => {
            if provides_media_exec(info, mime.as_str()) {
                Some(Weight { major: neg_downloads(info.monthly_downloads), minor: 0 })
            } else {
                None
            }
        },
        ScoreRule::Nothing => None,
    }
}

/// Whether a backend entry may contribute a weight for this OS release:
/// Flatpak-family entries always may; any other entry is skipped when it
/// declares a nonempty origin repository that does not contain the running
/// release codename.
pub open spec fn spec_entry_eligible(e: AppEntryV, codename: Seq<char>) -> bool {
    starts_with_seq(e.backend_name, "flatpak-"@) || match e.info.origin_opt {
        None => true,
        Some(o) => o.len() == 0 || contains_seq(o, codename),
    }
}

/// Exec form of the origin-filtering rule.
pub fn entry_eligible(e: &crate::app_entry::AppEntry, codename: &str) -> (r: bool)
    ensures
        r == spec_entry_eligible(e@, codename@),
{
    if crate::strutil::str_starts_with(e.backend_name.as_str(), "flatpak-") {
        return true;
    }
    if e.info.origin_opt.is_none() {
        return true;
    }
    let origin = e.info.origin_opt.as_ref().unwrap();
    if origin.as_str().unicode_len() == 0 {
        return true;
    }
    crate::strutil::str_contains(origin.as_str(), codename)
}

/// The running best weight after scanning entries front to back: an
/// eligible entry's score replaces the accumulator only when strictly
/// better, so the first entry wins ties.
pub open spec fn spec_scan_best(
    entries: Seq<AppEntryV>,
    rule: ScoreRuleV,
    codename: Seq<char>,
    id_norm: Seq<char>,
    acc: Option<Weight>,
) -> Option<Weight>
    decreases entries.len(),
{
    if entries.len() == 0 {
        acc
    } else {
        let acc1 = if spec_entry_eligible(entries[0], codename) {
            match spec_score(rule, id_norm, entries[0].info, entries[0].installed) {
                Some(w) => match acc {
                    Some(p) => if weight_lt(w, p) {
                        Some(w)
                    } else {
                        acc
                    },
                    None => Some(w),
                },
                None => acc,
            }
        } else {
            acc
        };
        spec_scan_best(entries.skip(1), rule, codename, id_norm, acc1)
    }
}

/// The best weight of a bucket's entries, if any entry scored.
pub open spec fn spec_best_weight(
    entries: Seq<AppEntryV>,
    rule: ScoreRuleV,
    codename: Seq<char>,
    id_norm: Seq<char>,
) -> Option<Weight> {
    spec_scan_best(entries, rule, codename, id_norm, None)
}

/// Whether a classification falls in the filter's bucket: each named
/// filter selects exactly one risk level, and the unknown filter selects
/// exactly the records with no classification.
pub open spec fn spec_matches_filter(
    f: WaylandFilter,
    c: Option<WaylandCompatibility>,
) -> bool {
    match f {
        WaylandFilter::All => true,
        WaylandFilter::Excellent => c is Some && c.unwrap().risk_level == RiskLevel::Low,
        WaylandFilter::Good => c is Some && c.unwrap().risk_level == RiskLevel::Medium,
        WaylandFilter::Caution => c is Some && c.unwrap().risk_level == RiskLevel::High,
        WaylandFilter::Limited => c is Some && c.unwrap().risk_level == RiskLevel::Critical,
        WaylandFilter::Unknown => c is None,
    }
}

/// Exec form of the compatibility filter.
pub fn matches_filter(f: WaylandFilter, c: Option<WaylandCompatibility>) -> (r: bool)
    ensures
        r == spec_matches_filter(f, c),
{
    match f {
        WaylandFilter::All => true,
        WaylandFilter::Excellent => match c {
            Some(cc) => matches!(cc.risk_level, RiskLevel::Low),
            None => false,
        },
        WaylandFilter::Good => match c {
            Some(cc) => matches!(cc.risk_level, RiskLevel::Medium),
            None => false,
        },
        WaylandFilter::Caution => match c {
            Some(cc) => matches!(cc.risk_level, RiskLevel::High),
            None => false,
        },
        WaylandFilter::Limited => match c {
            Some(cc) => matches!(cc.risk_level, RiskLevel::Critical),
            None => false,
        },
        WaylandFilter::Unknown => c.is_none(),
    }
}

/// The result one bucket contributes: its best weight if any entry
/// scored, displayed with the first (preferred) entry's record, and kept
/// only when that record passes the compatibility filter.
pub open spec fn spec_bucket_result(
    b: BucketV,
    rule: ScoreRuleV,
    codename: Seq<char>,
    filter: WaylandFilter,
) -> Option<SearchResultV> {
    if b.entries.len() == 0 {
        None
    } else {
        match spec_best_weight(b.entries, rule, codename, b.id) {
            None => None,
            Some(w) => {
                let first = b.entries[0];
                if spec_matches_filter(filter, first.info.wayland_compat_opt) {
                    Some(
                        SearchResultV {
                            backend_name: first.backend_name,
                            id: b.id,
                            info: first.info,
                            weight: w,
                        },
                    )
                } else {
                    None
                }
            },
        }
    }
}

/// The unsorted results of all buckets, in map order.
pub open spec fn spec_collect(
    v: Seq<BucketV>,
    rule: ScoreRuleV,
    codename: Seq<char>,
    filter: WaylandFilter,
) -> Seq<SearchResultV>
    decreases v.len(),
{
    if v.len() == 0 {
        Seq::<SearchResultV>::empty()
    } else {
        let rest = spec_collect(v.skip(1), rule, codename, filter);
        match spec_bucket_result(v[0], rule, codename, filter) {
            Some(r) => seq![r] + rest,
            None => rest,
        }
    }
}

/// Three-way comparison of integers.
pub open spec fn int_cmp(a: int, b: int) -> Cmp {
    if a < b {
        Cmp::Less
    } else if a > b {
        Cmp::Greater
    } else {
        Cmp::Equal
    }
}

/// The recency key of a record: its newest release timestamp, with a
/// missing timestamp below every present one so it sorts last.
pub open spec fn spec_ts_key(t: Option<i64>) -> int {
    match t {
        None => (i64::MIN as int) - 1,
        Some(ts) => ts as int,
    }
}

/// The risk key of a result: the ordinal of its classified risk, with a
/// missing classification treated as critical.
pub open spec fn spec_risk_key(info: AppInfoV) -> int {
    match info.wayland_compat_opt {
        Some(c) => spec_risk_ord(c.risk_level),
        None => spec_risk_ord(RiskLevel::Critical),
    }
}

/// Total order on results for one sort mode, with full tie-breaks:
/// relevance sorts by ascending weight, the download mode by descending
/// downloads, the recency mode by descending newest-release timestamp,
/// the compatibility mode by ascending risk; all break ties by name, and
/// relevance further by backend name. The name tie-breaks compare by
/// code point: a desktop shell would collate names by locale, but a
/// locale-dependent order cannot be a specification value, and only the
/// fixed order keeps the ranking a function of its inputs alone.
pub open spec fn spec_result_cmp(a: SearchResultV, b: SearchResultV, mode: SearchSortMode) -> Cmp {
    match mode {
        SearchSortMode::Relevance => {
            if weight_cmp(a.weight, b.weight) != Cmp::Equal {
                weight_cmp(a.weight, b.weight)
            } else if seq_cmp(a.info.name, b.info.name) != Cmp::Equal {
                seq_cmp(a.info.name, b.info.name)
            } else {
                seq_cmp(a.backend_name, b.backend_name)
            }
        },
        SearchSortMode::MostDownloads => {
            if int_cmp(b.info.monthly_downloads as int, a.info.monthly_downloads as int)
                != Cmp::Equal {
                int_cmp(b.info.monthly_downloads as int, a.info.monthly_downloads as int)
            } else {
                seq_cmp(a.info.name, b.info.name)
            }
        },
        SearchSortMode::RecentlyUpdated => {
            let ka = spec_ts_key(spec_latest_timestamp(a.info));
            let kb = spec_ts_key(spec_latest_timestamp(b.info));
            if int_cmp(kb, ka) != Cmp::Equal {
                int_cmp(kb, ka)
            } else {
                seq_cmp(a.info.name, b.info.name)
            }
        },
        SearchSortMode::BestWaylandSupport => {
            if int_cmp(spec_risk_key(a.info), spec_risk_key(b.info)) != Cmp::Equal {
                int_cmp(spec_risk_key(a.info), spec_risk_key(b.info))
            } else {
                seq_cmp(a.info.name, b.info.name)
            }
        },
    }
}

/// `a` sorts at or before `b` under the mode.
pub open spec fn result_le(a: SearchResultV, b: SearchResultV, mode: SearchSortMode) -> bool {
    spec_result_cmp(a, b, mode) != Cmp::Greater
}

/// Swapping the results reverses the comparison.
pub proof fn lemma_result_cmp_flip(a: SearchResultV, b: SearchResultV, mode: SearchSortMode)
    ensures
        spec_result_cmp(b, a, mode) == cmp_flip(spec_result_cmp(a, b, mode)),
{
    lemma_seq_cmp_flip(a.info.name, b.info.name);
    lemma_seq_cmp_flip(a.backend_name, b.backend_name);
}

/// The result order is transitive.
pub proof fn lemma_result_le_trans(
    a: SearchResultV,
    b: SearchResultV,
    c: SearchResultV,
    mode: SearchSortMode,
)
    requires
        result_le(a, b, mode),
        result_le(b, c, mode),
    ensures
        result_le(a, c, mode),
{
    lemma_seq_cmp_trans_full(a.info.name, b.info.name, c.info.name);
    lemma_seq_cmp_trans_full(a.backend_name, b.backend_name, c.backend_name);
}

/// Exec comparison of two results under one sort mode.
pub fn result_cmp(a: &SearchResult, b: &SearchResult, mode: SearchSortMode) -> (r: Cmp)
    ensures
        r == spec_result_cmp(a@, b@, mode),
{
    match mode {
        SearchSortMode::Relevance => {
            let wc = weight_cmp_exec(a.weight, b.weight);
            if !matches!(wc, Cmp::Equal) {
                return wc;
            }
            let nc = str_cmp(a.info.name.as_str(), b.info.name.as_str());
            if !matches!(nc, Cmp::Equal) {
                return nc;
            }
            str_cmp(a.backend_name.as_str(), b.backend_name.as_str())
        },
        SearchSortMode::MostDownloads => {
            let da = a.info.monthly_downloads;
            let db = b.info.monthly_downloads;
            if db < da {
                Cmp::Less
            } else if db > da {
                Cmp::Greater
            } else {
                str_cmp(a.info.name.as_str(), b.info.name.as_str())
            }
        },
        SearchSortMode::RecentlyUpdated => {
            let ta = latest_timestamp(&a.info);
            let tb = latest_timestamp(&b.info);
            let c = match (tb, ta) {
                (None, None) => Cmp::Equal,
                (None, Some(_)) => Cmp::Less,
                (Some(_), None) => Cmp::Greater,
                (Some(x), Some(y)) => {
                    if x < y {
                        Cmp::Less
                    } else if x > y {
                        Cmp::Greater
                    } else {
                        Cmp::Equal
                    }
                },
            };
            if !matches!(c, Cmp::Equal) {
                return c;
            }
            str_cmp(a.info.name.as_str(), b.info.name.as_str())
        },
        SearchSortMode::BestWaylandSupport => {
            let ra = match a.info.wayland_compat_opt {
                Some(c) => risk_ord(c.risk_level),
                None => risk_ord(RiskLevel::Critical),
            };
            let rb = match b.info.wayland_compat_opt {
                Some(c) => risk_ord(c.risk_level),
                None => risk_ord(RiskLevel::Critical),
            };
            if ra < rb {
                Cmp::Less
            } else if ra > rb {
                Cmp::Greater
            } else {
                str_cmp(a.info.name.as_str(), b.info.name.as_str())
            }
        },
    }
}

/// Stable insertion of a result into a sorted list: before the first
/// result that sorts strictly after it, after every tie.
pub open spec fn spec_insert_result(
    sorted: Seq<SearchResultV>,
    x: SearchResultV,
    mode: SearchSortMode,
) -> Seq<SearchResultV>
    decreases sorted.len(),
{
    if sorted.len() == 0 {
        seq![x]
    } else if spec_result_cmp(sorted[0], x, mode) == Cmp::Greater {
        seq![x] + sorted
    } else {
        seq![sorted[0]] + spec_insert_result(sorted.skip(1), x, mode)
    }
}

/// The stable insertion sort of a result list: every element inserted in
/// turn, so equal elements keep their first-seen order.
pub open spec fn spec_sort_results(s: Seq<SearchResultV>, mode: SearchSortMode) -> Seq<
    SearchResultV,
>
    decreases s.len(),
{
    if s.len() == 0 {
        s
    } else {
        spec_insert_result(spec_sort_results(s.drop_last(), mode), s.last(), mode)
    }
}

/// A result list stands in sorted order for the mode.
pub open spec fn results_sorted(s: Seq<SearchResultV>, mode: SearchSortMode) -> bool {
    forall|i: int, j: int|
        0 <= i < j < s.len() ==> result_le(#[trigger] s[i], #[trigger] s[j], mode)
}

/// The stable insertion places the result at the first index whose
/// element sorts strictly after it.
proof fn lemma_insert_result_at(
    sorted: Seq<SearchResultV>,
    x: SearchResultV,
    mode: SearchSortMode,
    k: int,
)
    requires
        0 <= k <= sorted.len(),
        forall|j: int| 0 <= j < k ==> spec_result_cmp(#[trigger] sorted[j], x, mode)
            != Cmp::Greater,
        k < sorted.len() ==> spec_result_cmp(sorted[k], x, mode) == Cmp::Greater,
    ensures
        spec_insert_result(sorted, x, mode) == sorted.insert(k, x),
    decreases k,
{
    if sorted.len() == 0 {
        assert(spec_insert_result(sorted, x, mode) =~= sorted.insert(0, x));
    } else if k == 0 {
        assert(spec_insert_result(sorted, x, mode) =~= sorted.insert(0, x));
    } else {
        assert forall|j: int| 0 <= j < k - 1 implies spec_result_cmp(
            #[trigger] sorted.skip(1)[j],
            x,
            mode,
        ) != Cmp::Greater by {
            assert(sorted.skip(1)[j] == sorted[j + 1]);
        }
        if k - 1 < sorted.skip(1).len() {
            assert(sorted.skip(1)[k - 1] == sorted[k]);
        }
        lemma_insert_result_at(sorted.skip(1), x, mode, k - 1);
        assert(seq![sorted[0]] + sorted.skip(1).insert(k - 1, x) =~= sorted.insert(k, x));
    }
}

/// A lower bound of a sorted list and of the inserted element bounds the
/// whole insertion.
proof fn lemma_insert_result_lb(
    sorted: Seq<SearchResultV>,
    x: SearchResultV,
    lb: SearchResultV,
    mode: SearchSortMode,
)
    requires
        result_le(lb, x, mode),
        forall|i: int| 0 <= i < sorted.len() ==> result_le(lb, #[trigger] sorted[i], mode),
    ensures
        forall|i: int|
            0 <= i < spec_insert_result(sorted, x, mode).len() ==> result_le(
                lb,
                #[trigger] spec_insert_result(sorted, x, mode)[i],
                mode,
            ),
    decreases sorted.len(),
{
    let out = spec_insert_result(sorted, x, mode);
    if sorted.len() == 0 {
        assert(out[0] == x);
    } else if spec_result_cmp(sorted[0], x, mode) == Cmp::Greater {
        assert forall|i: int| 0 <= i < out.len() implies result_le(lb, #[trigger] out[i], mode) by {
            if i == 0 {
            } else {
                assert(out[i] == sorted[i - 1]);
            }
        }
    } else {
        assert forall|i: int|
            0 <= i < sorted.skip(1).len() implies result_le(lb, #[trigger] sorted.skip(1)[i], mode)
        by {
            assert(sorted.skip(1)[i] == sorted[i + 1]);
        }
        lemma_insert_result_lb(sorted.skip(1), x, lb, mode);
        assert forall|i: int| 0 <= i < out.len() implies result_le(lb, #[trigger] out[i], mode) by {
            if i == 0 {
                assert(out[0] == sorted[0]);
            } else {
                assert(out[i] == spec_insert_result(sorted.skip(1), x, mode)[i - 1]);
            }
        }
    }
}

/// Stable insertion keeps a sorted list sorted.
proof fn lemma_insert_result_sorted(
    sorted: Seq<SearchResultV>,
    x: SearchResultV,
    mode: SearchSortMode,
)
    requires
        results_sorted(sorted, mode),
    ensures
        results_sorted(spec_insert_result(sorted, x, mode), mode),
    decreases sorted.len(),
{
    let out = spec_insert_result(sorted, x, mode);
    if sorted.len() == 0 {
    } else if spec_result_cmp(sorted[0], x, mode) == Cmp::Greater {
        lemma_result_cmp_flip(sorted[0], x, mode);
        assert forall|i: int, j: int| 0 <= i < j < out.len() implies result_le(
            #[trigger] out[i],
            #[trigger] out[j],
            mode,
        ) by {
            if i == 0 {
                assert(out[0] == x);
                assert(out[j] == sorted[j - 1]);
                if j > 1 {
                    lemma_result_le_trans(x, sorted[0], sorted[j - 1], mode);
                }
            } else {
                assert(out[i] == sorted[i - 1]);
                assert(out[j] == sorted[j - 1]);
            }
        }
    } else {
        let tail = sorted.skip(1);
        assert forall|i: int, j: int| 0 <= i < j < tail.len() implies result_le(
            #[trigger] tail[i],
            #[trigger] tail[j],
            mode,
        ) by {
            assert(tail[i] == sorted[i + 1]);
            assert(tail[j] == sorted[j + 1]);
        }
        lemma_insert_result_sorted(tail, x, mode);
        assert forall|i: int| 0 <= i < tail.len() implies result_le(
            sorted[0],
            #[trigger] tail[i],
            mode,
        ) by {
            assert(tail[i] == sorted[i + 1]);
        }
        lemma_insert_result_lb(tail, x, sorted[0], mode);
        let inner = spec_insert_result(tail, x, mode);
        assert forall|i: int, j: int| 0 <= i < j < out.len() implies result_le(
            #[trigger] out[i],
            #[trigger] out[j],
            mode,
        ) by {
            if i == 0 {
                assert(out[j] == inner[j - 1]);
            } else {
                assert(out[i] == inner[i - 1]);
                assert(out[j] == inner[j - 1]);
            }
        }
    }
}

/// The stable insertion sort produces a sorted list.
pub proof fn lemma_sort_results_sorted(s: Seq<SearchResultV>, mode: SearchSortMode)
    ensures
        results_sorted(spec_sort_results(s, mode), mode),
    decreases s.len(),
{
    if s.len() > 0 {
        lemma_sort_results_sorted(s.drop_last(), mode);
        lemma_insert_result_sorted(spec_sort_results(s.drop_last(), mode), s.last(), mode);
    }
}

/// The ghost list of a result vector.
pub open spec fn results_view(s: Seq<SearchResult>) -> Seq<SearchResultV> {
    Seq::new(s.len(), |i: int| s[i]@)
}

/// The full engine output: the collected per-identifier results in map
/// order, stably sorted by the requested mode.
pub open spec fn spec_generic_search(
    v: Seq<BucketV>,
    codename: Seq<char>,
    rule: ScoreRuleV,
    mode: SearchSortMode,
    filter: WaylandFilter,
) -> Seq<SearchResultV> {
    spec_sort_results(spec_collect(v, rule, codename, filter), mode)
}

/// The position where a result is stably inserted in a sorted vector.
fn find_result_pos(out: &Vec<SearchResult>, x: &SearchResult, mode: SearchSortMode) -> (p: usize)
    ensures
        p <= out@.len(),
        forall|j: int| 0 <= j < p ==> spec_result_cmp(#[trigger] out@[j]@, x@, mode)
            != Cmp::Greater,
        p < out@.len() ==> spec_result_cmp(out@[p as int]@, x@, mode) == Cmp::Greater,
{
    let n = out.len();
    let mut p: usize = 0;
    while p < n
        invariant
            n == out@.len(),
            p <= n,
            forall|j: int| 0 <= j < p ==> spec_result_cmp(#[trigger] out@[j]@, x@, mode)
                != Cmp::Greater,
        decreases n - p,
    {
        if matches!(result_cmp(&out[p], x, mode), Cmp::Greater) {
            return p;
        }
        p += 1;
    }
    p
}

/// The generic search engine. Scans the merged map in its deterministic
/// order, keeps per identifier the best weight any eligible entry
/// scored, displays each surviving identifier with its preferred entry,
/// filters by compatibility bucket, and returns the full ranked set,
/// stably sorted with total tie-breaks: the output is a function of the
/// inputs alone.
pub fn generic_search(
    apps: &Apps,
    os_codename: &str,
    rule: &ScoreRule,
    sort_mode: SearchSortMode,
    wayland_filter: WaylandFilter,
) -> (r: Vec<SearchResult>)
    requires
        apps.wf(),
    ensures
        results_view(r@) == spec_generic_search(apps@, os_codename@, rule@, sort_mode,
        wayland_filter),
        results_sorted(results_view(r@), sort_mode),
{
    let ghost v = apps@;
    let mut collected: Vec<SearchResult> = Vec::new();
    proof {
        assert(v.skip(0) =~= v);
        assert(results_view(collected@) =~= Seq::<SearchResultV>::empty());
    }
    let n = apps.len();
    let mut i: usize = 0;
    while i < n
        invariant
            v == apps@,
            apps.wf(),
            n == v.len(),
            i <= n,
            spec_collect(v, rule@, os_codename@, wayland_filter) == results_view(collected@)
                + spec_collect(v.skip(i as int), rule@, os_codename@, wayland_filter),
        decreases n - i,
    {
        let bucket = apps.bucket(i);
        let ghost b = v[i as int];
        proof {
            assert(v.skip(i as int)[0] == b);
            assert(v.skip(i as int).skip(1) =~= v.skip(i as int + 1));
        }
        // Scan the bucket's entries for the best weight.
        let en = bucket.entries.len();
        let mut best: Option<Weight> = None;
        let mut j: usize = 0;
        proof {
            assert(b.entries.skip(0) =~= b.entries);
        }
        while j < en
            invariant
                b == v[i as int],
                bucket@ == b,
                bucket.id@ == b.id,
                i < n,
                n == v.len(),
                v == apps@,
                en == bucket.entries@.len(),
                en == b.entries.len(),
                j <= en,
                forall|k: int| 0 <= k < en ==> #[trigger] bucket.entries@[k]@ == b.entries[k],
                spec_best_weight(b.entries, rule@, os_codename@, b.id) == spec_scan_best(
                    b.entries.skip(j as int),
                    rule@,
                    os_codename@,
                    b.id,
                    best,
                ),
            decreases en - j,
        {
            let ghost rest = b.entries.skip(j as int);
            proof {
                assert(rest[0] == b.entries[j as int]);
                assert(rest.skip(1) =~= b.entries.skip(j as int + 1));
            }
            let entry = &bucket.entries[j];
            if entry_eligible(entry, os_codename) {
                if let Some(w) = score(rule, &bucket.id, &entry.info, entry.installed) {
                    match best {
                        Some(p) => {
                            if matches!(weight_cmp_exec(w, p), Cmp::Less) {
                                best = Some(w);
                            }
                        },
                        None => {
                            best = Some(w);
                        },
                    }
                }
            }
            j += 1;
        }
        proof {
            assert(b.entries.skip(en as int) =~= Seq::<crate::app_entry::AppEntryV>::empty());
            assert(spec_best_weight(b.entries, rule@, os_codename@, b.id) == best);
        }
        // The displayed record is always the first (preferred) entry's.
        if let Some(w) = best {
            let first = &bucket.entries[0];
            if matches_filter(wayland_filter, first.info.wayland_compat_opt) {
                let res = SearchResult {
                    backend_name: first.backend_name.clone(),
                    id: bucket.id.clone(),
                    info: first.info.clone(),
                    weight: w,
                };
                proof {
                    assert(res@ =~= spec_bucket_result(
                        b,
                        rule@,
                        os_codename@,
                        wayland_filter,
                    ).unwrap());
                }
                let ghost before = collected@;
                collected.push(res);
                proof {
                    let br = spec_bucket_result(b, rule@, os_codename@, wayland_filter).unwrap();
                    assert(results_view(collected@) =~= results_view(before) + seq![br]);
                    assert(seq![br] + spec_collect(
                        v.skip(i as int + 1),
                        rule@,
                        os_codename@,
                        wayland_filter,
                    ) =~= spec_collect(v.skip(i as int), rule@, os_codename@, wayland_filter));
                }
            }
        }
        i += 1;
    }
    proof {
        assert(v.skip(n as int) =~= Seq::<BucketV>::empty());
        assert(results_view(collected@) == spec_collect(v, rule@, os_codename@, wayland_filter));
    }
    // Stable insertion sort by the requested mode.
    let ghost c = results_view(collected@);
    let mut out: Vec<SearchResult> = Vec::new();
    proof {
        assert(c.take(0) =~= Seq::<SearchResultV>::empty());
        assert(results_view(out@) =~= spec_sort_results(c.take(0), sort_mode));
    }
    let cn = collected.len();
    let mut j: usize = 0;
    while j < cn
        invariant
            cn == collected@.len(),
            c == results_view(collected@),
            j <= cn,
            results_view(out@) == spec_sort_results(c.take(j as int), sort_mode),
        decreases cn - j,
    {
        let x = collected[j].clone();
        proof {
            assert(x@ == c[j as int]);
        }
        let p = find_result_pos(&out, &x, sort_mode);
        proof {
            let sorted = results_view(out@);
            assert(forall|jj: int|
                0 <= jj < p ==> spec_result_cmp(#[trigger] sorted[jj], x@, sort_mode)
                    != Cmp::Greater);
            lemma_insert_result_at(sorted, x@, sort_mode, p as int);
        }
        let ghost before = out@;
        out.insert(p, x);
        proof {
            assert(results_view(out@) =~= results_view(before).insert(p as int, x@));
            assert(c.take(j as int + 1).drop_last() =~= c.take(j as int));
            assert(c.take(j as int + 1).last() == c[j as int]);
            assert(results_view(out@) == spec_sort_results(c.take(j as int + 1), sort_mode));
        }
        j += 1;
    }
    proof {
        assert(c.take(cn as int) =~= c);
        lemma_sort_results_sorted(c, sort_mode);
    }
    out
}


/// Free-text search: escaped input matched case-insensitively against
/// name, summary and description. The defensively handled case where the
/// regex engine rejects the escaped input — and only that case — yields
/// an empty result set.
pub fn search_results(
    apps: &Apps,
    os_codename: &str,
    input: &str,
    sort_mode: SearchSortMode,
    wayland_filter: WaylandFilter,
) -> (r: Vec<SearchResult>)
    requires
        apps.wf(),
    ensures
        crate::textquery::query_compiles(input@) ==> results_view(r@) == spec_generic_search(
            apps@,
            os_codename@,
            ScoreRuleV::TextSearch(input@),
            sort_mode,
            wayland_filter,
        ),
        !crate::textquery::query_compiles(input@) ==> r@.len() == 0,
{
    match TextQuery::new(input) {
        Some(q) => {
            let rule = ScoreRule::TextSearch(q);
            generic_search(apps, os_codename, &rule, sort_mode, wayland_filter)
        },
        None => Vec::new(),
    }
}

/// Category browsing: membership in any listed category, most downloaded
/// first, ranked by relevance with no compatibility filter.
pub fn categories_results(apps: &Apps, os_codename: &str, categories: Vec<Category>) -> (r: Vec<
    SearchResult,
>)
    requires
        apps.wf(),
    ensures
        results_view(r@) == spec_generic_search(
            apps@,
            os_codename@,
            ScoreRuleV::Category(categories@),
            SearchSortMode::Relevance,
            WaylandFilter::All,
        ),
{
    let rule = ScoreRule::Category(categories);
    generic_search(apps, os_codename, &rule, SearchSortMode::Relevance, WaylandFilter::All)
}

/// The scoring rule of one explore page, fixed per page.
pub open spec fn spec_explore_rule(page: crate::pages::ExplorePage, now: i64) -> ScoreRuleV {
    match page {
        crate::pages::ExplorePage::EditorsChoice => ScoreRuleV::EditorsChoice(
            seq![
                "com.system76.cosmicedit"@,
                "com.system76.cosmicfiles"@,
                "com.system76.cosmicterm"@,
                "org.mozilla.firefox"@,
                "org.gimp.gimp"@,
                "org.inkscape.inkscape"@,
                "org.blender.blender"@,
                "com.spotify.client"@,
                "org.signal.signal"@,
                "org.videolan.vlc"@,
            ],
        ),
        crate::pages::ExplorePage::PopularApps => ScoreRuleV::PopularApps,
        crate::pages::ExplorePage::MadeForCosmic => ScoreRuleV::MadeForCosmic,
        crate::pages::ExplorePage::NewApps => ScoreRuleV::Nothing,
        crate::pages::ExplorePage::RecentlyUpdated => ScoreRuleV::RecentlyUpdated(now),
        _ => ScoreRuleV::Category(page.spec_categories()),
    }
}

/// The ranked results of one explore page: each page is a fixed
/// configuration of the engine, ranked by relevance with no
/// compatibility filter.
pub fn explore_results_data(
    apps: &Apps,
    os_codename: &str,
    explore_page: crate::pages::ExplorePage,
    now: i64,
) -> (r: Vec<SearchResult>)
    requires
        apps.wf(),
    ensures
        results_view(r@) == spec_generic_search(
            apps@,
            os_codename@,
            spec_explore_rule(explore_page, now),
            SearchSortMode::Relevance,
            WaylandFilter::All,
        ),
{
    let rule = match explore_page {
        crate::pages::ExplorePage::EditorsChoice => ScoreRule::EditorsChoice(
            crate::pages::editors_choice_ids(),
        ),
        crate::pages::ExplorePage::PopularApps => ScoreRule::PopularApps,
        crate::pages::ExplorePage::MadeForCosmic => ScoreRule::MadeForCosmic,
        crate::pages::ExplorePage::NewApps => ScoreRule::Nothing,
        crate::pages::ExplorePage::RecentlyUpdated => ScoreRule::RecentlyUpdated(now),
        _ => ScoreRule::Category(explore_page.categories()),
    };
    proof {
        assert(rule@ =~= spec_explore_rule(explore_page, now));
    }
    generic_search(apps, os_codename, &rule, SearchSortMode::Relevance, WaylandFilter::All)
}

/// The results of every shown explore page, computed in one pass, in
/// the pages' display order.
pub fn explore_results_all(apps: &Apps, os_codename: &str, now: i64) -> (r: Vec<(
    crate::pages::ExplorePage,
    Vec<SearchResult>,
)>)
    requires
        apps.wf(),
    ensures
        r@.len() == crate::pages::ExplorePage::spec_all().len(),
        forall|k: int|
            0 <= k < r@.len() ==> (#[trigger] r@[k]).0 == crate::pages::ExplorePage::spec_all()[k],
        forall|k: int|
            0 <= k < r@.len() ==> results_view((#[trigger] r@[k]).1@) == spec_generic_search(
                apps@,
                os_codename@,
                spec_explore_rule(r@[k].0, now),
                SearchSortMode::Relevance,
                WaylandFilter::All,
            ),
{
    let pages = crate::pages::ExplorePage::all();
    let mut out: Vec<(crate::pages::ExplorePage, Vec<SearchResult>)> = Vec::new();
    let n = pages.len();
    let mut i: usize = 0;
    while i < n
        invariant
            apps.wf(),
            n == pages@.len(),
            pages@ == crate::pages::ExplorePage::spec_all(),
            i <= n,
            out@.len() == i,
            forall|k: int| 0 <= k < i ==> (#[trigger] out@[k]).0 == pages@[k],
            forall|k: int|
                0 <= k < out@.len() ==> results_view((#[trigger] out@[k]).1@)
                    == spec_generic_search(
                    apps@,
                    os_codename@,
                    spec_explore_rule(out@[k].0, now),
                    SearchSortMode::Relevance,
                    WaylandFilter::All,
                ),
        decreases n - i,
    {
        let page = pages[i];
        let results = explore_results_data(apps, os_codename, page, now);
        out.push((page, results));
        i += 1;
    }
    out
}

/// The installed view: installed entries only, OS-native packages first,
/// ranked by relevance with no compatibility filter.
pub fn installed_results_data(apps: &Apps, os_codename: &str) -> (r: Vec<SearchResult>)
    requires
        apps.wf(),
    ensures
        results_view(r@) == spec_generic_search(
            apps@,
            os_codename@,
            ScoreRuleV::Installed,
            SearchSortMode::Relevance,
            WaylandFilter::All,
        ),
{
    generic_search(
        apps,
        os_codename,
        &ScoreRule::Installed,
        SearchSortMode::Relevance,
        WaylandFilter::All,
    )
}

/// Resolving one component identifier, as the appstream URL handler
/// needs it.
pub fn appstream_results(apps: &Apps, os_codename: &str, component_id: AppId) -> (r: Vec<
    SearchResult,
>)
    requires
        apps.wf(),
    ensures
        results_view(r@) == spec_generic_search(
            apps@,
            os_codename@,
            ScoreRuleV::AppIdExact(component_id@),
            SearchSortMode::Relevance,
            WaylandFilter::All,
        ),
{
    let rule = ScoreRule::AppIdExact(component_id);
    generic_search(apps, os_codename, &rule, SearchSortMode::Relevance, WaylandFilter::All)
}

/// Finding the handlers of one media type, as the mime URL handler
/// needs it.
pub fn mime_results(apps: &Apps, os_codename: &str, mime: String) -> (r: Vec<SearchResult>)
    requires
        apps.wf(),
    ensures
        results_view(r@) == spec_generic_search(
            apps@,
            os_codename@,
            ScoreRuleV::MimeHandler(mime@),
            SearchSortMode::Relevance,
            WaylandFilter::All,
        ),
{
    let rule = ScoreRule::MimeHandler(mime);
    generic_search(apps, os_codename, &rule, SearchSortMode::Relevance, WaylandFilter::All)
}

/// The first page of a ranked result list: at most the page-size bound
/// of leading results, cloned for display.
pub fn first_page(results: &Vec<SearchResult>) -> (r: Vec<SearchResult>)
    ensures
        results_view(r@) == results_view(results@).take(
            if results@.len() < crate::constants::MAX_RESULTS {
                results@.len() as int
            } else {
                crate::constants::MAX_RESULTS as int
            },
        ),
{
    let n = if results.len() < crate::constants::MAX_RESULTS {
        results.len()
    } else {
        crate::constants::MAX_RESULTS
    };
    let mut out: Vec<SearchResult> = Vec::new();
    let mut i: usize = 0;
    proof {
        assert(results_view(out@) =~= results_view(results@).take(0));
    }
    while i < n
        invariant
            n <= results@.len(),
            i <= n,
            results_view(out@) == results_view(results@).take(i as int),
        decreases n - i,
    {
        let ghost before = out@;
        out.push(results[i].clone());
        i += 1;
        proof {
            assert(results_view(results@)[i - 1] == results@[i - 1]@);
            assert(results_view(out@) =~= results_view(before) + seq![results@[i - 1]@]);
            assert(results_view(out@) =~= results_view(results@).take(i as int));
        }
    }
    out
}

/// Running the engine twice with identical snapshots and identical
/// inputs yields identical ordered output: the result is a function of
/// the inputs alone, never of iteration order or timing.
pub proof fn lemma_search_deterministic(
    r1: Seq<SearchResultV>,
    r2: Seq<SearchResultV>,
    v: Seq<BucketV>,
    codename: Seq<char>,
    rule: ScoreRuleV,
    mode: SearchSortMode,
    filter: WaylandFilter,
)
    requires
        r1 == spec_generic_search(v, codename, rule, mode, filter),
        r2 == spec_generic_search(v, codename, rule, mode, filter),
    ensures
        r1 == r2,
{
}

/// A predicate true of every element survives the stable insertion.
proof fn lemma_insert_preserves_pred(
    s: Seq<SearchResultV>,
    x: SearchResultV,
    mode: SearchSortMode,
    p: spec_fn(SearchResultV) -> bool,
)
    requires
        forall|i: int| 0 <= i < s.len() ==> p(#[trigger] s[i]),
        p(x),
    ensures
        forall|i: int|
            0 <= i < spec_insert_result(s, x, mode).len() ==> p(
                #[trigger] spec_insert_result(s, x, mode)[i],
            ),
    decreases s.len(),
{
    let out = spec_insert_result(s, x, mode);
    if s.len() == 0 {
        assert(out[0] == x);
    } else if spec_result_cmp(s[0], x, mode) == Cmp::Greater {
        assert forall|i: int| 0 <= i < out.len() implies p(#[trigger] out[i]) by {
            if i > 0 {
                assert(out[i] == s[i - 1]);
            }
        }
    } else {
        assert forall|i: int| 0 <= i < s.skip(1).len() implies p(#[trigger] s.skip(1)[i]) by {
            assert(s.skip(1)[i] == s[i + 1]);
        }
        lemma_insert_preserves_pred(s.skip(1), x, mode, p);
        assert forall|i: int| 0 <= i < out.len() implies p(#[trigger] out[i]) by {
            if i == 0 {
                assert(out[0] == s[0]);
            } else {
                assert(out[i] == spec_insert_result(s.skip(1), x, mode)[i - 1]);
            }
        }
    }
}

/// A predicate true of every element survives the stable sort.
proof fn lemma_sort_preserves_pred(
    s: Seq<SearchResultV>,
    mode: SearchSortMode,
    p: spec_fn(SearchResultV) -> bool,
)
    requires
        forall|i: int| 0 <= i < s.len() ==> p(#[trigger] s[i]),
    ensures
        forall|i: int|
            0 <= i < spec_sort_results(s, mode).len() ==> p(
                #[trigger] spec_sort_results(s, mode)[i],
            ),
    decreases s.len(),
{
    if s.len() > 0 {
        assert forall|i: int| 0 <= i < s.drop_last().len() implies p(
            #[trigger] s.drop_last()[i],
        ) by {
            assert(s.drop_last()[i] == s[i]);
        }
        lemma_sort_preserves_pred(s.drop_last(), mode, p);
        lemma_insert_preserves_pred(spec_sort_results(s.drop_last(), mode), s.last(), mode, p);
    }
}

/// Every collected result passes the active compatibility filter.
proof fn lemma_collect_filtered(
    v: Seq<BucketV>,
    rule: ScoreRuleV,
    codename: Seq<char>,
    filter: WaylandFilter,
)
    ensures
        forall|i: int|
            0 <= i < spec_collect(v, rule, codename, filter).len() ==> spec_matches_filter(
                filter,
                (#[trigger] spec_collect(v, rule, codename, filter)[i]).info.wayland_compat_opt,
            ),
    decreases v.len(),
{
    if v.len() > 0 {
        lemma_collect_filtered(v.skip(1), rule, codename, filter);
        let rest = spec_collect(v.skip(1), rule, codename, filter);
        let out = spec_collect(v, rule, codename, filter);
        match spec_bucket_result(v[0], rule, codename, filter) {
            Some(r) => {
                assert forall|i: int| 0 <= i < out.len() implies spec_matches_filter(
                    filter,
                    (#[trigger] out[i]).info.wayland_compat_opt,
                ) by {
                    if i > 0 {
                        assert(out[i] == rest[i - 1]);
                    }
                }
            },
            None => {},
        }
    }
}

/// Filter exclusivity: under the unknown filter only identifiers with no
/// compatibility classification appear, and under every other named
/// filter every result's classified risk level falls in exactly that
/// filter's bucket; no filter at all admits everything.
pub proof fn lemma_filter_exclusive(
    v: Seq<BucketV>,
    rule: ScoreRuleV,
    codename: Seq<char>,
    mode: SearchSortMode,
    filter: WaylandFilter,
    i: int,
)
    requires
        0 <= i < spec_generic_search(v, codename, rule, mode, filter).len(),
    ensures
        spec_matches_filter(
            filter,
            spec_generic_search(v, codename, rule, mode, filter)[i].info.wayland_compat_opt,
        ),
{
    lemma_collect_filtered(v, rule, codename, filter);
    let c = spec_collect(v, rule, codename, filter);
    lemma_sort_preserves_pred(
        c,
        mode,
        |r: SearchResultV| spec_matches_filter(filter, r.info.wayland_compat_opt),
    );
}

/// Display-source independence: the record every result displays is its
/// identifier's preferred (first) entry, even when a lower-ranked entry
/// produced the winning weight.
pub proof fn lemma_display_uses_preferred_entry(
    b: BucketV,
    rule: ScoreRuleV,
    codename: Seq<char>,
    filter: WaylandFilter,
)
    requires
        spec_bucket_result(b, rule, codename, filter) is Some,
    ensures
        b.entries.len() > 0,
        spec_bucket_result(b, rule, codename, filter).unwrap().info == b.entries[0].info,
        spec_bucket_result(b, rule, codename, filter).unwrap().backend_name == b.entries[
            0
        ].backend_name,
        spec_bucket_result(b, rule, codename, filter).unwrap().id == b.id,
{
}

/// Origin filtering: a Flatpak-family entry is never excluded by origin,
/// and any other entry declaring a nonempty origin that does not contain
/// the running release codename is excluded.
pub proof fn lemma_origin_filter(e: AppEntryV, codename: Seq<char>)
    ensures
        starts_with_seq(e.backend_name, "flatpak-"@) ==> spec_entry_eligible(e, codename),
        !starts_with_seq(e.backend_name, "flatpak-"@) && e.info.origin_opt is Some
            && e.info.origin_opt.unwrap().len() > 0 && !contains_seq(
            e.info.origin_opt.unwrap(),
            codename,
        ) ==> !spec_entry_eligible(e, codename),
{
}

/// An entry excluded by the origin rule contributes nothing to the best
/// weight of its identifier.
pub proof fn lemma_ineligible_entry_ignored(
    e: AppEntryV,
    rest: Seq<AppEntryV>,
    rule: ScoreRuleV,
    codename: Seq<char>,
    id_norm: Seq<char>,
    acc: Option<Weight>,
)
    requires
        !spec_entry_eligible(e, codename),
    ensures
        spec_scan_best(seq![e] + rest, rule, codename, id_norm, acc) == spec_scan_best(
            rest,
            rule,
            codename,
            id_norm,
            acc,
        ),
{
    assert((seq![e] + rest)[0] == e);
    assert((seq![e] + rest).skip(1) =~= rest);
}

/// Among text-search results whose names both match the query exactly
/// and wholly, the more-downloaded one receives the strictly better
/// weight, and therefore sorts first under relevance.
pub proof fn lemma_exact_match_downloads_order(
    q: Seq<char>,
    id_a: Seq<char>,
    info_a: AppInfoV,
    inst_a: bool,
    id_b: Seq<char>,
    info_b: AppInfoV,
    inst_b: bool,
)
    requires
        info_a.kind == crate::app_info::AppKind::DesktopApplication,
        info_b.kind == crate::app_info::AppKind::DesktopApplication,
        spec_text_field(q, info_a.name, 0) == Some(0int),
        spec_text_field(q, info_b.name, 0) == Some(0int),
        info_a.monthly_downloads > info_b.monthly_downloads,
        info_a.monthly_downloads <= i64::MAX as u64,
    ensures
        spec_score(ScoreRuleV::TextSearch(q), id_a, info_a, inst_a) is Some,
        spec_score(ScoreRuleV::TextSearch(q), id_b, info_b, inst_b) is Some,
        weight_lt(
            spec_score(ScoreRuleV::TextSearch(q), id_a, info_a, inst_a).unwrap(),
            spec_score(ScoreRuleV::TextSearch(q), id_b, info_b, inst_b).unwrap(),
        ),
{
}

/// A strictly better weight sorts strictly earlier under relevance,
/// whatever the names and backends.
pub proof fn lemma_weight_orders_relevance(a: SearchResultV, b: SearchResultV)
    requires
        weight_lt(a.weight, b.weight),
    ensures
        spec_result_cmp(a, b, SearchSortMode::Relevance) == Cmp::Less,
{
}

/// What `spec_first_index` finds: a valid position holding the value, or
/// -1 when the list does not hold it.
proof fn lemma_first_index_facts(list: Seq<Seq<char>>, x: Seq<char>)
    ensures
        spec_first_index(list, x) == -1 ==> forall|k: int|
            0 <= k < list.len() ==> #[trigger] list[k] != x,
        spec_first_index(list, x) != -1 ==> 0 <= spec_first_index(list, x) < list.len()
            && list[spec_first_index(list, x)] == x,
    decreases list.len(),
{
    if list.len() > 0 && list[0] != x {
        lemma_first_index_facts(list.skip(1), x);
        if spec_first_index(list, x) == -1 {
            assert forall|k: int| 0 <= k < list.len() implies #[trigger] list[k] != x by {
                if k > 0 {
                    assert(list.skip(1)[k - 1] == list[k]);
                }
            }
        } else {
            assert(list.skip(1)[spec_first_index(list.skip(1), x)] == list[spec_first_index(
                list,
                x,
            )]);
        }
    }
}

/// When no position before `i` holds the value and position `i` does,
/// `spec_first_index` finds exactly `i`.
proof fn lemma_first_index_prefix(list: Seq<Seq<char>>, x: Seq<char>, i: int)
    requires
        0 <= i < list.len(),
        list[i] == x,
        forall|k: int| 0 <= k < i ==> #[trigger] list[k] != x,
    ensures
        spec_first_index(list, x) == i,
    decreases i,
{
    if i > 0 {
        assert forall|k: int| 0 <= k < i - 1 implies #[trigger] list.skip(1)[k] != x by {
            assert(list.skip(1)[k] == list[k + 1]);
        }
        lemma_first_index_prefix(list.skip(1), x, i - 1);
    }
}

} // verus!
