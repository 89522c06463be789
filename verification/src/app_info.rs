//! Per-source application metadata: one backend's immutable record of one
//! application, with its compatibility classification computed eagerly at
//! construction from the stats snapshot.

use vstd::prelude::*;
use crate::compat::WaylandCompatibility;

verus! {

/// The kind of component a metadata record describes.
#[derive(Clone, Copy, Debug, PartialEq, Eq, Structural)]
pub enum AppKind {
    DesktopApplication,
    Addon,
    Other,
}

/// A capability the application provides.
#[derive(Debug)]
pub enum AppProvide {
    /// Provides a component interface, named by identifier.
    Id(String),
    /// Handles a media type.
    MediaType(String),
}

/// Ghost form of a capability.
#[verifier::ext_equal]
pub ghost enum AppProvideV {
    Id(Seq<char>),
    MediaType(Seq<char>),
}

impl View for AppProvide {
    type V = AppProvideV;

    open spec fn view(&self) -> AppProvideV {
        match self {
            AppProvide::Id(s) => AppProvideV::Id(s@),
            AppProvide::MediaType(s) => AppProvideV::MediaType(s@),
        }
    }
}

/// One release of an application; newest releases come first in a record.
#[derive(Debug)]
pub struct Release {
    pub version: String,
    pub timestamp_opt: Option<i64>,
    pub description_opt: Option<String>,
    pub url_opt: Option<String>,
}

/// Ghost form of a release.
#[verifier::ext_equal]
pub ghost struct ReleaseV {
    pub version: Seq<char>,
    pub timestamp_opt: Option<i64>,
    pub description_opt: Option<Seq<char>>,
    pub url_opt: Option<Seq<char>>,
}

impl View for Release {
    type V = ReleaseV;

    open spec fn view(&self) -> ReleaseV {
        ReleaseV {
            version: self.version@,
            timestamp_opt: self.timestamp_opt,
            description_opt: match &self.description_opt {
                Some(d) => Some(d@),
                None => None,
            },
            url_opt: match &self.url_opt {
                Some(u) => Some(u@),
                None => None,
            },
        }
    }
}

/// One source's metadata record for one application.
#[derive(Debug)]
pub struct AppInfo {
    pub kind: AppKind,
    pub name: String,
    pub summary: String,
    pub description: String,
    /// Which repository within the backend supplied this record.
    pub source_id: String,
    pub source_name: String,
    /// Repository release codename the record was published for, if any.
    pub origin_opt: Option<String>,
    pub categories: Vec<String>,
    /// Monthly download count, zero when no stats entry exists.
    pub monthly_downloads: u64,
    pub provides: Vec<AppProvide>,
    /// System package name aliases.
    pub pkgnames: Vec<String>,
    pub desktop_ids: Vec<String>,
    /// Release history, newest first.
    pub releases: Vec<Release>,
    pub license: String,
    pub verified: bool,
    /// Compatibility classification from the stats snapshot, if one exists.
    pub wayland_compat_opt: Option<WaylandCompatibility>,
}

/// Ghost form of a metadata record.
#[verifier::ext_equal]
pub ghost struct AppInfoV {
    pub kind: AppKind,
    pub name: Seq<char>,
    pub summary: Seq<char>,
    pub description: Seq<char>,
    pub source_id: Seq<char>,
    pub source_name: Seq<char>,
    pub origin_opt: Option<Seq<char>>,
    pub categories: Seq<Seq<char>>,
    pub monthly_downloads: u64,
    pub provides: Seq<AppProvideV>,
    pub pkgnames: Seq<Seq<char>>,
    pub desktop_ids: Seq<Seq<char>>,
    pub releases: Seq<ReleaseV>,
    pub license: Seq<char>,
    pub verified: bool,
    pub wayland_compat_opt: Option<WaylandCompatibility>,
}

impl View for AppInfo {
    type V = AppInfoV;

    open spec fn view(&self) -> AppInfoV {
        AppInfoV {
            kind: self.kind,
            name: self.name@,
            summary: self.summary@,
            description: self.description@,
            source_id: self.source_id@,
            source_name: self.source_name@,
            origin_opt: match &self.origin_opt {
                Some(o) => Some(o@),
                None => None,
            },
            categories: self.categories.deep_view(),
            monthly_downloads: self.monthly_downloads,
            provides: Seq::new(self.provides@.len(), |i: int| self.provides@[i]@),
            pkgnames: self.pkgnames.deep_view(),
            desktop_ids: self.desktop_ids.deep_view(),
            releases: Seq::new(self.releases@.len(), |i: int| self.releases@[i]@),
            license: self.license@,
            verified: self.verified,
            wayland_compat_opt: self.wayland_compat_opt,
        }
    }
}

impl Clone for AppProvide {
    fn clone(&self) -> (r: Self)
        ensures
            r@ == self@,
    {
        match self {
            AppProvide::Id(s) => AppProvide::Id(s.clone()),
            AppProvide::MediaType(s) => AppProvide::MediaType(s.clone()),
        }
    }
}

/// Clone of an optional string, keeping its characters.
pub fn clone_opt_string(v: &Option<String>) -> (r: Option<String>)
    ensures
        match (v, &r) {
            (Some(a), Some(b)) => a@ == b@,
            (None, None) => true,
            _ => false,
        },
{
    match v {
        Some(s) => Some(s.clone()),
        None => None,
    }
}

impl Clone for Release {
    fn clone(&self) -> (r: Self)
        ensures
            r@ == self@,
    {
        Release {
            version: self.version.clone(),
            timestamp_opt: self.timestamp_opt,
            description_opt: clone_opt_string(&self.description_opt),
            url_opt: clone_opt_string(&self.url_opt),
        }
    }
}

/// Clone of a string vector, keeping every element's characters.
pub fn clone_strings(v: &Vec<String>) -> (r: Vec<String>)
    ensures
        r.deep_view() == v.deep_view(),
{
    let mut out: Vec<String> = Vec::new();
    let mut i: usize = 0;
    while i < v.len()
        invariant
            i <= v@.len(),
            out@.len() == i,
            forall|k: int| 0 <= k < i ==> #[trigger] out@[k]@ == v@[k]@,
        decreases v@.len() - i,
    {
        out.push(v[i].clone());
        i += 1;
    }
    proof {
        assert(out.deep_view() =~= v.deep_view());
    }
    out
}

/// Clone of a capability vector, keeping every element's view.
fn clone_provides(v: &Vec<AppProvide>) -> (r: Vec<AppProvide>)
    ensures
        r@.len() == v@.len(),
        forall|k: int| 0 <= k < v@.len() ==> #[trigger] r@[k]@ == v@[k]@,
{
    let mut out: Vec<AppProvide> = Vec::new();
    let mut i: usize = 0;
    while i < v.len()
        invariant
            i <= v@.len(),
            out@.len() == i,
            forall|k: int| 0 <= k < i ==> #[trigger] out@[k]@ == v@[k]@,
        decreases v@.len() - i,
    {
        out.push(v[i].clone());
        i += 1;
    }
    out
}

/// Clone of a release vector, keeping every element's view.
fn clone_releases(v: &Vec<Release>) -> (r: Vec<Release>)
    ensures
        r@.len() == v@.len(),
        forall|k: int| 0 <= k < v@.len() ==> #[trigger] r@[k]@ == v@[k]@,
{
    let mut out: Vec<Release> = Vec::new();
    let mut i: usize = 0;
    while i < v.len()
        invariant
            i <= v@.len(),
            out@.len() == i,
            forall|k: int| 0 <= k < i ==> #[trigger] out@[k]@ == v@[k]@,
        decreases v@.len() - i,
    {
        out.push(v[i].clone());
        i += 1;
    }
    out
}

impl Clone for AppInfo {
    fn clone(&self) -> (r: Self)
        ensures
            r@ == self@,
    {
        let r = AppInfo {
            kind: self.kind,
            name: self.name.clone(),
            summary: self.summary.clone(),
            description: self.description.clone(),
            source_id: self.source_id.clone(),
            source_name: self.source_name.clone(),
            origin_opt: clone_opt_string(&self.origin_opt),
            categories: clone_strings(&self.categories),
            monthly_downloads: self.monthly_downloads,
            provides: clone_provides(&self.provides),
            pkgnames: clone_strings(&self.pkgnames),
            desktop_ids: clone_strings(&self.desktop_ids),
            releases: clone_releases(&self.releases),
            license: self.license.clone(),
            verified: self.verified,
            wayland_compat_opt: self.wayland_compat_opt,
        };
        proof {
            assert(Seq::new(r.provides@.len(), |i: int| r.provides@[i]@) =~= Seq::new(
                self.provides@.len(),
                |i: int| self.provides@[i]@,
            ));
            assert(Seq::new(r.releases@.len(), |i: int| r.releases@[i]@) =~= Seq::new(
                self.releases@.len(),
                |i: int| self.releases@[i]@,
            ));
            assert(r@ =~= self@);
        }
        r
    }
}

/// The timestamp of the newest (first) release of a record, if any.
pub open spec fn spec_latest_timestamp(info: AppInfoV) -> Option<i64> {
    if info.releases.len() > 0 {
        info.releases[0].timestamp_opt
    } else {
        None
    }
}

/// The timestamp of the newest release, as the sort on recency reads it.
pub fn latest_timestamp(info: &AppInfo) -> (r: Option<i64>)
    ensures
        r == spec_latest_timestamp(info@),
{
    if info.releases.len() > 0 {
        info.releases[0].timestamp_opt
    } else {
        None
    }
}

} // verus!
