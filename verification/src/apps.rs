//! The merged catalog: for every application identifier, the list of
//! backend entries that mention it, held in deterministic preference order.
//! The map is rebuilt wholesale from the backend catalogs and the installed
//! package list, never patched in place.

use vstd::prelude::*;
use crate::app_entry::{
    entry_cmp, entry_le, lemma_entry_cmp_flip, lemma_entry_le_trans, spec_entry_cmp, AppEntry,
    AppEntryV,
};
use crate::app_id::{spec_is_system, AppId};
use crate::app_info::{AppInfo, AppInfoV};
use crate::strutil::{str_eq, Cmp};

verus! {

/// One installed or updatable package as a backend reports it.
#[derive(Debug)]
pub struct Package {
    pub id: AppId,
    pub info: AppInfo,
}

/// Ghost form of a package.
#[verifier::ext_equal]
pub ghost struct PackageV {
    pub id: Seq<char>,
    pub info: AppInfoV,
}

impl View for Package {
    type V = PackageV;

    open spec fn view(&self) -> PackageV {
        PackageV { id: self.id@, info: self.info@ }
    }
}

impl Clone for Package {
    fn clone(&self) -> (r: Self)
        ensures
            r@ == self@,
    {
        let r = Package { id: self.id.clone(), info: self.info.clone() };
        proof {
            assert(r@ =~= self@);
        }
        r
    }
}

/// One source's catalog: the backend it belongs to and its records.
#[derive(Debug)]
pub struct Catalog {
    pub backend_name: String,
    pub infos: Vec<(AppId, AppInfo)>,
}

/// All entries of one identifier, in preference order.
#[derive(Debug)]
pub struct Bucket {
    pub id: AppId,
    pub entries: Vec<AppEntry>,
}

/// Ghost form of a bucket.
#[verifier::ext_equal]
pub ghost struct BucketV {
    pub id: Seq<char>,
    pub entries: Seq<AppEntryV>,
}

impl View for Bucket {
    type V = BucketV;

    open spec fn view(&self) -> BucketV {
        BucketV {
            id: self.id@,
            entries: Seq::new(self.entries@.len(), |i: int| self.entries@[i]@),
        }
    }
}

/// A bucket's entries stand in preference order.
pub open spec fn bucket_sorted(entries: Seq<AppEntryV>, id_norm: Seq<char>) -> bool {
    forall|i: int, j: int|
        0 <= i < j < entries.len() ==> entry_le(#[trigger] entries[i], #[trigger] entries[j], id_norm)
}

/// Well-formedness of the merged map: identifiers are unique, every bucket
/// is nonempty, and every bucket's entries stand in preference order.
pub open spec fn apps_wf(v: Seq<BucketV>) -> bool {
    &&& forall|i: int, j: int| 0 <= i < j < v.len() ==> (#[trigger] v[i]).id != (#[trigger] v[j]).id
    &&& forall|i: int| 0 <= i < v.len() ==> (#[trigger] v[i]).entries.len() > 0
    &&& forall|i: int| 0 <= i < v.len() ==> bucket_sorted((#[trigger] v[i]).entries, v[i].id)
}

/// The index of the bucket holding `id`, or -1 if none does.
pub open spec fn find_bucket(v: Seq<BucketV>, id: Seq<char>) -> int
    decreases v.len(),
{
    if v.len() == 0 {
        -1
    } else if v[0].id == id {
        0
    } else {
        let r = find_bucket(v.skip(1), id);
        if r == -1 {
            -1
        } else {
            r + 1
        }
    }
}

/// What `find_bucket` finds: a valid index with the identifier, or -1 when
/// no bucket holds it.
pub proof fn lemma_find_bucket(v: Seq<BucketV>, id: Seq<char>)
    ensures
        find_bucket(v, id) == -1 ==> forall|k: int| 0 <= k < v.len() ==> (#[trigger] v[k]).id != id,
        find_bucket(v, id) != -1 ==> 0 <= find_bucket(v, id) < v.len() && v[find_bucket(v, id)].id
            == id,
    decreases v.len(),
{
    if v.len() > 0 && v[0].id != id {
        lemma_find_bucket(v.skip(1), id);
        if find_bucket(v, id) == -1 {
            assert forall|k: int| 0 <= k < v.len() implies (#[trigger] v[k]).id != id by {
                if k > 0 {
                    assert(v.skip(1)[k - 1] == v[k]);
                }
            }
        } else {
            assert(v.skip(1)[find_bucket(v.skip(1), id)] == v[find_bucket(v, id)]);
        }
    }
}

/// Stable insertion of an entry into a preference-ordered list: the entry
/// goes before the first entry that is strictly less preferred, and after
/// every entry tied with it.
pub open spec fn spec_insert_entry(entries: Seq<AppEntryV>, e: AppEntryV, id_norm: Seq<char>) -> Seq<
    AppEntryV,
>
    decreases entries.len(),
{
    if entries.len() == 0 {
        seq![e]
    } else if spec_entry_cmp(entries[0], e, id_norm) == Cmp::Greater {
        seq![e] + entries
    } else {
        seq![entries[0]] + spec_insert_entry(entries.skip(1), e, id_norm)
    }
}

/// The stable insertion places the entry at the first index whose entry is
/// strictly less preferred.
proof fn lemma_insert_entry_at(entries: Seq<AppEntryV>, e: AppEntryV, id_norm: Seq<char>, k: int)
    requires
        0 <= k <= entries.len(),
        forall|j: int| 0 <= j < k ==> spec_entry_cmp(#[trigger] entries[j], e, id_norm)
            != Cmp::Greater,
        k < entries.len() ==> spec_entry_cmp(entries[k], e, id_norm) == Cmp::Greater,
    ensures
        spec_insert_entry(entries, e, id_norm) == entries.insert(k, e),
    decreases k,
{
    if entries.len() == 0 {
        assert(spec_insert_entry(entries, e, id_norm) =~= entries.insert(0, e));
    } else if k == 0 {
        assert(spec_insert_entry(entries, e, id_norm) =~= entries.insert(0, e));
    } else {
        assert forall|j: int| 0 <= j < k - 1 implies spec_entry_cmp(
            #[trigger] entries.skip(1)[j],
            e,
            id_norm,
        ) != Cmp::Greater by {
            assert(entries.skip(1)[j] == entries[j + 1]);
        }
        if k - 1 < entries.skip(1).len() {
            assert(entries.skip(1)[k - 1] == entries[k]);
        }
        lemma_insert_entry_at(entries.skip(1), e, id_norm, k - 1);
        assert(seq![entries[0]] + entries.skip(1).insert(k - 1, e) =~= entries.insert(k, e));
    }
}

/// Inserting with the stable insertion keeps the list in preference order.
proof fn lemma_insert_entry_sorted(
    entries: Seq<AppEntryV>,
    e: AppEntryV,
    id_norm: Seq<char>,
    k: int,
)
    requires
        bucket_sorted(entries, id_norm),
        0 <= k <= entries.len(),
        forall|j: int| 0 <= j < k ==> spec_entry_cmp(#[trigger] entries[j], e, id_norm)
            != Cmp::Greater,
        k < entries.len() ==> spec_entry_cmp(entries[k], e, id_norm) == Cmp::Greater,
    ensures
        bucket_sorted(entries.insert(k, e), id_norm),
{
    let out = entries.insert(k, e);
    assert forall|i: int, j: int| 0 <= i < j < out.len() implies entry_le(
        #[trigger] out[i],
        #[trigger] out[j],
        id_norm,
    ) by {
        if i == k {
            // out[i] is the new entry; out[j] sits at entries[j - 1] >= entries[k].
            lemma_entry_cmp_flip(entries[k], e, id_norm);
            if j - 1 > k {
                lemma_entry_le_trans(e, entries[k], entries[j - 1], id_norm);
            }
        } else if j == k {
            // out[j] is the new entry; out[i] was not past the position.
        } else {
            // Both are old entries, in their previous relative order.
        }
    }
}

/// The merged map from application identifiers to their entries.
#[derive(Debug)]
pub struct Apps {
    buckets: Vec<Bucket>,
}

impl View for Apps {
    type V = Seq<BucketV>;

    closed spec fn view(&self) -> Seq<BucketV> {
        Seq::new(self.buckets@.len(), |i: int| self.buckets@[i]@)
    }
}

/// Inserting one entry into the map: into the bucket of its identifier at
/// the stable position, or into a fresh bucket at the end.
pub open spec fn spec_insert_into(v: Seq<BucketV>, id: Seq<char>, e: AppEntryV) -> Seq<BucketV> {
    let k = find_bucket(v, id);
    if k == -1 {
        v + seq![BucketV { id, entries: seq![e] }]
    } else {
        v.update(k, BucketV { id, entries: spec_insert_entry(v[k].entries, e, id) })
    }
}

impl Apps {
    /// The map is well-formed; constructors establish this and every
    /// method preserves it.
    pub open spec fn wf(&self) -> bool {
        apps_wf(self@)
    }

    /// An empty map.
    pub fn new() -> (r: Apps)
        ensures
            r@ == Seq::<BucketV>::empty(),
            r.wf(),
    {
        let r = Apps { buckets: Vec::new() };
        proof {
            assert(r@ =~= Seq::<BucketV>::empty());
        }
        r
    }

    /// Number of identifiers in the map.
    pub fn len(&self) -> (n: usize)
        ensures
            n == self@.len(),
    {
        self.buckets.len()
    }

    /// The bucket at one index.
    pub fn bucket(&self, i: usize) -> (b: &Bucket)
        requires
            i < self@.len(),
        ensures
            b@ == self@[i as int],
    {
        &self.buckets[i]
    }

    /// The entries of one identifier, if the map holds it.
    pub fn get(&self, id: &AppId) -> (r: Option<&Vec<AppEntry>>)
        ensures
            find_bucket(self@, id@) == -1 <==> r is None,
            r is Some ==> {
                let k = find_bucket(self@, id@);
                0 <= k < self@.len() && Seq::new(
                    r.unwrap()@.len(),
                    |i: int| r.unwrap()@[i]@,
                ) == self@[k].entries
            },
    {
        proof {
            lemma_find_bucket(self@, id@);
        }
        let n = self.buckets.len();
        let mut i: usize = 0;
        while i < n
            invariant
                n == self@.len(),
                i <= n,
                forall|k: int| 0 <= k < i ==> (#[trigger] self@[k]).id != id@,
            decreases n - i,
        {
            if self.buckets[i].id == *id {
                proof {
                    lemma_find_bucket_prefix(self@, id@, i as int);
                }
                return Some(&self.buckets[i].entries);
            }
            i += 1;
        }
        proof {
            assert(forall|k: int| 0 <= k < self@.len() ==> (#[trigger] self@[k]).id != id@);
        }
        None
    }

    /// Insert one entry for `id`, keeping the bucket in preference order.
    pub fn insert_entry(&mut self, id: &AppId, entry: AppEntry)
        requires
            old(self).wf(),
        ensures
            final(self)@ == spec_insert_into(old(self)@, id@, entry@),
            final(self).wf(),
    {
        proof {
            lemma_find_bucket(self@, id@);
        }
        let ghost v0 = self@;
        let n = self.buckets.len();
        let mut i: usize = 0;
        while i < n
            invariant
                n == self@.len(),
                i <= n,
                self@ == v0,
                v0 == old(self)@,
                apps_wf(v0),
                forall|k: int| 0 <= k < i ==> (#[trigger] self@[k]).id != id@,
            decreases n - i,
        {
            if self.buckets[i].id == *id {
                proof {
                    lemma_find_bucket_prefix(self@, id@, i as int);
                }
                let ghost k = i as int;
                let ghost old_entries = self@[k].entries;
                let p = find_insert_pos(&self.buckets[i].entries, &entry, id);
                proof {
                    assert(forall|j: int|
                        0 <= j < old_entries.len() ==> #[trigger] old_entries[j]
                            == self.buckets@[k]@.entries[j]);
                    lemma_insert_entry_at(old_entries, entry@, id@, p as int);
                    lemma_insert_entry_sorted(old_entries, entry@, id@, p as int);
                }
                self.buckets[i].entries.insert(p, entry);
                proof {
                    assert(self@[k].entries =~= old_entries.insert(p as int, entry@));
                    assert(self@[k] =~= BucketV {
                        id: id@,
                        entries: spec_insert_entry(v0[k].entries, entry@, id@),
                    });
                    assert(self@ =~= spec_insert_into(v0, id@, entry@));
                    assert(forall|m: int|
                        0 <= m < self@.len() && m != k ==> self@[m] == v0[m]);
                    assert(apps_wf(self@));
                }
                return ;
            }
            i += 1;
        }
        proof {
            assert(forall|k: int| 0 <= k < v0.len() ==> (#[trigger] v0[k]).id != id@);
            assert(find_bucket(v0, id@) == -1);
        }
        let nid = id.clone();
        let mut entries: Vec<AppEntry> = Vec::new();
        entries.push(entry);
        let b = Bucket { id: nid, entries };
        proof {
            assert(b@.entries =~= seq![entry@]);
        }
        self.buckets.push(b);
        proof {
            assert(self@ =~= v0 + seq![BucketV { id: id@, entries: seq![entry@] }]);
            assert(apps_wf(self@)) by {
                assert(forall|m: int| 0 <= m < v0.len() ==> self@[m] == v0[m]);
                assert(self@[v0.len() as int].id == id@);
            }
        }
    }
}

/// In a well-formed map the first entry of a bucket is the preferred one:
/// it compares less than or equal to every other entry of its identifier.
pub proof fn lemma_first_entry_preferred(v: Seq<BucketV>, i: int, j: int)
    requires
        apps_wf(v),
        0 <= i < v.len(),
        0 < j < v[i].entries.len(),
    ensures
        entry_le(v[i].entries[0], v[i].entries[j], v[i].id),
{
}

/// One installed package matches a candidate `(backend, id, info)`: same
/// backend and source, and either the very identifier, or — when the
/// candidate identifier is OS-native and declares aliases — every alias
/// of the candidate is among the package's own aliases. The fallback
/// never applies to a reverse-DNS candidate.
pub open spec fn spec_pkg_matches(
    pkg_backend: Seq<char>,
    pkg: PackageV,
    backend: Seq<char>,
    id: Seq<char>,
    info: AppInfoV,
) -> bool {
    &&& pkg_backend == backend
    &&& pkg.info.source_id == info.source_id
    &&& (pkg.id == id || (spec_is_system(id) && info.pkgnames.len() > 0 && forall|k: int|
        0 <= k < info.pkgnames.len() ==> pkg.info.pkgnames.contains(#[trigger] info.pkgnames[k])))
}

/// Some package of the installed list matches the candidate.
pub open spec fn spec_is_installed(
    installed: Seq<(String, Package)>,
    backend: Seq<char>,
    id: Seq<char>,
    info: AppInfoV,
) -> bool {
    exists|i: int|
        0 <= i < installed.len() && spec_pkg_matches(
            (#[trigger] installed[i]).0@,
            installed[i].1@,
            backend,
            id,
            info,
        )
}

/// Whether `s` occurs among the strings of `v`.
fn contains_string(v: &Vec<String>, s: &String) -> (r: bool)
    ensures
        r == v.deep_view().contains(s@),
{
    let n = v.len();
    let mut i: usize = 0;
    while i < n
        invariant
            n == v@.len(),
            i <= n,
            forall|k: int| 0 <= k < i ==> v@[k]@ != s@,
        decreases n - i,
    {
        if str_eq(v[i].as_str(), s.as_str()) {
            proof {
                assert(v.deep_view()[i as int] == s@);
            }
            return true;
        }
        i += 1;
    }
    proof {
        assert forall|k: int| 0 <= k < v.deep_view().len() implies #[trigger] v.deep_view()[k]
            != s@ by {
            assert(v.deep_view()[k] == v@[k]@);
        }
    }
    false
}

/// Whether every string of `sub` occurs among the strings of `sup`.
fn strings_subset(sub: &Vec<String>, sup: &Vec<String>) -> (r: bool)
    ensures
        r == forall|k: int|
            0 <= k < sub.deep_view().len() ==> sup.deep_view().contains(
                #[trigger] sub.deep_view()[k],
            ),
{
    let n = sub.len();
    let mut i: usize = 0;
    while i < n
        invariant
            n == sub@.len(),
            i <= n,
            forall|k: int| 0 <= k < i ==> sup.deep_view().contains(#[trigger] sub.deep_view()[k]),
        decreases n - i,
    {
        if !contains_string(sup, &sub[i]) {
            proof {
                assert(sub.deep_view()[i as int] == sub@[i as int]@);
            }
            return false;
        }
        proof {
            assert(sub.deep_view()[i as int] == sub@[i as int]@);
        }
        i += 1;
    }
    true
}

/// Whether the candidate `(backend, id, info)` counts as installed, given
/// the installed package list when one has been loaded.
pub fn is_installed_inner(
    installed_opt: &Option<Vec<(String, Package)>>,
    backend_name: &str,
    id: &AppId,
    info: &AppInfo,
) -> (r: bool)
    ensures
        r == spec_installed_flag(*installed_opt, backend_name@, id@, info@),
{
    if installed_opt.is_none() {
        return false;
    }
    let installed = installed_opt.as_ref().unwrap();
    proof {
        assert(*installed_opt is Some);
        assert(installed@ == (*installed_opt)->0@);
    }
    {
        {
            let n = installed.len();
            let mut i: usize = 0;
            while i < n
                invariant
                    *installed_opt is Some,
                    installed@ == (*installed_opt)->0@,
                    n == installed@.len(),
                    i <= n,
                    forall|k: int|
                        0 <= k < i ==> !spec_pkg_matches(
                            (#[trigger] installed@[k]).0@,
                            installed@[k].1@,
                            backend_name@,
                            id@,
                            info@,
                        ),
                decreases n - i,
            {
                let pkg_backend = &installed[i].0;
                let package = &installed[i].1;
                if str_eq(pkg_backend.as_str(), backend_name) && str_eq(
                    package.info.source_id.as_str(),
                    info.source_id.as_str(),
                ) {
                    if package.id == *id {
                        proof {
                            assert(spec_pkg_matches(
                                (installed@[i as int]).0@,
                                installed@[i as int].1@,
                                backend_name@,
                                id@,
                                info@,
                            ));
                            assert(spec_is_installed(installed@, backend_name@, id@, info@));
                        }
                        return true;
                    }
                    if id.is_system() && info.pkgnames.len() > 0 {
                        if strings_subset(&info.pkgnames, &package.info.pkgnames) {
                            proof {
                                assert(info@.pkgnames =~= info.pkgnames.deep_view());
                                assert(installed@[i as int].1@.info.pkgnames
                                    =~= package.info.pkgnames.deep_view());
                                assert(spec_pkg_matches(
                                    (installed@[i as int]).0@,
                                    installed@[i as int].1@,
                                    backend_name@,
                                    id@,
                                    info@,
                                ));
                                assert(spec_is_installed(installed@, backend_name@, id@, info@));
                            }
                            return true;
                        }
                    }
                }
                proof {
                    assert(info@.pkgnames =~= info.pkgnames.deep_view());
                    assert(installed@[i as int].1@.info.pkgnames
                        =~= package.info.pkgnames.deep_view());
                }
                i += 1;
            }
            false
        }
    }
}

/// The installed flag of a candidate entry: false while no installed list
/// has been loaded.
pub open spec fn spec_installed_flag(
    installed_opt: Option<Vec<(String, Package)>>,
    backend: Seq<char>,
    id: Seq<char>,
    info: AppInfoV,
) -> bool {
    match installed_opt {
        Some(v) => spec_is_installed(v@, backend, id, info),
        None => false,
    }
}

/// Folding one catalog's records into the map, front to back.
pub open spec fn spec_add_infos(
    v: Seq<BucketV>,
    backend: Seq<char>,
    infos: Seq<(AppId, AppInfo)>,
    installed_opt: Option<Vec<(String, Package)>>,
) -> Seq<BucketV>
    decreases infos.len(),
{
    if infos.len() == 0 {
        v
    } else {
        let id = infos[0].0@;
        let e = AppEntryV {
            backend_name: backend,
            info: infos[0].1@,
            installed: spec_installed_flag(installed_opt, backend, id, infos[0].1@),
        };
        spec_add_infos(spec_insert_into(v, id, e), backend, infos.skip(1), installed_opt)
    }
}

/// Folding every catalog into the map, front to back.
pub open spec fn spec_add_catalogs(
    v: Seq<BucketV>,
    catalogs: Seq<Catalog>,
    installed_opt: Option<Vec<(String, Package)>>,
) -> Seq<BucketV>
    decreases catalogs.len(),
{
    if catalogs.len() == 0 {
        v
    } else {
        spec_add_catalogs(
            spec_add_infos(v, catalogs[0].backend_name@, catalogs[0].infos@, installed_opt),
            catalogs.skip(1),
            installed_opt,
        )
    }
}

/// Folding the OS-native installed packages into the map as installed
/// entries: the manual system-package merge pass.
pub open spec fn spec_add_system(v: Seq<BucketV>, installed: Seq<(String, Package)>) -> Seq<BucketV>
    decreases installed.len(),
{
    if installed.len() == 0 {
        v
    } else {
        let v1 = if spec_is_system(installed[0].1@.id) {
            spec_insert_into(
                v,
                installed[0].1@.id,
                AppEntryV {
                    backend_name: installed[0].0@,
                    info: installed[0].1@.info,
                    installed: true,
                },
            )
        } else {
            v
        };
        spec_add_system(v1, installed.skip(1))
    }
}

/// The whole rebuild: every catalog's records, then the system packages.
pub open spec fn spec_build_apps(
    catalogs: Seq<Catalog>,
    installed_opt: Option<Vec<(String, Package)>>,
) -> Seq<BucketV> {
    let v = spec_add_catalogs(Seq::<BucketV>::empty(), catalogs, installed_opt);
    match installed_opt {
        Some(ins) => spec_add_system(v, ins@),
        None => v,
    }
}

/// Rebuild the merged map wholesale from the backend catalogs and the
/// installed package list.
pub fn build_apps(catalogs: &Vec<Catalog>, installed_opt: &Option<Vec<(String, Package)>>) -> (r:
    Apps)
    ensures
        r@ == spec_build_apps(catalogs@, *installed_opt),
        r.wf(),
{
    let ghost target = spec_add_catalogs(Seq::<BucketV>::empty(), catalogs@, *installed_opt);
    let mut apps = Apps::new();
    proof {
        assert(catalogs@.skip(0) =~= catalogs@);
    }
    let cn = catalogs.len();
    let mut ci: usize = 0;
    while ci < cn
        invariant
            cn == catalogs@.len(),
            ci <= cn,
            apps.wf(),
            spec_add_catalogs(apps@, catalogs@.skip(ci as int), *installed_opt) == target,
        decreases cn - ci,
    {
        let catalog = &catalogs[ci];
        let ghost backend = catalog.backend_name@;
        let inn = catalog.infos.len();
        let mut ii: usize = 0;
        proof {
            assert(catalogs@.skip(ci as int)[0] == catalogs@[ci as int]);
            assert(catalogs@.skip(ci as int).skip(1) =~= catalogs@.skip(ci as int + 1));
            assert(catalogs@[ci as int].infos@.skip(0) =~= catalogs@[ci as int].infos@);
        }
        while ii < inn
            invariant
                cn == catalogs@.len(),
                ci < cn,
                inn == catalogs@[ci as int].infos@.len(),
                ii <= inn,
                backend == catalogs@[ci as int].backend_name@,
                apps.wf(),
                spec_add_catalogs(
                    spec_add_infos(
                        apps@,
                        backend,
                        catalogs@[ci as int].infos@.skip(ii as int),
                        *installed_opt,
                    ),
                    catalogs@.skip(ci as int + 1),
                    *installed_opt,
                ) == target,
            decreases inn - ii,
        {
            let id = catalogs[ci].infos[ii].0.clone();
            let info = catalogs[ci].infos[ii].1.clone();
            let installed = is_installed_inner(
                installed_opt,
                catalogs[ci].backend_name.as_str(),
                &id,
                &info,
            );
            let entry = AppEntry {
                backend_name: catalogs[ci].backend_name.clone(),
                info,
                installed,
            };
            let ghost infos_rest = catalogs@[ci as int].infos@.skip(ii as int);
            proof {
                assert(infos_rest[0] == catalogs@[ci as int].infos@[ii as int]);
                assert(infos_rest.skip(1) =~= catalogs@[ci as int].infos@.skip(ii as int + 1));
                assert(entry@ =~= AppEntryV {
                    backend_name: backend,
                    info: infos_rest[0].1@,
                    installed: spec_installed_flag(
                        *installed_opt,
                        backend,
                        infos_rest[0].0@,
                        infos_rest[0].1@,
                    ),
                });
            }
            apps.insert_entry(&id, entry);
            ii += 1;
        }
        proof {
            assert(catalogs@[ci as int].infos@.skip(inn as int) =~= Seq::<(
                AppId,
                AppInfo,
            )>::empty());
        }
        ci += 1;
    }
    proof {
        assert(catalogs@.skip(cn as int) =~= Seq::<Catalog>::empty());
        assert(apps@ == target);
    }
    match installed_opt {
        None => apps,
        Some(installed) => {
            proof {
                assert(installed@.skip(0) =~= installed@);
            }
            let pn = installed.len();
            let mut pi: usize = 0;
            while pi < pn
                invariant
                    pn == installed@.len(),
                    pi <= pn,
                    apps.wf(),
                    spec_add_system(apps@, installed@.skip(pi as int)) == spec_add_system(
                        target,
                        installed@,
                    ),
                decreases pn - pi,
            {
                let ghost rest = installed@.skip(pi as int);
                proof {
                    assert(rest[0] == installed@[pi as int]);
                    assert(rest.skip(1) =~= installed@.skip(pi as int + 1));
                }
                let package = &installed[pi].1;
                if package.id.is_system() {
                    let id = package.id.clone();
                    let entry = AppEntry {
                        backend_name: installed[pi].0.clone(),
                        info: package.info.clone(),
                        installed: true,
                    };
                    proof {
                        assert(entry@ =~= AppEntryV {
                            backend_name: rest[0].0@,
                            info: rest[0].1@.info,
                            installed: true,
                        });
                    }
                    apps.insert_entry(&id, entry);
                }
                pi += 1;
            }
            proof {
                assert(installed@.skip(pn as int) =~= Seq::<(String, Package)>::empty());
            }
            apps
        },
    }
}

/// Order of the installed and updates views over `(backend, package)`
/// pairs: OS-native packages sort before others, ties break by name.
pub open spec fn spec_pkg_cmp(a: (String, Package), b: (String, Package)) -> Cmp {
    if spec_is_system(a.1@.id) != spec_is_system(b.1@.id) {
        if spec_is_system(a.1@.id) {
            Cmp::Less
        } else {
            Cmp::Greater
        }
    } else {
        crate::strutil::seq_cmp(a.1@.info.name, b.1@.info.name)
    }
}

/// Exec comparison of two listed packages.
fn pkg_cmp(a: &(String, Package), b: &(String, Package)) -> (r: Cmp)
    ensures
        r == spec_pkg_cmp(*a, *b),
{
    let a_sys = a.1.id.is_system();
    let b_sys = b.1.id.is_system();
    if a_sys != b_sys {
        if a_sys {
            Cmp::Less
        } else {
            Cmp::Greater
        }
    } else {
        crate::strutil::str_cmp(a.1.info.name.as_str(), b.1.info.name.as_str())
    }
}

/// Ghost list of a package list.
pub open spec fn pkgs_view(s: Seq<(String, Package)>) -> Seq<(Seq<char>, PackageV)> {
    Seq::new(s.len(), |i: int| (s[i].0@, s[i].1@))
}

/// Stable insertion of a package into a sorted list.
pub open spec fn spec_insert_pkg(sorted: Seq<(String, Package)>, x: (String, Package)) -> Seq<(
    String,
    Package,
)>
    decreases sorted.len(),
{
    if sorted.len() == 0 {
        seq![x]
    } else if spec_pkg_cmp(sorted[0], x) == Cmp::Greater {
        seq![x] + sorted
    } else {
        seq![sorted[0]] + spec_insert_pkg(sorted.skip(1), x)
    }
}

/// The stable insertion sort of a package list: OS-native packages
/// first, then by name, equal elements in first-seen order.
pub open spec fn spec_sort_packages(s: Seq<(String, Package)>) -> Seq<(String, Package)>
    decreases s.len(),
{
    if s.len() == 0 {
        s
    } else {
        spec_insert_pkg(spec_sort_packages(s.drop_last()), s.last())
    }
}

/// The stable insertion places a package at the first index whose
/// element sorts strictly after it.
proof fn lemma_insert_pkg_at(sorted: Seq<(String, Package)>, x: (String, Package), k: int)
    requires
        0 <= k <= sorted.len(),
        forall|j: int| 0 <= j < k ==> spec_pkg_cmp(#[trigger] sorted[j], x) != Cmp::Greater,
        k < sorted.len() ==> spec_pkg_cmp(sorted[k], x) == Cmp::Greater,
    ensures
        spec_insert_pkg(sorted, x) == sorted.insert(k, x),
    decreases k,
{
    if sorted.len() == 0 {
        assert(spec_insert_pkg(sorted, x) =~= sorted.insert(0, x));
    } else if k == 0 {
        assert(spec_insert_pkg(sorted, x) =~= sorted.insert(0, x));
    } else {
        assert forall|j: int| 0 <= j < k - 1 implies spec_pkg_cmp(#[trigger] sorted.skip(1)[j], x)
            != Cmp::Greater by {
            assert(sorted.skip(1)[j] == sorted[j + 1]);
        }
        if k - 1 < sorted.skip(1).len() {
            assert(sorted.skip(1)[k - 1] == sorted[k]);
        }
        lemma_insert_pkg_at(sorted.skip(1), x, k - 1);
        assert(seq![sorted[0]] + sorted.skip(1).insert(k - 1, x) =~= sorted.insert(k, x));
    }
}

/// The stable insertion position of a package in a sorted vector.
fn find_pkg_pos(out: &Vec<(String, Package)>, x: &(String, Package)) -> (p: usize)
    ensures
        p <= out@.len(),
        forall|j: int| 0 <= j < p ==> spec_pkg_cmp(#[trigger] out@[j], *x) != Cmp::Greater,
        p < out@.len() ==> spec_pkg_cmp(out@[p as int], *x) == Cmp::Greater,
{
    let n = out.len();
    let mut p: usize = 0;
    while p < n
        invariant
            n == out@.len(),
            p <= n,
            forall|j: int| 0 <= j < p ==> spec_pkg_cmp(#[trigger] out@[j], *x) != Cmp::Greater,
        decreases n - p,
    {
        if matches!(pkg_cmp(&out[p], x), Cmp::Greater) {
            return p;
        }
        p += 1;
    }
    p
}

/// Sort the packages a refresh collected, as the installed and updates
/// views display them: OS-native packages first, then by name, stably.
pub fn sort_packages(packages: Vec<(String, Package)>) -> (r: Vec<(String, Package)>)
    ensures
        pkgs_view(r@) == pkgs_view(spec_sort_packages(packages@)),
{
    let ghost c = packages@;
    let mut out: Vec<(String, Package)> = Vec::new();
    proof {
        assert(c.take(0) =~= Seq::<(String, Package)>::empty());
        assert(pkgs_view(out@) =~= pkgs_view(spec_sort_packages(c.take(0))));
    }
    let cn = packages.len();
    let mut j: usize = 0;
    while j < cn
        invariant
            cn == packages@.len(),
            c == packages@,
            j <= cn,
            pkgs_view(out@) == pkgs_view(spec_sort_packages(c.take(j as int))),
        decreases cn - j,
    {
        let x = (packages[j].0.clone(), packages[j].1.clone());
        let p = find_pkg_pos(&out, &x);
        proof {
            lemma_insert_pkg_at(out@, x, p as int);
            lemma_insert_pkg_view_congruent(
                out@,
                spec_sort_packages(c.take(j as int)),
                x,
                c[j as int],
            );
        }
        let ghost before = out@;
        out.insert(p, x);
        proof {
            assert(out@ =~= before.insert(p as int, x));
            assert(pkgs_view(out@) == pkgs_view(spec_insert_pkg(before, x)));
            assert(c.take(j as int + 1).drop_last() =~= c.take(j as int));
            assert(c.take(j as int + 1).last() == c[j as int]);
        }
        j += 1;
    }
    proof {
        assert(c.take(cn as int) =~= c);
    }
    out
}

/// Stable insertion depends only on the views of the list and of the
/// inserted package.
proof fn lemma_insert_pkg_view_congruent(
    a_list: Seq<(String, Package)>,
    b_list: Seq<(String, Package)>,
    a: (String, Package),
    b: (String, Package),
)
    requires
        pkgs_view(a_list) == pkgs_view(b_list),
        a.0@ == b.0@,
        a.1@ == b.1@,
    ensures
        pkgs_view(spec_insert_pkg(a_list, a)) == pkgs_view(spec_insert_pkg(b_list, b)),
    decreases a_list.len(),
{
    assert(pkgs_view(a_list).len() == a_list.len());
    assert(pkgs_view(b_list).len() == b_list.len());
    assert(a_list.len() == b_list.len());
    if a_list.len() == 0 {
        assert(pkgs_view(spec_insert_pkg(a_list, a)) =~= pkgs_view(spec_insert_pkg(b_list, b)));
    } else {
        assert(pkgs_view(a_list)[0] == pkgs_view(b_list)[0]);
        assert(spec_pkg_cmp(a_list[0], a) == spec_pkg_cmp(b_list[0], b));
        if spec_pkg_cmp(a_list[0], a) == Cmp::Greater {
            assert forall|i: int|
                0 <= i < pkgs_view(seq![a] + a_list).len() implies #[trigger] pkgs_view(
                seq![a] + a_list,
            )[i] == pkgs_view(seq![b] + b_list)[i] by {
                if i > 0 {
                    assert((seq![a] + a_list)[i] == a_list[i - 1]);
                    assert((seq![b] + b_list)[i] == b_list[i - 1]);
                    assert(pkgs_view(a_list)[i - 1] == pkgs_view(b_list)[i - 1]);
                }
            }
            assert(pkgs_view(seq![a] + a_list) =~= pkgs_view(seq![b] + b_list));
        } else {
            assert(pkgs_view(a_list.skip(1)) =~= pkgs_view(b_list.skip(1))) by {
                assert forall|i: int| 0 <= i < a_list.skip(1).len() implies #[trigger] pkgs_view(
                    a_list.skip(1),
                )[i] == pkgs_view(b_list.skip(1))[i] by {
                    assert(pkgs_view(a_list)[i + 1] == pkgs_view(b_list)[i + 1]);
                }
            }
            lemma_insert_pkg_view_congruent(a_list.skip(1), b_list.skip(1), a, b);
            let ia = spec_insert_pkg(a_list.skip(1), a);
            let ib = spec_insert_pkg(b_list.skip(1), b);
            assert(pkgs_view(ia).len() == ia.len());
            assert(pkgs_view(ib).len() == ib.len());
            assert forall|i: int|
                0 <= i < pkgs_view(seq![a_list[0]] + ia).len() implies #[trigger] pkgs_view(
                seq![a_list[0]] + ia,
            )[i] == pkgs_view(seq![b_list[0]] + ib)[i] by {
                if i == 0 {
                    assert(pkgs_view(a_list)[0] == pkgs_view(b_list)[0]);
                } else {
                    assert((seq![a_list[0]] + ia)[i] == ia[i - 1]);
                    assert((seq![b_list[0]] + ib)[i] == ib[i - 1]);
                    assert(pkgs_view(ia)[i - 1] == pkgs_view(ib)[i - 1]);
                }
            }
            assert(pkgs_view(seq![a_list[0]] + ia) =~= pkgs_view(seq![b_list[0]] + ib));
        }
    }
}

/// The stable insertion position of an entry in a preference-ordered list:
/// the first index whose entry is strictly less preferred than `e`.
fn find_insert_pos(entries: &Vec<AppEntry>, e: &AppEntry, id: &AppId) -> (p: usize)
    ensures
        p <= entries@.len(),
        forall|j: int| 0 <= j < p ==> spec_entry_cmp(#[trigger] entries@[j]@, e@, id@)
            != Cmp::Greater,
        p < entries@.len() ==> spec_entry_cmp(entries@[p as int]@, e@, id@) == Cmp::Greater,
{
    let n = entries.len();
    let mut p: usize = 0;
    while p < n
        invariant
            n == entries@.len(),
            p <= n,
            forall|j: int| 0 <= j < p ==> spec_entry_cmp(#[trigger] entries@[j]@, e@, id@)
                != Cmp::Greater,
        decreases n - p,
    {
        if entry_cmp(&entries[p], e, id) == Cmp::Greater {
            return p;
        }
        p += 1;
    }
    p
}

/// When no bucket before index `i` holds the identifier and the bucket at
/// `i` does, `find_bucket` finds exactly `i`.
proof fn lemma_find_bucket_prefix(v: Seq<BucketV>, id: Seq<char>, i: int)
    requires
        0 <= i < v.len(),
        v[i].id == id,
        forall|k: int| 0 <= k < i ==> (#[trigger] v[k]).id != id,
    ensures
        find_bucket(v, id) == i,
    decreases i,
{
    if i > 0 {
        assert forall|k: int| 0 <= k < i - 1 implies (#[trigger] v.skip(1)[k]).id != id by {
            assert(v.skip(1)[k] == v[k + 1]);
        }
        lemma_find_bucket_prefix(v.skip(1), id, i - 1);
    }
}

} // verus!
