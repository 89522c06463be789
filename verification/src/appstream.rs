//! Parsing appstream catalog data into per-identifier metadata records.
//! Two catalog encodings are read: the line-based collection format whose
//! documents are separated by `---` lines, and the XML collection format.
//! The catalog is treated as ASCII text: any other byte decodes to the
//! replacement character. Malformed input degrades to missing fields or
//! fewer records, never an error.

use vstd::prelude::*;
use crate::app_id::{norm_of, AppId};
use crate::app_info::{AppInfo, AppKind};
use crate::strutil::{
    chars_of, copy_range, find_sub_chars, spec_elem_index, spec_split, spec_split_elems,
    spec_sub_index, split_chars, split_elems, starts_with_chars, starts_with_seq,
    string_from_chars,
};

verus! {

/// The catalog text of a byte sequence: ASCII bytes as themselves, any
/// other byte as the replacement character.
pub open spec fn spec_decode(b: Seq<u8>) -> Seq<char> {
    b.map_values(
        |x: u8|
            if x < 128 {
                x as char
            } else {
                '\u{fffd}'
            },
    )
}

/// Exec decode of catalog bytes.
pub fn decode_bytes(b: &[u8]) -> (r: Vec<char>)
    ensures
        r@ == spec_decode(b@),
{
    let n = b.len();
    let mut v: Vec<char> = Vec::new();
    let mut i: usize = 0;
    while i < n
        invariant
            n == b@.len(),
            i <= n,
            v@ == spec_decode(b@.subrange(0, i as int)),
        decreases n - i,
    {
        let x = b[i];
        if x < 128 {
            v.push(x as char);
        } else {
            v.push('\u{fffd}');
        }
        i += 1;
        proof {
            assert(v@ =~= spec_decode(b@.subrange(0, i as int)));
        }
    }
    proof {
        assert(b@.subrange(0, n as int) =~= b@);
    }
    v
}

/// The value of the first line of a document starting with `prefix`, or
/// nothing when no line does.
pub open spec fn spec_prefix_field(doc: Seq<Seq<char>>, prefix: Seq<char>) -> Option<Seq<char>>
    decreases doc.len(),
{
    if doc.len() == 0 {
        None
    } else if starts_with_seq(doc[0], prefix) {
        Some(doc[0].skip(prefix.len() as int))
    } else {
        spec_prefix_field(doc.skip(1), prefix)
    }
}

/// Exec form of `spec_prefix_field`.
fn prefix_field(doc: &Vec<Vec<char>>, prefix: &Vec<char>) -> (r: Option<Vec<char>>)
    ensures
        match (spec_prefix_field(doc.deep_view(), prefix@), &r) {
            (Some(s), Some(v)) => v@ == s,
            (None, None) => true,
            _ => false,
        },
{
    let n = doc.len();
    let mut i: usize = 0;
    proof {
        assert(doc.deep_view().skip(0) =~= doc.deep_view());
    }
    loop
        invariant
            n == doc@.len(),
            n == doc.deep_view().len(),
            i <= n,
            spec_prefix_field(doc.deep_view(), prefix@) == spec_prefix_field(
                doc.deep_view().skip(i as int),
                prefix@,
            ),
        decreases n - i,
    {
        if i >= n {
            return None;
        }
        let ghost rest = doc.deep_view().skip(i as int);
        proof {
            assert(rest[0] == doc.deep_view()[i as int]);
            assert(doc.deep_view()[i as int] == doc@[i as int]@);
            assert(rest.skip(1) =~= doc.deep_view().skip(i as int + 1));
        }
        if starts_with_chars(&doc[i], prefix) {
            let v = copy_range(&doc[i], prefix.len(), doc[i].len());
            proof {
                assert(v@ =~= doc@[i as int]@.skip(prefix@.len() as int));
            }
            return Some(v);
        }
        i += 1;
    }
}

/// The localized value of a section: the value of the first `  C: ` line
/// after the first line equal to the section header.
pub open spec fn spec_section_value(doc: Seq<Seq<char>>, header: Seq<char>) -> Option<Seq<char>> {
    let i = spec_elem_index(doc, header);
    if 0 <= i < doc.len() {
        spec_prefix_field(doc.skip(i + 1), "  C: "@)
    } else {
        None
    }
}

/// Exec form of `spec_section_value`.
fn section_value(doc: &Vec<Vec<char>>, header: &Vec<char>) -> (r: Option<Vec<char>>)
    ensures
        match (spec_section_value(doc.deep_view(), header@), &r) {
            (Some(s), Some(v)) => v@ == s,
            (None, None) => true,
            _ => false,
        },
{
    let n = doc.len();
    let mut i: usize = 0;
    proof {
        crate::strutil::lemma_elem_index_facts(doc.deep_view(), header@);
    }
    loop
        invariant
            n == doc@.len(),
            n == doc.deep_view().len(),
            i <= n,
            forall|k: int| 0 <= k < i ==> doc.deep_view()[k] != header@,
        decreases n - i,
    {
        if i >= n {
            proof {
                crate::strutil::lemma_elem_index_facts(doc.deep_view(), header@);
                if spec_elem_index(doc.deep_view(), header@) >= 0 {
                    assert(doc.deep_view()[spec_elem_index(doc.deep_view(), header@)] == header@);
                }
            }
            return None;
        }
        proof {
            assert(doc.deep_view()[i as int] == doc@[i as int]@);
        }
        if crate::strutil::eq_chars(&doc[i], header) {
            proof {
                crate::strutil::lemma_elem_index_prefix(doc.deep_view(), header@, i as int);
            }
            // Copy the remainder of the document and scan it for the
            // localized value.
            let mut tail: Vec<Vec<char>> = Vec::new();
            let mut k: usize = i + 1;
            while k < n
                invariant
                    i + 1 <= k <= n,
                    n == doc@.len(),
                    n == doc.deep_view().len(),
                    tail.deep_view() == doc.deep_view().subrange(i as int + 1, k as int),
                decreases n - k,
            {
                let line = copy_range(&doc[k], 0, doc[k].len());
                let ghost before = tail.deep_view();
                tail.push(line);
                proof {
                    assert(line@ =~= doc@[k as int]@);
                    assert(doc.deep_view()[k as int] == doc@[k as int]@);
                    assert(tail.deep_view() =~~= before + seq![line@]);
                    assert(tail.deep_view() =~~= doc.deep_view().subrange(
                        i as int + 1,
                        k as int + 1,
                    ));
                }
                k += 1;
            }
            proof {
                assert(tail.deep_view() =~= doc.deep_view().skip(i as int + 1));
            }
            let c_prefix = chars_of("  C: ");
            return prefix_field(&tail, &c_prefix);
        }
        i += 1;
    }
}

/// One component of a catalog, as its document describes it.
#[verifier::ext_equal]
pub ghost struct ComponentV {
    pub id_raw: Seq<char>,
    pub desktop: bool,
    pub name: Seq<char>,
    pub summary: Seq<char>,
}

/// The component a document describes, when it names an identifier: the
/// kind comes from its `Type: ` field, and the name and summary from the
/// localized values of their sections, empty when absent.
pub open spec fn spec_component_of(doc: Seq<Seq<char>>) -> Option<ComponentV> {
    match spec_prefix_field(doc, "ID: "@) {
        None => None,
        Some(id_raw) => Some(
            ComponentV {
                id_raw,
                desktop: spec_prefix_field(doc, "Type: "@) == Some("desktop-application"@),
                name: match spec_section_value(doc, "Name:"@) {
                    Some(n) => n,
                    None => Seq::<char>::empty(),
                },
                summary: match spec_section_value(doc, "Summary:"@) {
                    Some(s) => s,
                    None => Seq::<char>::empty(),
                },
            },
        ),
    }
}

/// The components of a document list, in order, keeping only documents
/// that name an identifier.
pub open spec fn spec_components(docs: Seq<Seq<Seq<char>>>) -> Seq<ComponentV>
    decreases docs.len(),
{
    if docs.len() == 0 {
        Seq::<ComponentV>::empty()
    } else {
        let rest = spec_components(docs.skip(1));
        match spec_component_of(docs[0]) {
            Some(c) => seq![c] + rest,
            None => rest,
        }
    }
}

/// The documents of catalog text: groups of lines between `---` lines.
pub open spec fn spec_docs(b: Seq<u8>) -> Seq<Seq<Seq<char>>> {
    spec_split_elems(spec_split(spec_decode(b), '\n'), "---"@)
}

/// The declared origin repository of a catalog: the value of its first
/// `Origin: ` line.
pub open spec fn spec_yaml_origin(b: Seq<u8>) -> Option<Seq<char>> {
    spec_prefix_field(spec_split(spec_decode(b), '\n'), "Origin: "@)
}

/// The components of a catalog: those of every document that names an
/// identifier.
pub open spec fn spec_yaml_components(b: Seq<u8>) -> Seq<ComponentV> {
    spec_components(spec_docs(b))
}

/// An error of catalog parsing. This parser accepts any byte sequence
/// and degrades missing structure to missing fields, so it reports none.
#[derive(Debug)]
pub enum AppstreamError {
    Invalid,
}

/// A parser of appstream catalog data.
#[derive(Debug)]
pub struct AppstreamCache {
}

impl Default for AppstreamCache {
    fn default() -> (r: Self)
        ensures
            r == (AppstreamCache {  }),
    {
        AppstreamCache {  }
    }
}

/// A metadata record with every field empty, to be filled from a parsed
/// component.
pub fn empty_info() -> (r: AppInfo)
    ensures
        r@.kind == AppKind::Other,
        r@.name.len() == 0,
        r@.summary.len() == 0,
        r@.description.len() == 0,
        r@.source_id.len() == 0,
        r@.source_name.len() == 0,
        r@.origin_opt is None,
        r@.categories.len() == 0,
        r@.monthly_downloads == 0,
        r@.provides.len() == 0,
        r@.pkgnames.len() == 0,
        r@.desktop_ids.len() == 0,
        r@.releases.len() == 0,
        r@.license.len() == 0,
        r@.verified == false,
        r@.wayland_compat_opt is None,
{
    AppInfo {
        kind: AppKind::Other,
        name: String::new(),
        summary: String::new(),
        description: String::new(),
        source_id: String::new(),
        source_name: String::new(),
        origin_opt: None,
        categories: Vec::new(),
        monthly_downloads: 0,
        provides: Vec::new(),
        pkgnames: Vec::new(),
        desktop_ids: Vec::new(),
        releases: Vec::new(),
        license: String::new(),
        verified: false,
        wayland_compat_opt: None,
    }
}

/// The record a parsed component yields.
fn info_of_component(doc: &Vec<Vec<char>>) -> (r: Option<(AppId, AppInfo)>)
    ensures
        match (spec_component_of(doc.deep_view()), &r) {
            (Some(c), Some(p)) => p.0@ == norm_of(c.id_raw) && p.1@.name == c.name && p.1@.summary
                == c.summary && (p.1@.kind == AppKind::DesktopApplication <==> c.desktop)
                && p.1@.monthly_downloads == 0,
            (None, None) => true,
            _ => false,
        },
{
    let id_prefix = chars_of("ID: ");
    let id_raw = match prefix_field(doc, &id_prefix) {
        Some(v) => v,
        None => {
            return None;
        },
    };
    let type_prefix = chars_of("Type: ");
    let desktop = match prefix_field(doc, &type_prefix) {
        Some(t) => crate::strutil::eq_chars(&t, &chars_of("desktop-application")),
        None => false,
    };
    let name = match section_value(doc, &chars_of("Name:")) {
        Some(v) => v,
        None => Vec::new(),
    };
    let summary = match section_value(doc, &chars_of("Summary:")) {
        Some(v) => v,
        None => Vec::new(),
    };
    let id = AppId::new(string_from_chars(&id_raw).as_str());
    let mut info = empty_info();
    info.kind = if desktop {
        AppKind::DesktopApplication
    } else {
        AppKind::Other
    };
    info.name = string_from_chars(&name);
    info.summary = string_from_chars(&summary);
    proof {
        let c = spec_component_of(doc.deep_view()).unwrap();
        assert(name@ =~= c.name);
        assert(summary@ =~= c.summary);
    }
    Some((id, info))
}

impl AppstreamCache {
    /// Parse a line-based catalog: documents separated by `---` lines,
    /// the origin from the header document, one record per later
    /// document that names an identifier. Any byte sequence is accepted.
    pub fn parse_yaml(&self, _path: &str, data: &[u8]) -> (r: Result<
        (Option<String>, Vec<(AppId, AppInfo)>, Vec<(AppId, Vec<AppId>)>),
        AppstreamError,
    >)
        ensures
            r is Ok,
            ({
                let (origin, infos, addons) = r.unwrap();
                &&& match (spec_yaml_origin(data@), origin) {
                    (Some(s), Some(o)) => o@ == s,
                    (None, None) => true,
                    _ => false,
                }
                &&& addons@.len() == 0
                &&& infos@.len() == spec_yaml_components(data@).len()
                &&& forall|k: int|
                    0 <= k < infos@.len() ==> {
                        let c = spec_yaml_components(data@)[k];
                        (#[trigger] infos@[k]).0@ == norm_of(c.id_raw) && infos@[k].1@.name
                            == c.name && infos@[k].1@.summary == c.summary && (infos@[k].1@.kind
                            == AppKind::DesktopApplication <==> c.desktop)
                    }
            }),
    {
        let chars = decode_bytes(data);
        let lines = split_chars(&chars, '\n');
        let sep = chars_of("---");
        let docs = split_elems(&lines, &sep);
        proof {
            assert(docs.deep_view() == spec_docs(data@));
            assert(lines.deep_view() == spec_split(spec_decode(data@), '\n'));
        }
        let origin = match prefix_field(&lines, &chars_of("Origin: ")) {
            Some(v) => Some(string_from_chars(&v)),
            None => None,
        };
        let mut infos: Vec<(AppId, AppInfo)> = Vec::new();
        let n = docs.len();
        let mut i: usize = 0;
        let ghost comps = spec_yaml_components(data@);
        proof {
            assert(docs.deep_view().skip(0) =~= spec_docs(data@));
            assert(comps.skip(0) =~= comps);
        }
        while i < n
            invariant
                n == docs@.len(),
                n == docs.deep_view().len(),
                i <= n,
                comps == spec_yaml_components(data@),
                infos@.len() <= comps.len(),
                spec_components(docs.deep_view().skip(i as int)) == comps.skip(
                    infos@.len() as int,
                ),
                forall|k: int|
                    0 <= k < infos@.len() ==> {
                        let c = comps[k];
                        (#[trigger] infos@[k]).0@ == norm_of(c.id_raw) && infos@[k].1@.name
                            == c.name && infos@[k].1@.summary == c.summary && (infos@[k].1@.kind
                            == AppKind::DesktopApplication <==> c.desktop)
                    },
            decreases n - i,
        {
            let ghost rest = docs.deep_view().skip(i as int);
            proof {
                assert(rest[0] == docs.deep_view()[i as int]);
                assert(docs.deep_view()[i as int] == docs@[i as int].deep_view());
                assert(rest.skip(1) =~= docs.deep_view().skip(i as int + 1));
            }
            match info_of_component(&docs[i]) {
                Some(p) => {
                    let ghost c = spec_component_of(rest[0]).unwrap();
                    let ghost len0 = infos@.len() as int;
                    proof {
                        assert(spec_components(rest) == seq![c] + spec_components(rest.skip(1)));
                        assert(comps.skip(len0).len() > 0);
                        assert(len0 < comps.len());
                        assert(comps[len0] == c) by {
                            assert(comps.skip(len0)[0] == comps[len0]);
                            assert(spec_components(rest)[0] == c);
                        }
                        assert(spec_components(rest.skip(1)) =~= spec_components(rest).skip(1));
                        assert(spec_components(rest).skip(1) =~= comps.skip(len0).skip(1));
                        assert(comps.skip(len0).skip(1) =~= comps.skip(len0 + 1));
                    }
                    infos.push(p);
                },
                None => {
                    proof {
                        assert(spec_components(rest) == spec_components(rest.skip(1)));
                    }
                },
            }
            i += 1;
        }
        proof {
            if i >= n {
                assert(docs.deep_view().skip(i as int) =~= Seq::<Seq<Seq<char>>>::empty());
            }
            assert(comps.skip(infos@.len() as int).len() == 0);
            assert(infos@.len() == comps.len());
        }
        Ok((origin, infos, Vec::new()))
    }
}

/// The values enclosed by an open/close tag pair, left to right: after
/// each occurrence of the open tag, the text up to the next occurrence
/// of the close tag.
pub open spec fn spec_tag_values(s: Seq<char>, open_tag: Seq<char>, close_tag: Seq<char>) -> Seq<
    Seq<char>,
>
    decreases s.len(),
{
    let i = spec_sub_index(s, open_tag);
    if 0 <= i && open_tag.len() > 0 && i + open_tag.len() <= s.len() {
        let after = s.skip(i + open_tag.len());
        let j = spec_sub_index(after, close_tag);
        if 0 <= j < after.len() {
            seq![after.subrange(0, j)] + spec_tag_values(after.skip(j + 1), open_tag, close_tag)
        } else {
            Seq::<Seq<char>>::empty()
        }
    } else {
        Seq::<Seq<char>>::empty()
    }
}

/// Exec form of `spec_tag_values`.
fn tag_values(s: &Vec<char>, open_tag: &Vec<char>, close_tag: &Vec<char>) -> (r: Vec<Vec<char>>)
    requires
        open_tag@.len() > 0,
        close_tag@.len() > 0,
    ensures
        r.deep_view() == spec_tag_values(s@, open_tag@, close_tag@),
{
    let mut out: Vec<Vec<char>> = Vec::new();
    let mut cur = copy_range(s, 0, s.len());
    proof {
        assert(cur@ =~= s@);
        assert(out.deep_view() =~= Seq::<Seq<char>>::empty());
    }
    loop
        invariant
            open_tag@.len() > 0,
            close_tag@.len() > 0,
            spec_tag_values(s@, open_tag@, close_tag@) == out.deep_view() + spec_tag_values(
                cur@,
                open_tag@,
                close_tag@,
            ),
        decreases cur@.len(),
    {
        let found_open = find_sub_chars(&cur, open_tag);
        match found_open {
            None => {
                proof {
                    assert(spec_tag_values(cur@, open_tag@, close_tag@)
                        =~= Seq::<Seq<char>>::empty());
                    assert(out.deep_view() + Seq::<Seq<char>>::empty() =~= out.deep_view());
                }
                return out;
            },
            Some(i) => {
                let cl = cur.len();
                proof {
                    assert(i + open_tag@.len() <= cl);
                }
                let after = copy_range(&cur, i + open_tag.len(), cl);
                proof {
                    assert(after@ =~= cur@.skip(i + open_tag@.len()));
                }
                let found_close = find_sub_chars(&after, close_tag);
                match found_close {
                    None => {
                        proof {
                            assert(spec_tag_values(cur@, open_tag@, close_tag@)
                                =~= Seq::<Seq<char>>::empty());
                            assert(out.deep_view() + Seq::<Seq<char>>::empty()
                                =~= out.deep_view());
                        }
                        return out;
                    },
                    Some(j) => {
                        proof {
                            assert(j + close_tag@.len() <= after@.len());
                        }
                        let value = copy_range(&after, 0, j);
                        let next = copy_range(&after, j + 1, after.len());
                        let ghost before = out.deep_view();
                        out.push(value);
                        proof {
                            assert(next@ =~= after@.skip(j + 1));
                            assert(out.deep_view() =~~= before + seq![value@]);
                            assert(spec_tag_values(cur@, open_tag@, close_tag@) == seq![
                                after@.subrange(0, j as int)] + spec_tag_values(
                                after@.skip(j + 1),
                                open_tag@,
                                close_tag@,
                            ));
                            assert(out.deep_view() + spec_tag_values(
                                next@,
                                open_tag@,
                                close_tag@,
                            ) =~= before + spec_tag_values(cur@, open_tag@, close_tag@));
                        }
                        cur = next;
                    },
                }
            },
        }
    }
}

/// The declared origin of an XML catalog: the value of the first
/// ` origin="` attribute.
pub open spec fn spec_xml_origin(b: Seq<u8>) -> Option<Seq<char>> {
    let s = spec_decode(b);
    let key = " origin=\""@;
    let i = spec_sub_index(s, key);
    if 0 <= i && i + key.len() <= s.len() {
        let after = s.skip(i + key.len());
        let j = spec_sub_index(after, "\""@);
        if j >= 0 {
            Some(after.subrange(0, j))
        } else {
            None
        }
    } else {
        None
    }
}

/// The component identifiers of an XML catalog, in order.
pub open spec fn spec_xml_ids(b: Seq<u8>) -> Seq<Seq<char>> {
    spec_tag_values(spec_decode(b), "<id>"@, "</id>"@)
}

/// The component names of an XML catalog, in order.
pub open spec fn spec_xml_names(b: Seq<u8>) -> Seq<Seq<char>> {
    spec_tag_values(spec_decode(b), "<name>"@, "</name>"@)
}

/// The component summaries of an XML catalog, in order.
pub open spec fn spec_xml_summaries(b: Seq<u8>) -> Seq<Seq<char>> {
    spec_tag_values(spec_decode(b), "<summary>"@, "</summary>"@)
}

impl AppstreamCache {
    /// Parse an XML catalog: the origin from the components element's
    /// attribute, one desktop-application record per `id` element, with
    /// the name and summary elements paired positionally. Any byte
    /// sequence is accepted.
    pub fn parse_xml(&self, _path: &str, data: &[u8]) -> (r: Result<
        (Option<String>, Vec<(AppId, AppInfo)>, Vec<(AppId, Vec<AppId>)>),
        AppstreamError,
    >)
        ensures
            r is Ok,
            ({
                let (origin, infos, addons) = r.unwrap();
                &&& match (spec_xml_origin(data@), origin) {
                    (Some(s), Some(o)) => o@ == s,
                    (None, None) => true,
                    _ => false,
                }
                &&& addons@.len() == 0
                &&& infos@.len() == spec_xml_ids(data@).len()
                &&& forall|k: int|
                    0 <= k < infos@.len() ==> {
                        let ids = spec_xml_ids(data@);
                        let names = spec_xml_names(data@);
                        let summaries = spec_xml_summaries(data@);
                        (#[trigger] infos@[k]).0@ == norm_of(ids[k]) && infos@[k].1@.kind
                            == AppKind::DesktopApplication && infos@[k].1@.name == (if k
                            < names.len() {
                            names[k]
                        } else {
                            Seq::<char>::empty()
                        }) && infos@[k].1@.summary == (if k < summaries.len() {
                            summaries[k]
                        } else {
                            Seq::<char>::empty()
                        })
                    }
            }),
    {
        let chars = decode_bytes(data);
        // Origin attribute.
        let key = chars_of(" origin=\"");
        let quote = chars_of("\"");
        let origin = match find_sub_chars(&chars, &key) {
            Some(i) => {
                let cl = chars.len();
                proof {
                    assert(i + key@.len() <= cl);
                }
                let after = copy_range(&chars, i + key.len(), cl);
                proof {
                    assert(after@ =~= chars@.skip(i + key@.len()));
                }
                match find_sub_chars(&after, &quote) {
                    Some(j) => {
                        let v = copy_range(&after, 0, j);
                        Some(string_from_chars(&v))
                    },
                    None => None,
                }
            },
            None => None,
        };
        // Component fields.
        proof {
            reveal_strlit("<id>");
            reveal_strlit("</id>");
            reveal_strlit("<name>");
            reveal_strlit("</name>");
            reveal_strlit("<summary>");
            reveal_strlit("</summary>");
        }
        let ids = tag_values(&chars, &chars_of("<id>"), &chars_of("</id>"));
        let names = tag_values(&chars, &chars_of("<name>"), &chars_of("</name>"));
        let summaries = tag_values(&chars, &chars_of("<summary>"), &chars_of("</summary>"));
        let mut infos: Vec<(AppId, AppInfo)> = Vec::new();
        let n = ids.len();
        let mut k: usize = 0;
        while k < n
            invariant
                n == ids@.len(),
                n == ids.deep_view().len(),
                ids.deep_view() == spec_xml_ids(data@),
                names.deep_view() == spec_xml_names(data@),
                summaries.deep_view() == spec_xml_summaries(data@),
                names.deep_view().len() == names@.len(),
                summaries.deep_view().len() == summaries@.len(),
                k <= n,
                infos@.len() == k,
                forall|j: int|
                    0 <= j < k ==> {
                        (#[trigger] infos@[j]).0@ == norm_of(ids.deep_view()[j])
                            && infos@[j].1@.kind == AppKind::DesktopApplication
                            && infos@[j].1@.name == (if j < names.deep_view().len() {
                            names.deep_view()[j]
                        } else {
                            Seq::<char>::empty()
                        }) && infos@[j].1@.summary == (if j < summaries.deep_view().len() {
                            summaries.deep_view()[j]
                        } else {
                            Seq::<char>::empty()
                        })
                    },
            decreases n - k,
        {
            let id = AppId::new(string_from_chars(&ids[k]).as_str());
            let mut info = empty_info();
            info.kind = AppKind::DesktopApplication;
            if k < names.len() {
                info.name = string_from_chars(&names[k]);
            }
            if k < summaries.len() {
                info.summary = string_from_chars(&summaries[k]);
            }
            proof {
                assert(ids.deep_view()[k as int] == ids@[k as int]@);
                if k < names@.len() {
                    assert(names.deep_view()[k as int] == names@[k as int]@);
                }
                if k < summaries@.len() {
                    assert(summaries.deep_view()[k as int] == summaries@[k as int]@);
                }
            }
            infos.push((id, info));
            k += 1;
        }
        Ok((origin, infos, Vec::new()))
    }
}

} // verus!
