//! Classifying raw search input before the text engine runs: address-like
//! inputs are routed to their handlers, codec-installer requests to the
//! codec flow, and only plain text reaches the text search.

use vstd::prelude::*;
use crate::gstreamer::{spec_parse_codec, GStreamerCodec};
use crate::strutil::{
    chars_of, copy_range, starts_with_chars, starts_with_seq, string_from_chars,
};

verus! {

/// What a raw search input asks for.
#[derive(Debug)]
pub enum SearchInputKind {
    /// An `appstream:` address naming one component; the payload is the
    /// component identifier with leading slashes removed.
    AppstreamUrl(String),
    /// A `file:` address; the payload is everything after the scheme.
    FileUrl(String),
    /// A `mime:` address; the payload is the media type with surrounding
    /// slashes removed.
    MimeUrl(String),
    /// An absolute filesystem path, to be resolved against the backends.
    FilePath,
    /// A codec-installer request.
    GStreamer(GStreamerCodec),
    /// Plain text for the text search.
    Text,
}

/// The sequence with leading occurrences of one character removed.
pub open spec fn spec_trim_lead(s: Seq<char>, c: char) -> Seq<char>
    decreases s.len(),
{
    if s.len() > 0 && s[0] == c {
        spec_trim_lead(s.skip(1), c)
    } else {
        s
    }
}

/// The sequence with trailing occurrences of one character removed.
pub open spec fn spec_trim_trail(s: Seq<char>, c: char) -> Seq<char>
    decreases s.len(),
{
    if s.len() > 0 && s[s.len() - 1] == c {
        spec_trim_trail(s.drop_last(), c)
    } else {
        s
    }
}

/// Leading occurrences of `c` removed.
fn trim_lead(s: &Vec<char>, c: char) -> (r: Vec<char>)
    ensures
        r@ == spec_trim_lead(s@, c),
{
    let n = s.len();
    let mut i: usize = 0;
    proof {
        assert(s@.skip(0) =~= s@);
    }
    while i < n
        invariant
            n == s@.len(),
            i <= n,
            spec_trim_lead(s@, c) == spec_trim_lead(s@.skip(i as int), c),
        decreases n - i,
    {
        let ghost rest = s@.skip(i as int);
        proof {
            assert(rest[0] == s@[i as int]);
            assert(rest.skip(1) =~= s@.skip(i as int + 1));
        }
        if s[i] != c {
            let r = copy_range(s, i, n);
            proof {
                assert(r@ =~= rest);
            }
            return r;
        }
        i += 1;
    }
    proof {
        assert(s@.skip(n as int) =~= Seq::<char>::empty());
    }
    Vec::new()
}

/// Trailing occurrences of `c` removed.
fn trim_trail(s: &Vec<char>, c: char) -> (r: Vec<char>)
    ensures
        r@ == spec_trim_trail(s@, c),
{
    let mut j = s.len();
    proof {
        assert(s@.take(s@.len() as int) =~= s@);
    }
    while j > 0
        invariant
            j <= s@.len(),
            spec_trim_trail(s@, c) == spec_trim_trail(s@.take(j as int), c),
        decreases j,
    {
        let ghost cur = s@.take(j as int);
        proof {
            assert(cur[cur.len() - 1] == s@[j - 1]);
            assert(cur.drop_last() =~= s@.take(j as int - 1));
        }
        if s[j - 1] != c {
            let r = copy_range(s, 0, j);
            proof {
                assert(r@ =~= cur);
            }
            return r;
        }
        j -= 1;
    }
    proof {
        assert(s@.take(0) =~= Seq::<char>::empty());
    }
    Vec::new()
}

/// What classification a raw input receives: address schemes first, then
/// absolute paths, then codec requests, and plain text otherwise.
pub open spec fn spec_input_kind_is_text(input: Seq<char>) -> bool {
    &&& !starts_with_seq(input, "appstream:"@)
    &&& !starts_with_seq(input, "file:"@)
    &&& !starts_with_seq(input, "mime:"@)
    &&& !starts_with_seq(input, "/"@)
    &&& spec_parse_codec(input) is None
}

/// Classify a raw search input.
pub fn search_input_kind(input: &str) -> (r: SearchInputKind)
    ensures
        starts_with_seq(input@, "appstream:"@) ==> (r matches SearchInputKind::AppstreamUrl(p)
            && p@ == spec_trim_lead(input@.skip("appstream:"@.len() as int), '/')),
        !starts_with_seq(input@, "appstream:"@) && starts_with_seq(input@, "file:"@) ==> (r matches
            SearchInputKind::FileUrl(p) && p@ == input@.skip("file:"@.len() as int)),
        !starts_with_seq(input@, "appstream:"@) && !starts_with_seq(input@, "file:"@)
            && starts_with_seq(input@, "mime:"@) ==> (r matches SearchInputKind::MimeUrl(p) && p@
            == spec_trim_trail(spec_trim_lead(input@.skip("mime:"@.len() as int), '/'), '/')),
        !starts_with_seq(input@, "appstream:"@) && !starts_with_seq(input@, "file:"@)
            && !starts_with_seq(input@, "mime:"@) && starts_with_seq(input@, "/"@) ==> r is FilePath,
        spec_input_kind_is_text(input@) ==> r is Text,
        !starts_with_seq(input@, "appstream:"@) && !starts_with_seq(input@, "file:"@)
            && !starts_with_seq(input@, "mime:"@) && !starts_with_seq(input@, "/"@)
            && spec_parse_codec(input@) is Some ==> r is GStreamer,
{
    let cs = chars_of(input);
    let appstream = chars_of("appstream:");
    if starts_with_chars(&cs, &appstream) {
        let rest = copy_range(&cs, appstream.len(), cs.len());
        proof {
            assert(rest@ =~= input@.skip("appstream:"@.len() as int));
        }
        let trimmed = trim_lead(&rest, '/');
        return SearchInputKind::AppstreamUrl(string_from_chars(&trimmed));
    }
    let file = chars_of("file:");
    if starts_with_chars(&cs, &file) {
        let rest = copy_range(&cs, file.len(), cs.len());
        proof {
            assert(rest@ =~= input@.skip("file:"@.len() as int));
        }
        return SearchInputKind::FileUrl(string_from_chars(&rest));
    }
    let mime = chars_of("mime:");
    if starts_with_chars(&cs, &mime) {
        let rest = copy_range(&cs, mime.len(), cs.len());
        proof {
            assert(rest@ =~= input@.skip("mime:"@.len() as int));
        }
        let trimmed = trim_trail(&trim_lead(&rest, '/'), '/');
        return SearchInputKind::MimeUrl(string_from_chars(&trimmed));
    }
    let slash = chars_of("/");
    if starts_with_chars(&cs, &slash) {
        return SearchInputKind::FilePath;
    }
    match GStreamerCodec::parse(input) {
        Some(codec) => SearchInputKind::GStreamer(codec),
        None => SearchInputKind::Text,
    }
}

} // verus!
