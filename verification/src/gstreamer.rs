//! Parsing a GStreamer codec-installer request string of the form
//! `gstreamer|version|application|description|type, details...` into its
//! parts, and the installer's modes and exit codes.

use vstd::prelude::*;
use crate::strutil::{
    chars_of, find_sub_chars, spec_split, spec_sub_index, split_chars, string_from_chars,
};

verus! {

/// A codec-installation request.
#[derive(Clone, Debug)]
pub struct GStreamerCodec {
    pub version: String,
    pub application: String,
    pub description: String,
    pub type_label: String,
}

/// The prefix of `s` before the first occurrence of `pat`, or all of `s`
/// when `pat` does not occur.
pub open spec fn spec_before_sub(s: Seq<char>, pat: Seq<char>) -> Seq<char> {
    let i = spec_sub_index(s, pat);
    if i >= 0 {
        s.subrange(0, i)
    } else {
        s
    }
}

/// What parsing a request string yields: the string split on `|` must
/// have at least five fields and lead with `gstreamer`; the result is
/// then the version, application and description fields, and the type
/// field cut before its first `, `.
pub open spec fn spec_parse_codec(input: Seq<char>) -> Option<(Seq<char>, Seq<char>, Seq<char>, Seq<
    char,
>)> {
    let parts = spec_split(input, '|');
    if parts.len() < 5 || parts[0] != "gstreamer"@ {
        None
    } else {
        Some((parts[1], parts[2], parts[3], spec_before_sub(parts[4], ", "@)))
    }
}

impl GStreamerCodec {
    /// Parse a codec-installer request string; any string that does not
    /// have the request shape yields `None`.
    pub fn parse(input: &str) -> (r: Option<GStreamerCodec>)
        ensures
            r is Some <==> spec_parse_codec(input@) is Some,
            r is Some ==> {
                let (version, application, description, type_label) = spec_parse_codec(
                    input@,
                ).unwrap();
                r.unwrap().version@ == version && r.unwrap().application@ == application
                    && r.unwrap().description@ == description && r.unwrap().type_label@ == type_label
            },
    {
        let cs = chars_of(input);
        let parts = split_chars(&cs, '|');
        proof {
            assert(parts.deep_view() == spec_split(input@, '|'));
        }
        if parts.len() < 5 {
            return None;
        }
        let head = &parts[0];
        let gst = chars_of("gstreamer");
        if head.len() != gst.len() {
            proof {
                assert(parts.deep_view()[0] == parts@[0]@);
            }
            return None;
        }
        let mut k: usize = 0;
        while k < head.len()
            invariant
                head@ == parts@[0]@,
                parts.deep_view() == spec_split(input@, '|'),
                parts.deep_view()[0] == parts@[0]@,
                parts@.len() >= 5,
                gst@ == "gstreamer"@,
                head@.len() == gst@.len(),
                k <= head@.len(),
                head@.subrange(0, k as int) == gst@.subrange(0, k as int),
            decreases head@.len() - k,
        {
            if head[k] != gst[k] {
                proof {
                    assert(parts.deep_view()[0] != "gstreamer"@) by {
                        if parts.deep_view()[0] == "gstreamer"@ {
                            assert(head@[k as int] == gst@[k as int]);
                        }
                    }
                }
                return None;
            }
            k += 1;
            proof {
                assert(head@.subrange(0, k as int) =~= gst@.subrange(0, k as int));
            }
        }
        proof {
            assert(head@ =~= head@.subrange(0, head@.len() as int));
            assert(gst@ =~= gst@.subrange(0, gst@.len() as int));
            assert(parts.deep_view()[0] == "gstreamer"@);
        }
        let type_field = &parts[4];
        let pat = chars_of(", ");
        let type_chars = match find_sub_chars(type_field, &pat) {
            Some(i) => crate::strutil::copy_range(type_field, 0, i),
            None => crate::strutil::copy_range(type_field, 0, type_field.len()),
        };
        proof {
            assert(parts.deep_view()[4] == parts@[4]@);
            assert(type_chars@ == spec_before_sub(parts.deep_view()[4], ", "@)) by {
                let i = spec_sub_index(parts@[4]@, ", "@);
                if i >= 0 {
                } else {
                    assert(parts@[4]@.subrange(0, parts@[4]@.len() as int) =~= parts@[4]@);
                }
            }
            assert(parts.deep_view()[1] == parts@[1]@);
            assert(parts.deep_view()[2] == parts@[2]@);
            assert(parts.deep_view()[3] == parts@[3]@);
        }
        Some(
            GStreamerCodec {
                version: string_from_chars(&parts[1]),
                application: string_from_chars(&parts[2]),
                description: string_from_chars(&parts[3]),
                type_label: string_from_chars(&type_chars),
            },
        )
    }
}

/// The exit code the codec installer reports.
#[derive(Clone, Copy, Debug, PartialEq, Eq, Structural)]
pub enum GStreamerExitCode {
    Success,
    NotFound,
    Error,
    PartialSuccess,
    UserAbort,
}

impl GStreamerExitCode {
    /// The numeric process exit code of this outcome.
    pub fn code(&self) -> (r: i32)
        ensures
            *self is Success ==> r == 0,
            *self is NotFound ==> r == 1,
            *self is Error ==> r == 2,
            *self is PartialSuccess ==> r == 3,
            *self is UserAbort ==> r == 4,
    {
        match self {
            Self::Success => 0,
            Self::NotFound => 1,
            Self::Error => 2,
            Self::PartialSuccess => 3,
            Self::UserAbort => 4,
        }
    }
}

/// How the application was started: as the store itself, or as the codec
/// installer dialog for one request.
#[derive(Clone, Debug)]
pub enum Mode {
    Normal,
    GStreamer { codec: GStreamerCodec, selected: Vec<usize>, installing: bool },
}

} // verus!
