//! Deriving a compatibility classification from a backend manifest: sandbox
//! socket permissions decide the support level, and a case-insensitive
//! substring scan of the manifest text decides the UI framework.

use vstd::prelude::*;
use crate::compat::{
    calculate_risk_level, spec_risk_level, AppFramework, WaylandCompatibility, WaylandSupport,
};
use crate::strutil::{chars_of, contains_chars, contains_seq};

verus! {

/// The Unicode-lowercased form of a character sequence, as std computes it.
pub uninterp spec fn lower_of(s: Seq<char>) -> Seq<char>;

/// Relies on str::to_lowercase: returns the Unicode lowercase equivalent of
/// the input, a function of the input characters alone.
#[verifier::external_body]
fn lowercase(s: &str) -> (r: String)
    ensures
        r@ == lower_of(s@),
{
    s.to_lowercase()
}

/// One sandbox argument grants the Wayland socket.
pub open spec fn arg_grants_wayland(arg: Seq<char>) -> bool {
    contains_seq(arg, "--socket=wayland"@)
}

/// One sandbox argument grants the fallback X11 socket; the Wayland socket
/// takes precedence within a single argument.
pub open spec fn arg_grants_fallback_x11(arg: Seq<char>) -> bool {
    !contains_seq(arg, "--socket=wayland"@) && contains_seq(arg, "--socket=fallback-x11"@)
}

/// One sandbox argument grants the plain X11 socket; the Wayland and
/// fallback sockets take precedence within a single argument.
pub open spec fn arg_grants_x11(arg: Seq<char>) -> bool {
    !contains_seq(arg, "--socket=wayland"@) && !contains_seq(arg, "--socket=fallback-x11"@)
        && contains_seq(arg, "--socket=x11"@)
}

/// Any argument of the list grants the Wayland socket.
pub open spec fn spec_wayland(args: Seq<Seq<char>>) -> bool {
    exists|i: int| 0 <= i < args.len() && arg_grants_wayland(#[trigger] args[i])
}

/// Any argument of the list grants the fallback X11 socket.
pub open spec fn spec_fallback_x11(args: Seq<Seq<char>>) -> bool {
    exists|i: int| 0 <= i < args.len() && arg_grants_fallback_x11(#[trigger] args[i])
}

/// Any argument of the list grants the plain X11 socket.
pub open spec fn spec_x11(args: Seq<Seq<char>>) -> bool {
    exists|i: int| 0 <= i < args.len() && arg_grants_x11(#[trigger] args[i])
}

/// Support level from the three socket grants: native if Wayland only,
/// fallback if Wayland plus either X11 variant, X11-only if X11 without
/// Wayland, unknown otherwise.
pub open spec fn spec_support(wayland: bool, x11: bool, fallback_x11: bool) -> WaylandSupport {
    if wayland && !x11 && !fallback_x11 {
        WaylandSupport::Native
    } else if wayland && (fallback_x11 || x11) {
        WaylandSupport::Fallback
    } else if x11 && !wayland {
        WaylandSupport::X11Only
    } else {
        WaylandSupport::Unknown
    }
}

/// Framework detected by substring search over the lowercased manifest
/// text, in precedence order, first match wins.
pub open spec fn spec_detect_framework(low: Seq<char>) -> AppFramework {
    if contains_seq(low, "qtwebengine"@) || contains_seq(low, "qt5-qtwebengine"@) {
        AppFramework::QtWebEngine
    } else if contains_seq(low, "electron"@) {
        AppFramework::Electron
    } else if contains_seq(low, "qt6"@) || contains_seq(low, "kde6"@) {
        AppFramework::Qt6
    } else if contains_seq(low, "qt5"@) || contains_seq(low, "kde5"@) {
        AppFramework::Qt5
    } else if contains_seq(low, "gtk-4"@) || contains_seq(low, "gnome-4"@) {
        AppFramework::GTK4
    } else if contains_seq(low, "gtk-3"@) || contains_seq(low, "gnome-3"@) {
        AppFramework::GTK3
    } else {
        AppFramework::Native
    }
}

/// The full classification of a manifest: support from the socket grants,
/// framework from the lowercased text, risk from the precedence table.
pub open spec fn spec_classify(args: Seq<Seq<char>>, low: Seq<char>) -> WaylandCompatibility {
    let support = spec_support(spec_wayland(args), spec_x11(args), spec_fallback_x11(args));
    let framework = spec_detect_framework(low);
    WaylandCompatibility {
        support,
        framework,
        risk_level: spec_risk_level(support, framework),
    }
}

/// Detect the UI framework of a manifest by case-insensitive substring
/// search over its full text.
pub fn detect_framework(manifest_text: &str) -> (r: AppFramework)
    ensures
        r == spec_detect_framework(lower_of(manifest_text@)),
{
    let low_string = lowercase(manifest_text);
    let low = chars_of(low_string.as_str());
    if contains_chars(&low, &chars_of("qtwebengine")) || contains_chars(
        &low,
        &chars_of("qt5-qtwebengine"),
    ) {
        return AppFramework::QtWebEngine;
    }
    if contains_chars(&low, &chars_of("electron")) {
        return AppFramework::Electron;
    }
    if contains_chars(&low, &chars_of("qt6")) || contains_chars(&low, &chars_of("kde6")) {
        return AppFramework::Qt6;
    }
    if contains_chars(&low, &chars_of("qt5")) || contains_chars(&low, &chars_of("kde5")) {
        return AppFramework::Qt5;
    }
    if contains_chars(&low, &chars_of("gtk-4")) || contains_chars(&low, &chars_of("gnome-4")) {
        return AppFramework::GTK4;
    }
    if contains_chars(&low, &chars_of("gtk-3")) || contains_chars(&low, &chars_of("gnome-3")) {
        return AppFramework::GTK3;
    }
    AppFramework::Native
}

/// Classify a backend manifest from its sandbox arguments and full text.
/// Total: every manifest maps to a defined classification.
pub fn classify(finish_args: &Vec<String>, manifest_text: &str) -> (r: WaylandCompatibility)
    ensures
        r == spec_classify(finish_args.deep_view(), lower_of(manifest_text@)),
{
    let ghost args = finish_args.deep_view();
    let mut wayland = false;
    let mut x11 = false;
    let mut fallback_x11 = false;
    let w_pat = chars_of("--socket=wayland");
    let f_pat = chars_of("--socket=fallback-x11");
    let x_pat = chars_of("--socket=x11");
    let mut i: usize = 0;
    while i < finish_args.len()
        invariant
            args == finish_args.deep_view(),
            w_pat@ == "--socket=wayland"@,
            f_pat@ == "--socket=fallback-x11"@,
            x_pat@ == "--socket=x11"@,
            i <= args.len(),
            args.len() == finish_args@.len(),
            wayland == exists|k: int| 0 <= k < i && arg_grants_wayland(#[trigger] args[k]),
            fallback_x11 == exists|k: int|
                0 <= k < i && arg_grants_fallback_x11(#[trigger] args[k]),
            x11 == exists|k: int| 0 <= k < i && arg_grants_x11(#[trigger] args[k]),
        decreases args.len() - i,
    {
        let arg = chars_of(finish_args[i].as_str());
        proof {
            assert(args[i as int] == finish_args@[i as int]@);
        }
        if contains_chars(&arg, &w_pat) {
            wayland = true;
        } else if contains_chars(&arg, &f_pat) {
            fallback_x11 = true;
        } else if contains_chars(&arg, &x_pat) {
            x11 = true;
        }
        i += 1;
    }
    proof {
        assert(wayland == spec_wayland(args));
        assert(fallback_x11 == spec_fallback_x11(args));
        assert(x11 == spec_x11(args));
    }
    let framework = detect_framework(manifest_text);
    let support = if wayland && !x11 && !fallback_x11 {
        WaylandSupport::Native
    } else if wayland && (fallback_x11 || x11) {
        WaylandSupport::Fallback
    } else if x11 && !wayland {
        WaylandSupport::X11Only
    } else {
        WaylandSupport::Unknown
    };
    let risk_level = calculate_risk_level(support, framework);
    WaylandCompatibility { support, framework, risk_level }
}

} // verus!
