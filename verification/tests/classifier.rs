use cosmic_store::classify::{classify, detect_framework};
use cosmic_store::compat::{calculate_risk_level, AppFramework, RiskLevel, WaylandSupport};

fn all_supports() -> Vec<WaylandSupport> {
    vec![
        WaylandSupport::Native,
        WaylandSupport::Fallback,
        WaylandSupport::X11Only,
        WaylandSupport::Unknown,
    ]
}

fn all_frameworks() -> Vec<AppFramework> {
    vec![
        AppFramework::Native,
        AppFramework::GTK3,
        AppFramework::GTK4,
        AppFramework::Qt5,
        AppFramework::Qt6,
        AppFramework::QtWebEngine,
        AppFramework::Electron,
        AppFramework::Unknown,
    ]
}

#[test]
fn risk_table_total_and_exact() {
    // All 32 combinations, held against the documented precedence table.
    for support in all_supports() {
        for framework in all_frameworks() {
            let risk = calculate_risk_level(support, framework);
            let expected = if support == WaylandSupport::X11Only {
                RiskLevel::Critical
            } else if framework == AppFramework::QtWebEngine
                || framework == AppFramework::Electron
            {
                RiskLevel::High
            } else if support == WaylandSupport::Fallback {
                RiskLevel::Medium
            } else if support == WaylandSupport::Native
                && (framework == AppFramework::Qt5 || framework == AppFramework::Qt6)
            {
                RiskLevel::Medium
            } else if support == WaylandSupport::Native
                && (framework == AppFramework::GTK3
                    || framework == AppFramework::GTK4
                    || framework == AppFramework::Native)
            {
                RiskLevel::Low
            } else {
                RiskLevel::Medium
            };
            assert_eq!(risk, expected, "support {:?} framework {:?}", support, framework);
        }
    }
}

#[test]
fn framework_detection_precedence() {
    assert_eq!(detect_framework("uses qt5-qtwebengine and qt6"), AppFramework::QtWebEngine);
    assert_eq!(detect_framework("an Electron app"), AppFramework::Electron);
    assert_eq!(detect_framework("built on Qt6 and gtk-3"), AppFramework::Qt6);
    assert_eq!(detect_framework("kde5 platform"), AppFramework::Qt5);
    assert_eq!(detect_framework("gnome-45 runtime"), AppFramework::GTK4);
    assert_eq!(detect_framework("gtk-3 deps"), AppFramework::GTK3);
    assert_eq!(detect_framework("plain toolkit"), AppFramework::Native);
}

#[test]
fn framework_detection_is_case_insensitive() {
    // Would fail if the lowercasing step handed its input back unchanged
    // only for lowercase text: the needles are lowercase, the text is not.
    assert_eq!(detect_framework("USES QTWEBENGINE"), AppFramework::QtWebEngine);
    assert_eq!(detect_framework("An ELECTRON App"), AppFramework::Electron);
    assert_eq!(detect_framework("GNOME-40"), AppFramework::GTK4);
}

#[test]
fn classify_socket_combinations() {
    let wayland_only = vec![String::from("--socket=wayland")];
    let c = classify(&wayland_only, "plain");
    assert_eq!(c.support, WaylandSupport::Native);
    assert_eq!(c.framework, AppFramework::Native);
    assert_eq!(c.risk_level, RiskLevel::Low);

    let with_fallback = vec![
        String::from("--socket=wayland"),
        String::from("--socket=fallback-x11"),
    ];
    let c = classify(&with_fallback, "plain");
    assert_eq!(c.support, WaylandSupport::Fallback);
    assert_eq!(c.risk_level, RiskLevel::Medium);

    let x11_only = vec![String::from("--socket=x11")];
    let c = classify(&x11_only, "plain");
    assert_eq!(c.support, WaylandSupport::X11Only);
    assert_eq!(c.risk_level, RiskLevel::Critical);

    let nothing: Vec<String> = Vec::new();
    let c = classify(&nothing, "plain");
    assert_eq!(c.support, WaylandSupport::Unknown);
    assert_eq!(c.risk_level, RiskLevel::Medium);
}

#[test]
fn classify_fallback_socket_not_misread_as_x11() {
    // A fallback-x11 grant sets only the fallback flag; without a
    // Wayland or plain X11 socket the support level stays unknown.
    let args = vec![String::from("--socket=fallback-x11")];
    let c = classify(&args, "plain");
    assert_eq!(c.support, WaylandSupport::Unknown);
}

#[test]
fn classify_electron_high_risk_regardless_of_support() {
    let wayland_only = vec![String::from("--socket=wayland")];
    let c = classify(&wayland_only, "bundles electron");
    assert_eq!(c.support, WaylandSupport::Native);
    assert_eq!(c.framework, AppFramework::Electron);
    assert_eq!(c.risk_level, RiskLevel::High);
}
