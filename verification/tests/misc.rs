use cosmic_store::app_id::AppId;
use cosmic_store::app_info::{AppInfo, AppKind};
use cosmic_store::apps::{is_installed_inner, sort_packages, Package};
use cosmic_store::compat::{AppFramework, RiskLevel, WaylandCompatibility, WaylandSupport};
use cosmic_store::dispatch::{search_input_kind, SearchInputKind};
use cosmic_store::grid::GridMetrics;
use cosmic_store::gstreamer::{GStreamerCodec, GStreamerExitCode};
use cosmic_store::pages::SelectedSource;
use cosmic_store::stats::{
    aggregate_ref_downloads, should_download_new_version, with_stats, AppStats, StatsEntry,
};
use cosmic_store::utils::{days_in_month, format_download_count, leap_year};

#[test]
fn test_metadata_comparison() {
    let old_ts: u64 = 1704067200; // 2024-01-01
    let new_ts: u64 = 1706745600; // 2024-02-01
    assert!(new_ts > old_ts, "newer timestamp should be greater");
}

fn plain_info(name: &str, source_id: &str) -> AppInfo {
    AppInfo {
        kind: AppKind::DesktopApplication,
        name: String::from(name),
        summary: String::new(),
        description: String::new(),
        source_id: String::from(source_id),
        source_name: String::from("Source"),
        origin_opt: None,
        categories: Vec::new(),
        monthly_downloads: 0,
        provides: Vec::new(),
        pkgnames: Vec::new(),
        desktop_ids: Vec::new(),
        releases: Vec::new(),
        license: String::new(),
        verified: false,
        wayland_compat_opt: None,
    }
}

#[test]
fn download_count_formatting() {
    assert_eq!(format_download_count(0), "0");
    assert_eq!(format_download_count(999), "999");
    assert_eq!(format_download_count(5300), "5.3K");
    assert_eq!(format_download_count(999_949), "999.9K");
    assert_eq!(format_download_count(999_950), "1000.0K");
    assert_eq!(format_download_count(1_500_000), "1.5M");
    assert_eq!(format_download_count(10_200_000), "10.2M");
}

#[test]
fn calendar_helpers() {
    assert!(leap_year(2024));
    assert!(!leap_year(2023));
    assert!(!leap_year(1900));
    assert!(leap_year(2000));
    assert_eq!(days_in_month(2024, 2), 29);
    assert_eq!(days_in_month(2023, 2), 28);
    assert_eq!(days_in_month(2024, 4), 30);
    assert_eq!(days_in_month(2024, 12), 31);
}

#[test]
fn grid_metrics_columns() {
    let m = GridMetrics::new(1000, 240, 8);
    assert_eq!(m.cols, 4);
    assert_eq!(m.item_width, (1000 - 3 * 8) / 4);
    assert_eq!(m.column_spacing, 8);
    // Narrower than one item still gives one column.
    let m = GridMetrics::new(100, 240, 8);
    assert_eq!(m.cols, 1);
    assert_eq!(m.item_width, 100);
    // A zero minimum width with spacing still lays out.
    let m = GridMetrics::new(100, 0, 8);
    assert_eq!(m.cols, 13);
    assert_eq!(m.item_width, (100 - 12 * 8) / 13);
}

#[test]
fn gstreamer_codec_parsing() {
    let input = "gstreamer|1.0|cosmic-player|H.264 (Main Profile) decoder|decoder-video/x-h264, level=(string)3.1, profile=(string)main";
    let codec = GStreamerCodec::parse(input).expect("parses");
    assert_eq!(codec.version, "1.0");
    assert_eq!(codec.application, "cosmic-player");
    assert_eq!(codec.description, "H.264 (Main Profile) decoder");
    assert_eq!(codec.type_label, "decoder-video/x-h264");

    assert!(GStreamerCodec::parse("something else").is_none());
    assert!(GStreamerCodec::parse("gst|1.0|app|desc|type").is_none());
    assert!(GStreamerCodec::parse("gstreamer|1.0|app").is_none());
}

#[test]
fn gstreamer_exit_codes() {
    assert_eq!(GStreamerExitCode::Success.code(), 0);
    assert_eq!(GStreamerExitCode::NotFound.code(), 1);
    assert_eq!(GStreamerExitCode::Error.code(), 2);
    assert_eq!(GStreamerExitCode::PartialSuccess.code(), 3);
    assert_eq!(GStreamerExitCode::UserAbort.code(), 4);
}

#[test]
fn stats_snapshot_lookup_and_fill() {
    let mut stats = AppStats::new();
    stats.push(StatsEntry {
        id: AppId::new("org.example.App"),
        monthly_downloads: 4200,
        compat_opt: Some(WaylandCompatibility {
            support: WaylandSupport::Native,
            framework: AppFramework::GTK4,
            risk_level: RiskLevel::Low,
        }),
    });
    let hit = AppId::new("org.Example.App.desktop");
    assert_eq!(stats.try_monthly_downloads(&hit), Some(4200));
    assert!(stats.try_wayland_compatibility(&hit).is_some());
    let miss = AppId::new("org.other.App");
    assert_eq!(stats.try_monthly_downloads(&miss), None);
    assert!(stats.try_wayland_compatibility(&miss).is_none());

    let filled = with_stats(plain_info("App", "flathub"), &stats, &hit);
    assert_eq!(filled.monthly_downloads, 4200);
    assert!(filled.wayland_compat_opt.is_some());
    let unfilled = with_stats(plain_info("Other", "flathub"), &stats, &miss);
    assert_eq!(unfilled.monthly_downloads, 0);
    assert!(unfilled.wayland_compat_opt.is_none());
}

#[test]
fn stale_download_decision() {
    assert!(should_download_new_version(None, Some(5)));
    assert!(should_download_new_version(Some(5), None));
    assert!(should_download_new_version(None, None));
    assert!(should_download_new_version(Some(10), Some(5)));
    assert!(!should_download_new_version(Some(5), Some(5)));
    assert!(!should_download_new_version(Some(4), Some(5)));
}

#[test]
fn installed_matching() {
    let pkg = |id: &str, source: &str, pkgnames: &[&str]| {
        let mut info = plain_info(id, source);
        info.pkgnames = pkgnames.iter().map(|s| String::from(*s)).collect();
        Package { id: AppId::new(id), info }
    };
    let installed = Some(vec![
        (String::from("packagekit"), pkg("vim", "system", &["vim", "vim-common"])),
        (String::from("flatpak-system"), pkg("org.example.App", "flathub", &[])),
    ]);

    // Exact identifier and source match.
    let candidate = plain_info("App", "flathub");
    assert!(is_installed_inner(
        &installed,
        "flatpak-system",
        &AppId::new("org.example.App"),
        &candidate,
    ));
    // A different backend does not match.
    assert!(!is_installed_inner(
        &installed,
        "packagekit",
        &AppId::new("org.example.App"),
        &candidate,
    ));
    // A system package matches when all declared aliases are among the
    // installed package's aliases.
    let mut alias_info = plain_info("Vim", "system");
    alias_info.pkgnames = vec![String::from("vim")];
    assert!(is_installed_inner(
        &installed,
        "packagekit",
        &AppId::new("gvim"),
        &alias_info,
    ));
    // An alias outside the installed set does not match.
    alias_info.pkgnames.push(String::from("vim-gtk"));
    assert!(!is_installed_inner(
        &installed,
        "packagekit",
        &AppId::new("gvim"),
        &alias_info,
    ));
    // The alias fallback never applies to a reverse-DNS candidate: a
    // non-system identifier with a matching alias is still not installed.
    let mut dns_alias_info = plain_info("Editor", "system");
    dns_alias_info.pkgnames = vec![String::from("vim")];
    assert!(!is_installed_inner(
        &installed,
        "packagekit",
        &AppId::new("org.example.Editor"),
        &dns_alias_info,
    ));
    // No installed list means nothing is installed.
    assert!(!is_installed_inner(
        &None,
        "flatpak-system",
        &AppId::new("org.example.App"),
        &candidate,
    ));
}

#[test]
fn package_list_ordering() {
    let pkg = |id: &str, name: &str| Package {
        id: AppId::new(id),
        info: plain_info(name, "src"),
    };
    let packages = vec![
        (String::from("flatpak-system"), pkg("org.example.Zed", "Zed")),
        (String::from("packagekit"), pkg("vim", "vim")),
        (String::from("flatpak-system"), pkg("org.example.Abc", "Abc")),
        (String::from("packagekit"), pkg("bash", "bash")),
    ];
    let sorted = sort_packages(packages);
    let names: Vec<String> = sorted.iter().map(|p| p.1.info.name.clone()).collect();
    assert_eq!(names, vec!["bash", "vim", "Abc", "Zed"]);
}

#[test]
fn selected_source_marks_installed() {
    let info = plain_info("App", "flathub");
    let s = SelectedSource::new(String::from("flatpak-system"), &info, true);
    assert_eq!(s.source_name, "Source (installed)");
    let s = SelectedSource::new(String::from("flatpak-system"), &info, false);
    assert_eq!(s.source_name, "Source");
}

#[test]
fn search_input_classification() {
    assert!(matches!(
        search_input_kind("appstream:org.example.App"),
        SearchInputKind::AppstreamUrl(p) if p == "org.example.App"
    ));
    assert!(matches!(
        search_input_kind("file:///tmp/x.deb"),
        SearchInputKind::FileUrl(p) if p == "///tmp/x.deb"
    ));
    assert!(matches!(
        search_input_kind("mime:///x-scheme-handler/magnet/"),
        SearchInputKind::MimeUrl(p) if p == "x-scheme-handler/magnet"
    ));
    assert!(matches!(search_input_kind("/usr/bin/true"), SearchInputKind::FilePath));
    assert!(matches!(
        search_input_kind("gstreamer|1.0|app|desc|decoder-video/x-h264"),
        SearchInputKind::GStreamer(_)
    ));
    assert!(matches!(search_input_kind("plain words"), SearchInputKind::Text));
}

#[test]
fn ref_download_aggregation() {
    let refs = vec![
        (String::from("org.example.App/x86_64/stable"), 10u64),
        (String::from("org.other.Tool/x86_64/stable"), 3),
        (String::from("org.example.App/aarch64/stable"), 5),
    ];
    let totals = aggregate_ref_downloads(&refs);
    assert_eq!(totals.len(), 2);
    assert!(totals[0].0 == AppId::new("org.example.App"));
    assert_eq!(totals[0].1, 15);
    assert!(totals[1].0 == AppId::new("org.other.Tool"));
    assert_eq!(totals[1].1, 3);
}
