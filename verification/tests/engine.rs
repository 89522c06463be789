use cosmic_store::app_entry::AppEntry;
use cosmic_store::app_info::{AppProvide, Release};
use cosmic_store::category::Category;
use cosmic_store::app_id::AppId;
use cosmic_store::app_info::{AppInfo, AppKind};
use cosmic_store::apps::Apps;
use cosmic_store::compat::{AppFramework, RiskLevel, WaylandCompatibility, WaylandSupport};
use cosmic_store::search::{
    first_page, generic_search, installed_results_data, search_results, ScoreRule, SearchSortMode,
    WaylandFilter,
};

fn make_info(name: &str, summary: &str, downloads: u64) -> AppInfo {
    AppInfo {
        kind: AppKind::DesktopApplication,
        name: String::from(name),
        summary: String::from(summary),
        description: String::new(),
        source_id: String::from("src"),
        source_name: String::from("Source"),
        origin_opt: None,
        categories: Vec::new(),
        monthly_downloads: downloads,
        provides: Vec::new(),
        pkgnames: Vec::new(),
        desktop_ids: Vec::new(),
        releases: Vec::new(),
        license: String::new(),
        verified: false,
        wayland_compat_opt: None,
    }
}

fn entry(backend: &str, info: AppInfo, installed: bool) -> AppEntry {
    AppEntry { backend_name: String::from(backend), info, installed }
}

#[test]
fn installed_entry_wins_display() {
    // One AppId, two entries: backend A not installed with 100 downloads,
    // backend B installed with 50, same source priority; a rule scoring
    // zero for both must yield one result attributed to B's record.
    let id = AppId::new("org.example.Foo");
    let mut apps = Apps::new();
    apps.insert_entry(&id, entry("A", make_info("Foo", "", 100), false));
    apps.insert_entry(&id, entry("B", make_info("Foo", "", 50), true));
    let rule = ScoreRule::AppIdExact(AppId::new("org.example.Foo"));
    let results = generic_search(&apps, "jammy", &rule, SearchSortMode::Relevance, WaylandFilter::All);
    assert_eq!(results.len(), 1);
    assert_eq!(results[0].backend_name(), "B");
    assert_eq!(results[0].info.monthly_downloads, 50);
    assert!(results[0].id == id);
}

#[test]
fn merge_preference_order_is_insertion_independent() {
    // Entries inserted in deliberately scrambled order still list the
    // installed entry first, then higher priority, then source, then
    // backend name.
    let id = AppId::new("org.example.Scrambled");
    let mut apps = Apps::new();
    apps.insert_entry(&id, entry("zeta", make_info("S", "", 0), false));
    apps.insert_entry(&id, entry("alpha", make_info("S", "", 0), false));
    apps.insert_entry(&id, entry("mid", make_info("S", "", 0), true));
    let entries = apps.get(&id).expect("bucket exists");
    assert_eq!(entries.len(), 3);
    assert!(entries[0].installed);
    assert_eq!(entries[0].backend_name, "mid");
    assert_eq!(entries[1].backend_name, "alpha");
    assert_eq!(entries[2].backend_name, "zeta");

    // The same entries inserted in another order give the same list.
    let mut apps2 = Apps::new();
    apps2.insert_entry(&id, entry("mid", make_info("S", "", 0), true));
    apps2.insert_entry(&id, entry("alpha", make_info("S", "", 0), false));
    apps2.insert_entry(&id, entry("zeta", make_info("S", "", 0), false));
    let entries2 = apps2.get(&id).expect("bucket exists");
    for (a, b) in entries.iter().zip(entries2.iter()) {
        assert_eq!(a.backend_name, b.backend_name);
        assert_eq!(a.installed, b.installed);
    }
}

#[test]
fn search_is_deterministic() {
    let mut apps = Apps::new();
    for (raw, downloads) in [
        ("org.example.One", 5u64),
        ("org.example.Two", 500),
        ("org.example.Three", 50),
    ] {
        let id = AppId::new(raw);
        apps.insert_entry(&id, entry("A", make_info(raw, "an app", downloads), false));
    }
    let r1 = search_results(&apps, "jammy", "org", SearchSortMode::Relevance, WaylandFilter::All);
    let r2 = search_results(&apps, "jammy", "org", SearchSortMode::Relevance, WaylandFilter::All);
    assert_eq!(r1.len(), r2.len());
    for (a, b) in r1.iter().zip(r2.iter()) {
        assert!(a.id == b.id);
        assert_eq!(a.backend_name(), b.backend_name());
        assert_eq!(a.weight, b.weight);
    }
}

#[test]
fn exact_name_ties_break_by_downloads() {
    // Two apps whose names both exactly equal the query: the one with
    // more monthly downloads sorts first.
    let mut apps = Apps::new();
    let id_small = AppId::new("org.example.small");
    apps.insert_entry(&id_small, entry("A", make_info("Foo", "", 5), false));
    let id_big = AppId::new("org.example.big");
    apps.insert_entry(&id_big, entry("A", make_info("Foo", "", 100), false));
    let results = search_results(&apps, "jammy", "Foo", SearchSortMode::Relevance, WaylandFilter::All);
    assert_eq!(results.len(), 2);
    assert_eq!(results[0].info.monthly_downloads, 100);
    assert_eq!(results[1].info.monthly_downloads, 5);
}

#[test]
fn prefix_name_match_beats_summary_match() {
    // Text search for "fire": an exact name prefix scores better than a
    // summary that merely contains "fire" mid-string.
    let mut apps = Apps::new();
    let firefox = AppId::new("org.mozilla.firefox");
    apps.insert_entry(&firefox, entry("A", make_info("Firefox", "a browser", 0), false));
    let other = AppId::new("org.example.campfire");
    apps.insert_entry(
        &other,
        entry("A", make_info("Campsite", "tend your camp fire here", 0), false),
    );
    let results = search_results(&apps, "jammy", "fire", SearchSortMode::Relevance, WaylandFilter::All);
    assert_eq!(results.len(), 2);
    assert_eq!(results[0].info.name, "Firefox");
    assert!(results[0].weight.major < results[1].weight.major);
}

#[test]
fn text_search_is_case_insensitive() {
    let mut apps = Apps::new();
    let id = AppId::new("org.mozilla.firefox");
    apps.insert_entry(&id, entry("A", make_info("firefox", "", 0), false));
    let results = search_results(&apps, "jammy", "FIRE", SearchSortMode::Relevance, WaylandFilter::All);
    assert_eq!(results.len(), 1);
}

#[test]
fn non_desktop_records_are_not_searched() {
    let mut apps = Apps::new();
    let id = AppId::new("org.example.addon");
    let mut info = make_info("Foo Addon", "", 0);
    info.kind = AppKind::Addon;
    apps.insert_entry(&id, entry("A", info, false));
    let results = search_results(&apps, "jammy", "Foo", SearchSortMode::Relevance, WaylandFilter::All);
    assert_eq!(results.len(), 0);
}

#[test]
fn origin_filtering_excludes_other_releases() {
    // A non-Flatpak entry published for "focal" is excluded when the
    // running codename is "jammy"; an identical Flatpak entry never is.
    let mut apps = Apps::new();
    let a = AppId::new("org.example.foreign");
    let mut info = make_info("Foreign", "", 0);
    info.origin_opt = Some(String::from("focal"));
    apps.insert_entry(&a, entry("packagekit", info, false));

    let b = AppId::new("org.example.flat");
    let mut info2 = make_info("Flat", "", 0);
    info2.origin_opt = Some(String::from("focal"));
    apps.insert_entry(&b, entry("flatpak-system", info2, false));

    let rule = ScoreRule::PopularApps;
    let results = generic_search(&apps, "jammy", &rule, SearchSortMode::Relevance, WaylandFilter::All);
    assert_eq!(results.len(), 1);
    assert_eq!(results[0].info.name, "Flat");

    // The same non-Flatpak entry is visible on its own release.
    let results = generic_search(&apps, "focal", &rule, SearchSortMode::Relevance, WaylandFilter::All);
    assert_eq!(results.len(), 2);
}

#[test]
fn wayland_filter_buckets_are_exclusive() {
    let mut apps = Apps::new();
    let compat = |risk| WaylandCompatibility {
        support: WaylandSupport::Native,
        framework: AppFramework::Native,
        risk_level: risk,
    };
    for (raw, c) in [
        ("org.example.low", Some(compat(RiskLevel::Low))),
        ("org.example.medium", Some(compat(RiskLevel::Medium))),
        ("org.example.high", Some(compat(RiskLevel::High))),
        ("org.example.critical", Some(compat(RiskLevel::Critical))),
        ("org.example.none", None),
    ] {
        let id = AppId::new(raw);
        let mut info = make_info(raw, "", 0);
        info.wayland_compat_opt = c;
        apps.insert_entry(&id, entry("A", info, false));
    }
    let rule = ScoreRule::PopularApps;
    let run = |filter| {
        generic_search(&apps, "jammy", &rule, SearchSortMode::Relevance, filter)
    };
    let unknown = run(WaylandFilter::Unknown);
    assert_eq!(unknown.len(), 1);
    assert_eq!(unknown[0].info.name, "org.example.none");
    for (filter, expected) in [
        (WaylandFilter::Excellent, "org.example.low"),
        (WaylandFilter::Good, "org.example.medium"),
        (WaylandFilter::Caution, "org.example.high"),
        (WaylandFilter::Limited, "org.example.critical"),
    ] {
        let results = run(filter);
        assert_eq!(results.len(), 1);
        assert_eq!(results[0].info.name, expected);
    }
    assert_eq!(run(WaylandFilter::All).len(), 5);
}

#[test]
fn installed_rule_prefers_system_packages() {
    let mut apps = Apps::new();
    let sys = AppId::new("zsh");
    apps.insert_entry(&sys, entry("packagekit", make_info("zsh", "", 0), true));
    let flat = AppId::new("org.example.app");
    apps.insert_entry(&flat, entry("flatpak-system", make_info("App", "", 0), true));
    let absent = AppId::new("org.example.other");
    apps.insert_entry(&absent, entry("flatpak-system", make_info("Other", "", 0), false));
    let results = installed_results_data(&apps, "jammy");
    assert_eq!(results.len(), 2);
    assert_eq!(results[0].info.name, "zsh");
    assert_eq!(results[1].info.name, "App");
}

#[test]
fn sort_mode_most_downloads() {
    let mut apps = Apps::new();
    for (raw, d) in [("org.a.one", 10u64), ("org.a.two", 300), ("org.a.three", 20)] {
        let id = AppId::new(raw);
        apps.insert_entry(&id, entry("A", make_info(raw, "", d), false));
    }
    let rule = ScoreRule::PopularApps;
    let results = generic_search(
        &apps,
        "jammy",
        &rule,
        SearchSortMode::MostDownloads,
        WaylandFilter::All,
    );
    let downloads: Vec<u64> = results.iter().map(|r| r.info.monthly_downloads).collect();
    assert_eq!(downloads, vec![300, 20, 10]);
}

#[test]
fn sort_mode_recently_updated_missing_timestamp_last() {
    let mut apps = Apps::new();
    let release = |ts: Option<i64>| Release {
        version: String::from("1"),
        timestamp_opt: ts,
        description_opt: None,
        url_opt: None,
    };
    for (raw, ts) in [
        ("org.b.old", Some(100i64)),
        ("org.b.new", Some(5000)),
        ("org.b.unknown", None),
    ] {
        let id = AppId::new(raw);
        let mut info = make_info(raw, "", 0);
        info.releases = vec![release(ts)];
        apps.insert_entry(&id, entry("A", info, false));
    }
    let rule = ScoreRule::PopularApps;
    let results = generic_search(
        &apps,
        "jammy",
        &rule,
        SearchSortMode::RecentlyUpdated,
        WaylandFilter::All,
    );
    let names: Vec<String> = results.iter().map(|r| r.info.name.clone()).collect();
    assert_eq!(names, vec!["org.b.new", "org.b.old", "org.b.unknown"]);
}

#[test]
fn editors_choice_rule_orders_by_list_position() {
    let mut apps = Apps::new();
    for raw in ["org.videolan.VLC", "org.mozilla.Firefox", "org.example.unlisted"] {
        let id = AppId::new(raw);
        apps.insert_entry(&id, entry("A", make_info(raw, "", 0), false));
    }
    let rule = ScoreRule::EditorsChoice(cosmic_store::pages::editors_choice_ids());
    let results = generic_search(&apps, "jammy", &rule, SearchSortMode::Relevance, WaylandFilter::All);
    assert_eq!(results.len(), 2);
    // Firefox stands earlier in the editorial list than VLC.
    assert!(results[0].id == AppId::new("org.mozilla.firefox"));
    assert!(results[1].id == AppId::new("org.videolan.vlc"));
}

#[test]
fn recently_updated_ignores_future_releases() {
    let release = |ts: Option<i64>| Release {
        version: String::from("1"),
        timestamp_opt: ts,
        description_opt: None,
        url_opt: None,
    };
    let mut apps = Apps::new();
    let future = AppId::new("org.c.future");
    let mut info = make_info("Future", "", 0);
    info.releases = vec![release(Some(2000))];
    apps.insert_entry(&future, entry("A", info, false));

    let past = AppId::new("org.c.past");
    let mut info = make_info("Past", "", 0);
    info.releases = vec![release(Some(500))];
    apps.insert_entry(&past, entry("A", info, false));

    let rule = ScoreRule::RecentlyUpdated(1000);
    let results = generic_search(&apps, "jammy", &rule, SearchSortMode::Relevance, WaylandFilter::All);
    assert_eq!(results.len(), 2);
    // The past release weighs in; the future one counts as never updated.
    assert_eq!(results[0].info.name, "Past");
    assert_eq!(results[0].weight.major, -500);
    assert_eq!(results[1].weight.major, 0);
}

#[test]
fn category_rule_includes_applet_capability() {
    let mut apps = Apps::new();

    let game = AppId::new("org.d.game");
    let mut info = make_info("Game", "", 7);
    info.categories = vec![String::from("Game")];
    apps.insert_entry(&game, entry("A", info, false));

    let applet = AppId::new("org.d.applet");
    let mut info = make_info("Applet", "", 3);
    info.provides = vec![AppProvide::Id(String::from("com.system76.CosmicApplet"))];
    apps.insert_entry(&applet, entry("A", info, false));

    let rule = ScoreRule::Category(vec![Category::Game, Category::CosmicApplet]);
    let results = generic_search(&apps, "jammy", &rule, SearchSortMode::Relevance, WaylandFilter::All);
    assert_eq!(results.len(), 2);
    // Most downloaded first within a category listing.
    assert_eq!(results[0].info.name, "Game");
    assert_eq!(results[1].info.name, "Applet");
}

#[test]
fn mime_handler_rule_matches_media_types() {
    let mut apps = Apps::new();
    let player = AppId::new("org.e.player");
    let mut info = make_info("Player", "", 0);
    info.provides = vec![AppProvide::MediaType(String::from("video/x-matroska"))];
    apps.insert_entry(&player, entry("A", info, false));
    let other = AppId::new("org.e.other");
    apps.insert_entry(&other, entry("A", make_info("Other", "", 0), false));

    let results = cosmic_store::search::mime_results(
        &apps,
        "jammy",
        String::from("video/x-matroska"),
    );
    assert_eq!(results.len(), 1);
    assert_eq!(results[0].info.name, "Player");
}

#[test]
fn first_page_truncates_to_page_size() {
    let mut apps = Apps::new();
    for i in 0..150u32 {
        let raw = format!("org.f.app{:03}", i);
        let id = AppId::new(&raw);
        apps.insert_entry(&id, entry("A", make_info(&raw, "", 0), false));
    }
    let rule = ScoreRule::PopularApps;
    let results = generic_search(&apps, "jammy", &rule, SearchSortMode::Relevance, WaylandFilter::All);
    assert_eq!(results.len(), 150);
    let page = first_page(&results);
    assert_eq!(page.len(), 100);
    assert_eq!(page[0].info.name, results[0].info.name);
    assert_eq!(page[99].info.name, results[99].info.name);
}
