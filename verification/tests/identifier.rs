use cosmic_store::app_id::AppId;

#[test]
fn app_id_case_insensitive() {
    let a = AppId::new("org.Example.App");
    let b = AppId::new("org.example.App");
    let c = AppId::new("ORG.EXAMPLE.APP");
    assert!(a == b);
    assert!(b == c);
    assert_eq!(a.normalized(), "org.example.app");
}

#[test]
fn app_id_desktop_suffix() {
    let a = AppId::new("org.foo.Bar.desktop");
    let b = AppId::new("org.foo.bar");
    assert!(a == b);
    assert_eq!(a.normalized(), "org.foo.bar");
}

#[test]
fn app_id_is_system() {
    assert!(AppId::new("firefox").is_system());
    assert!(AppId::new("libreoffice-writer").is_system());
    assert!(!AppId::new("org.mozilla.firefox").is_system());
    assert!(!AppId::new("com.example.App").is_system());
}

#[test]
fn app_id_accepts_any_string() {
    let a = AppId::new("");
    assert_eq!(a.normalized(), "");
    let b = AppId::new(".desktop");
    assert_eq!(b.normalized(), "");
    let c = AppId::new("Weird Name With Spaces");
    assert_eq!(c.normalized(), "weird name with spaces");
}
