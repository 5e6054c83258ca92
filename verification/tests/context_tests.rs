use applications::context::AppInfoContext;
use applications::record::{App, EnumerationError, NoMatchError};

fn sample_app(name: &str, desktop_path: &str) -> App {
    App {
        name: name.to_string(),
        icon_path: None,
        app_path_exe: None,
        app_desktop_path: desktop_path.to_string(),
    }
}

#[test]
fn get_all_apps() {
    let mut ctx = AppInfoContext::new();
    ctx.refresh_apps(Ok(vec![sample_app(
        "Terminal",
        "/usr/share/applications/terminal.desktop",
    )]))
    .unwrap();
    let apps = ctx.get_all_apps();
    println!("Apps Length: {:#?}", apps.len());
    assert!(apps.len() > 0);
}

#[test]
fn get_all_twice_identical() {
    let mut ctx = AppInfoContext::new();
    ctx.refresh_apps(Ok(vec![
        sample_app("A", "/apps/a.desktop"),
        sample_app("B", "/apps/b.desktop"),
    ]))
    .unwrap();
    let first = ctx.get_all_apps();
    let second = ctx.get_all_apps();
    assert_eq!(first, second);
}

#[test]
fn lazy_refresh_one_enumeration() {
    let mut ctx = AppInfoContext::new();
    let mut enumerations: usize = 0;
    assert!(ctx.needs_refresh());
    for _ in 0..3 {
        if ctx.needs_refresh() {
            enumerations += 1;
            ctx.refresh_apps(Ok(vec![sample_app("A", "/apps/a.desktop")]))
                .unwrap();
        }
        let apps = ctx.get_all_apps();
        assert_eq!(apps.len(), 1);
    }
    assert_eq!(enumerations, 1);
}

#[test]
fn background_refresh_single_flight() {
    let mut ctx = AppInfoContext::new();
    let first = ctx.begin_background_refresh();
    let second = ctx.begin_background_refresh();
    assert!(first);
    assert!(!second);
    assert!(ctx.is_refreshing());
    ctx.refresh_apps(Ok(vec![])).unwrap();
    assert!(!ctx.is_refreshing());
    assert!(ctx.begin_background_refresh());
}

#[test]
fn refresh_replaces_whole_or_nothing() {
    let mut ctx = AppInfoContext::new();
    let old_set = vec![
        sample_app("A", "/apps/a.desktop"),
        sample_app("B", "/apps/b.desktop"),
    ];
    ctx.refresh_apps(Ok(old_set.clone())).unwrap();
    assert_eq!(ctx.get_all_apps(), old_set);
    let new_set = vec![sample_app("C", "/apps/c.desktop")];
    ctx.refresh_apps(Ok(new_set.clone())).unwrap();
    assert_eq!(ctx.get_all_apps(), new_set);
    let failed = ctx.refresh_apps(Err(EnumerationError {
        message: "scan failed".to_string(),
    }));
    assert!(failed.is_err());
    assert_eq!(ctx.get_all_apps(), new_set);
    assert!(!ctx.is_refreshing());
}

#[test]
fn running_query_degrades_on_failure() {
    let mut ctx = AppInfoContext::new();
    ctx.refresh_apps(Ok(vec![sample_app("A", "/apps/a.desktop")]))
        .unwrap();
    let running = ctx.get_running_apps(Err(EnumerationError {
        message: "window listing failed".to_string(),
    }));
    assert!(running.is_empty());
}

#[test]
fn running_resolution_dedups_and_matches() {
    let mut ctx = AppInfoContext::new();
    ctx.refresh_apps(Ok(vec![
        sample_app("Terminal", "/apps/org.gnome.Terminal.desktop"),
        sample_app("Files", "/apps/org.gnome.Nautilus.desktop"),
    ]))
    .unwrap();
    let running = ctx.get_running_apps(Ok(vec![
        "terminal".to_string(),
        "terminal".to_string(),
        "org.gnome.Nautilus".to_string(),
        "Ghost".to_string(),
    ]));
    assert_eq!(running.len(), 2);
    assert_eq!(running[0].name, "Terminal");
    assert_eq!(running[1].name, "Files");
}

#[test]
fn distinct_identifiers_resolve_independently() {
    let mut ctx = AppInfoContext::new();
    ctx.refresh_apps(Ok(vec![sample_app(
        "Terminal",
        "/apps/org.gnome.Terminal.desktop",
    )]))
    .unwrap();
    let running = ctx.get_running_apps(Ok(vec![
        "Terminal".to_string(),
        "terminal".to_string(),
    ]));
    assert_eq!(running.len(), 2);
    assert_eq!(running[0], running[1]);
}

#[test]
fn running_resolution_prefers_first_catalog_entry() {
    let mut ctx = AppInfoContext::new();
    let first = sample_app("Editor", "/apps/editor-one.desktop");
    let second = sample_app("Editor", "/apps/editor-two.desktop");
    ctx.refresh_apps(Ok(vec![first.clone(), second])).unwrap();
    let running = ctx.get_running_apps(Ok(vec!["editor".to_string()]));
    assert_eq!(running, vec![first]);
}

#[test]
fn frontmost_fails_without_match() {
    let mut ctx = AppInfoContext::new();
    ctx.refresh_apps(Ok(vec![sample_app("Terminal", "/apps/terminal.desktop")]))
        .unwrap();
    let missing = ctx.get_frontmost_application("Nonexistent");
    assert_eq!(missing, Err(NoMatchError {}));
    let found = ctx.get_frontmost_application("terminal").unwrap();
    assert_eq!(found.name, "Terminal");
}

#[test]
fn clear_cache_enumerates_anew() {
    let mut ctx = AppInfoContext::new();
    let mut enumerations: usize = 0;
    if ctx.needs_refresh() {
        enumerations += 1;
        ctx.refresh_apps(Ok(vec![sample_app("Old", "/apps/old.desktop")]))
            .unwrap();
    }
    assert_eq!(ctx.get_all_apps()[0].name, "Old");
    ctx.empty_cache();
    if ctx.needs_refresh() {
        enumerations += 1;
        ctx.refresh_apps(Ok(vec![sample_app("New", "/apps/new.desktop")]))
            .unwrap();
    }
    let apps = ctx.get_all_apps();
    assert_eq!(enumerations, 2);
    assert_eq!(apps.len(), 1);
    assert_eq!(apps[0].name, "New");
}

#[test]
fn open_file_invocation_needs_executable() {
    let ctx = AppInfoContext::new();
    let mut with_exe = sample_app("Editor", "/apps/editor.desktop");
    with_exe.app_path_exe = Some("/usr/bin/editor".to_string());
    let invocation = ctx.open_file_invocation("/tmp/notes.txt", &with_exe);
    assert_eq!(
        invocation,
        Some(("/usr/bin/editor".to_string(), "/tmp/notes.txt".to_string()))
    );
    let without_exe = sample_app("Plain", "/apps/plain.desktop");
    assert_eq!(ctx.open_file_invocation("/tmp/notes.txt", &without_exe), None);
}
