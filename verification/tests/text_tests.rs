use applications::desktop::{desktop_entry_app, is_desktop_file};
use applications::text::{path_stem, str_contains, str_eq};
use applications::wm::{
    first_token, is_normal_window, last_token, window_class_name, window_instance_name,
};

#[test]
fn stem_drops_directory_and_extension() {
    assert_eq!(
        path_stem("/usr/share/applications/org.gnome.Terminal.desktop"),
        "org.gnome.Terminal"
    );
    assert_eq!(path_stem("firefox.desktop"), "firefox");
    assert_eq!(path_stem("/apps/noext"), "noext");
    assert_eq!(path_stem("/apps/.hidden"), ".hidden");
    assert_eq!(path_stem("/apps/archive.tar.gz"), "archive.tar");
    assert_eq!(path_stem("/apps/trailing."), "trailing");
    assert_eq!(path_stem("/apps/"), "");
}

#[test]
fn desktop_extension_detection() {
    assert!(is_desktop_file("/usr/share/applications/code.desktop"));
    assert!(is_desktop_file("plain.desktop"));
    assert!(!is_desktop_file("/usr/share/applications/code.desktop.bak"));
    assert!(!is_desktop_file("/usr/share/applications/desktop"));
    assert!(!is_desktop_file("/apps/.desktop"));
}

#[test]
fn desktop_entry_builds_record() {
    let app = desktop_entry_app(
        "/apps/code.desktop".to_string(),
        Some("Code".to_string()),
        Some("/usr/bin/code".to_string()),
        None,
    );
    assert_eq!(app.name, "Code");
    assert_eq!(app.app_path_exe, Some("/usr/bin/code".to_string()));
    assert_eq!(app.icon_path, None);
    assert_eq!(app.app_desktop_path, "/apps/code.desktop");
    let unnamed = desktop_entry_app("/apps/x.desktop".to_string(), None, None, None);
    assert_eq!(unnamed.name, "");
}

#[test]
fn wm_class_reports_both_identifiers() {
    let line = "WM_CLASS(STRING) = \"gnome-terminal-server\", \"Gnome-terminal\"";
    assert_eq!(
        window_instance_name(line),
        Some("gnome-terminal-server".to_string())
    );
    assert_eq!(window_class_name(line), Some("Gnome-terminal".to_string()));
    assert_eq!(window_class_name("WM_CLASS: not found"), None);
    assert_eq!(window_instance_name("no quotes here"), None);
    assert_eq!(window_class_name("\"one\" \"two"), None);
    assert_eq!(window_instance_name("\"one\" \"two"), Some("one".to_string()));
    assert_eq!(window_instance_name("empty \"\" quotes"), Some("".to_string()));
}

#[test]
fn tokens_of_tool_output() {
    assert_eq!(first_token("0x03a00007  0 host Terminal"), "0x03a00007");
    assert_eq!(first_token("   leading spaces"), "leading");
    assert_eq!(first_token(""), "");
    assert_eq!(first_token("   \t "), "");
    assert_eq!(
        last_token("_NET_ACTIVE_WINDOW(WINDOW): window id # 0x3a00007"),
        Some("0x3a00007".to_string())
    );
    assert_eq!(last_token("single"), Some("single".to_string()));
    assert_eq!(last_token("  \t "), None);
    assert_eq!(last_token(""), None);
}

#[test]
fn window_type_check_is_substring_search() {
    assert!(is_normal_window(
        "_NET_WM_WINDOW_TYPE(ATOM) = _NET_WM_WINDOW_TYPE_NORMAL"
    ));
    assert!(!is_normal_window(
        "_NET_WM_WINDOW_TYPE(ATOM) = _NET_WM_WINDOW_TYPE_DOCK"
    ));
}

#[test]
fn string_equality_and_search() {
    assert!(str_eq("abc", "abc"));
    assert!(!str_eq("abc", "abd"));
    assert!(!str_eq("abc", "ab"));
    assert!(str_eq("", ""));
    assert!(str_contains("hello world", "lo wo"));
    assert!(str_contains("hello world", "hello world"));
    assert!(!str_contains("hello", "world"));
    assert!(str_contains("abc", ""));
}
