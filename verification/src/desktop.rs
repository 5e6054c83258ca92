use crate::record::App;
use crate::text::{extension_of, path_extension_is};
use vstd::prelude::*;

verus! {

/// Build one catalog record from the fields read out of a desktop-entry file:
/// the entry's own path, and the optional name, executable and icon values of
/// its main section. A missing name yields an empty display name.
pub fn desktop_entry_app(
    desktop_path: String,
    name: Option<String>,
    exec: Option<String>,
    icon: Option<String>,
) -> (r: App)
    ensures
        r.app_desktop_path == desktop_path,
        match name {
            Some(n) => r.name == n,
            None => r.name@ == Seq::<char>::empty(),
        },
        r.app_path_exe == exec,
        r.icon_path == icon,
{
    App {
        name: match name {
            Some(n) => n,
            None => String::new(),
        },
        icon_path: icon,
        app_path_exe: exec,
        app_desktop_path: desktop_path,
    }
}

/// Whether a path names a desktop-entry file: its file name carries exactly
/// the extension `desktop`.
pub fn is_desktop_file(path: &str) -> (r: bool)
    ensures
        r == (extension_of(path@) == Some("desktop"@)),
{
    path_extension_is(path, "desktop")
}

} // verus!
