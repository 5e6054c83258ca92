use vstd::prelude::*;

verus! {

/// One discovered application: the normalized, immutable description that the
/// catalog stores. Paths are held as plain strings; `app_desktop_path` is the
/// artifact the record was derived from (a desktop-entry file) and serves as a
/// fallback identity key.
#[derive(Debug, PartialEq)]
pub struct App {
    pub name: String,
    pub icon_path: Option<String>,
    pub app_path_exe: Option<String>,
    pub app_desktop_path: String,
}

impl Clone for App {
    fn clone(&self) -> (r: Self)
        ensures
            r == *self,
    {
        App {
            name: self.name.clone(),
            icon_path: match &self.icon_path {
                Some(p) => Some(p.clone()),
                None => None,
            },
            app_path_exe: match &self.app_path_exe {
                Some(p) => Some(p.clone()),
                None => None,
            },
            app_desktop_path: self.app_desktop_path.clone(),
        }
    }
}

/// The installed- or running-application discovery primitive failed.
#[derive(Debug)]
pub struct EnumerationError {
    pub message: String,
}

/// A raw OS-reported identifier could not be resolved against the catalog.
#[derive(Debug, PartialEq)]
pub struct NoMatchError {}

} // verus!
