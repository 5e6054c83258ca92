//! A registry of desktop applications: a cached catalog of discovered
//! applications, an identity matcher that reconciles raw OS-reported
//! identifiers (window classes, process names) with catalog entries, and
//! helpers that parse the textual output of the platform introspection
//! tools. Platform enumeration itself (filesystem walks, process calls)
//! lives outside this library; its results are handed in as plain values.

pub mod context;
pub mod desktop;
pub mod matcher;
pub mod record;
pub mod text;
pub mod wm;
