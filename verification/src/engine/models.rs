//! Records that the tracking engine writes.
use vstd::prelude::*;

verus! {

/// Timestamp of the engine's records
pub type Timestamp = u64;

/// Unique identity of an App, outside of the Database (on the FileSystem/Registry)
#[derive(Clone, Debug)]
pub enum AppIdentity {
    /// Win32 App, by its path
    Win32 { path: String },
    /// UWP App, by its AUMID
    UWP { aumid: String },
}

impl Default for AppIdentity {
    /// A Win32 identity with an empty path.
    fn default() -> (r: AppIdentity)
        ensures
            r matches AppIdentity::Win32 { path } && path@ == Seq::<char>::empty(),
    {
        AppIdentity::Win32 { path: String::new() }
    }
}

/// The `(identity_tag, identity_text0)` columns that store an identity.
pub open spec fn spec_destructure_identity(identity: AppIdentity) -> (u64, Seq<char>) {
    match identity {
        AppIdentity::Win32 { path } => (0, path@),
        AppIdentity::UWP { aumid } => (1, aumid@),
    }
}

/// The `(identity_tag, identity_text0)` columns that store an identity:
/// 0 and the path for Win32, 1 and the AUMID for UWP.
pub fn destructure_identity(identity: &AppIdentity) -> (r: (u64, &str))
    ensures
        (r.0, r.1@) == spec_destructure_identity(*identity),
{
    match identity {
        AppIdentity::Win32 { path } => (0, path.as_str()),
        AppIdentity::UWP { aumid } => (1, aumid.as_str()),
    }
}

/// An app, as the engine records it
#[derive(Clone, Debug)]
pub struct App {
    pub id: u64,
    pub name: String,
    pub description: String,
    pub company: String,
    pub color: Option<String>,
    /// Unique identity outside of the database
    pub identity: AppIdentity,
}

/// A session of an app's window
#[derive(Clone, Debug)]
pub struct Session {
    pub id: u64,
    /// The app of the session
    pub app: u64,
    /// Title of the window
    pub title: String,
    /// Command line of the window's process
    pub cmd_line: Option<String>,
}

/// Continuous usage in a session
#[derive(Clone, Copy, Debug, PartialEq, Eq, Structural)]
pub struct Usage {
    pub id: u64,
    pub session: u64,
    pub start: Timestamp,
    pub end: Timestamp,
}

/// A period of continuous interaction without idling
#[derive(Clone, Copy, Debug, PartialEq, Eq, Structural)]
pub struct InteractionPeriod {
    pub id: u64,
    pub start: Timestamp,
    pub end: Timestamp,
    pub mouseclicks: u64,
    pub keystrokes: u64,
}

} // verus!
