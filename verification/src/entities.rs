//! Entities stored in the usage database, and the integer / nullable-column
//! encodings that map them to and from table rows.
use vstd::prelude::*;

verus! {

/// Basic unique identifier - autoincremented integer
pub type Id = i64;

/// Color in hexadecimal format
pub type Color = String;

/// Timestamp as Windows ticks
pub type Timestamp = i64;

/// Duration as Windows ticks
pub type Duration = i64;

/// Unique identity of an App, outside of the Database (on the FileSystem/Registry)
#[derive(Clone, Debug)]
pub enum AppIdentity {
    /// UWP App, by its AUMID
    Uwp { aumid: String },
    /// Win32 App, by its path
    Win32 { path: String },
    /// Website, by its base URL
    Website { base_url: String },
}

/// The `identity_tag` column value of an identity.
pub open spec fn spec_identity_tag(identity: AppIdentity) -> i64 {
    match identity {
        AppIdentity::Uwp { .. } => 0,
        AppIdentity::Win32 { .. } => 1,
        AppIdentity::Website { .. } => 2,
    }
}

/// The `identity_text0` column value of an identity.
pub open spec fn spec_identity_text(identity: AppIdentity) -> Seq<char> {
    match identity {
        AppIdentity::Uwp { aumid } => aumid@,
        AppIdentity::Win32 { path } => path@,
        AppIdentity::Website { base_url } => base_url@,
    }
}

impl AppIdentity {
    /// Decodes the identity from the `identity_tag` and `identity_text0`
    /// columns of an app row: 0 is UWP, 1 is Win32, 2 is a Website.
    /// Any other tag is not a valid row.
    pub fn from_row(identity_tag: i64, identity_text0: String) -> (r: AppIdentity)
        requires
            0 <= identity_tag <= 2,
        ensures
            spec_identity_tag(r) == identity_tag,
            spec_identity_text(r) == identity_text0@,
    {
        if identity_tag == 0 {
            AppIdentity::Uwp { aumid: identity_text0 }
        } else if identity_tag == 1 {
            AppIdentity::Win32 { path: identity_text0 }
        } else {
            AppIdentity::Website { base_url: identity_text0 }
        }
    }

    /// The `identity_tag` column value of this identity.
    pub fn tag(&self) -> (r: i64)
        ensures
            r == spec_identity_tag(*self),
    {
        match self {
            AppIdentity::Uwp { .. } => 0,
            AppIdentity::Win32 { .. } => 1,
            AppIdentity::Website { .. } => 2,
        }
    }

    /// The `identity_text0` column value of this identity.
    pub fn text0(&self) -> (r: &String)
        ensures
            r@ == spec_identity_text(*self),
    {
        match self {
            AppIdentity::Uwp { aumid } => aumid,
            AppIdentity::Win32 { path } => path,
            AppIdentity::Website { base_url } => base_url,
        }
    }
}

impl Default for AppIdentity {
    /// A Win32 identity with an empty path.
    fn default() -> (r: AppIdentity)
        ensures
            r matches AppIdentity::Win32 { path } && path@ == Seq::<char>::empty(),
    {
        AppIdentity::Win32 { path: String::new() }
    }
}

/// Two identities are the same when they are of the same kind and hold the
/// same text.
pub open spec fn same_identity(a: AppIdentity, b: AppIdentity) -> bool {
    match (a, b) {
        (AppIdentity::Uwp { aumid: x }, AppIdentity::Uwp { aumid: y }) => x@ == y@,
        (AppIdentity::Win32 { path: x }, AppIdentity::Win32 { path: y }) => x@ == y@,
        (AppIdentity::Website { base_url: x }, AppIdentity::Website { base_url: y }) => x@ == y@,
        _ => false,
    }
}

/// The row encoding of identities is faithful: its tag is one that
/// `from_row` accepts, and two identities stored with the same tag and text
/// are the same identity. So decoding a stored identity gives it back.
pub proof fn law_identity_row_roundtrip(a: AppIdentity, b: AppIdentity)
    ensures
        0 <= spec_identity_tag(a) <= 2,
        (spec_identity_tag(a) == spec_identity_tag(b) && spec_identity_text(a)
            == spec_identity_text(b)) <==> same_identity(a, b),
{
}

/// Target of an Alert
#[derive(Clone, Copy, Debug, PartialEq, Eq, Structural)]
pub enum Target {
    /// App Target
    App { id: Id },
    /// Tag Target
    Tag { id: Id },
}

impl Target {
    /// Decodes the target from the nullable `app_id` and `tag_id` columns of
    /// an alert row: an alert with an `app_id` targets that app, otherwise it
    /// targets the tag in `tag_id` (0 when that column is NULL too).
    pub fn from_row(app_id: Option<Id>, tag_id: Option<Id>) -> (r: Target)
        ensures
            r == (match app_id {
                Some(id) => Target::App { id },
                None => Target::Tag { id: match tag_id { Some(t) => t, None => 0 } },
            }),
    {
        match app_id {
            Some(id) => Target::App { id },
            None => Target::Tag {
                id: match tag_id {
                    Some(t) => t,
                    None => 0,
                },
            },
        }
    }

    /// Splits the target into the `(app_id, tag_id)` columns of an alert row;
    /// exactly one of them is set.
    pub fn destructure(&self) -> (r: (Option<Id>, Option<Id>))
        ensures
            r == spec_destructure_target(*self),
    {
        match self {
            Target::App { id } => (Some(*id), None),
            Target::Tag { id } => (None, Some(*id)),
        }
    }
}

/// The `(app_id, tag_id)` columns that store a target.
pub open spec fn spec_destructure_target(t: Target) -> (Option<Id>, Option<Id>) {
    match t {
        Target::App { id } => (Some(id), None),
        Target::Tag { id } => (None, Some(id)),
    }
}

impl Default for Target {
    /// The app target with identifier 0.
    fn default() -> (r: Target)
        ensures
            r == (Target::App { id: 0 }),
    {
        Target::App { id: 0 }
    }
}

/// Decoding the columns that store a target gives the target back.
pub proof fn law_target_roundtrip(t: Target)
    ensures
        ({
            let (app_id, tag_id) = spec_destructure_target(t);
            match app_id {
                Some(id) => Target::App { id },
                None => Target::Tag { id: match tag_id { Some(x) => x, None => 0 } },
            }
        }) == t,
{
}

/// How long the monitoring duration should be for an Alert
#[derive(Clone, Copy, Debug, PartialEq, Eq, Structural)]
pub enum TimeFrame {
    /// Daily
    Daily,
    /// Weekly
    Weekly,
    /// Monthly
    Monthly,
}

/// The integer that stores a time frame in the `time_frame` column.
pub open spec fn spec_time_frame_code(t: TimeFrame) -> i64 {
    match t {
        TimeFrame::Daily => 0,
        TimeFrame::Weekly => 1,
        TimeFrame::Monthly => 2,
    }
}

impl TimeFrame {
    /// The integer stored in the `time_frame` column.
    pub fn code(&self) -> (r: i64)
        ensures
            r == spec_time_frame_code(*self),
    {
        match self {
            TimeFrame::Daily => 0,
            TimeFrame::Weekly => 1,
            TimeFrame::Monthly => 2,
        }
    }

    /// Decodes a `time_frame` column; `None` for an integer that no time
    /// frame is stored as.
    pub fn from_code(code: i64) -> (r: Option<TimeFrame>)
        ensures
            r matches Some(t) ==> spec_time_frame_code(t) == code,
            r is None <==> !(0 <= code <= 2),
    {
        if code == 0 {
            Some(TimeFrame::Daily)
        } else if code == 1 {
            Some(TimeFrame::Weekly)
        } else if code == 2 {
            Some(TimeFrame::Monthly)
        } else {
            None
        }
    }
}

/// Time frames are stored faithfully: each code is one that `from_code`
/// reads, and no two time frames share a code.
pub proof fn law_time_frame_code_roundtrip(a: TimeFrame, b: TimeFrame)
    ensures
        0 <= spec_time_frame_code(a) <= 2,
        spec_time_frame_code(a) == spec_time_frame_code(b) ==> a == b,
{
}

impl Default for TimeFrame {
    /// Daily
    fn default() -> (r: TimeFrame)
        ensures
            r == TimeFrame::Daily,
    {
        TimeFrame::Daily
    }
}

/// Action to take once the Alert's Usage Limit has been reached.
#[derive(Clone, Debug)]
pub enum TriggerAction {
    /// Kill the offending App / App in Tags
    Kill,
    /// Dim the windows of the offending App / App in Tags over a duration
    Dim { duration: Duration },
    /// Send a message to the user as a Toast notification
    Message { content: String },
}

/// The `(trigger_action_dim_duration, trigger_action_message_content,
/// trigger_action_tag)` columns that store a trigger action.
pub open spec fn spec_destructure_trigger_action(a: TriggerAction) -> (
    Option<Duration>,
    Option<Seq<char>>,
    i64,
) {
    match a {
        TriggerAction::Kill => (None, None, 0),
        TriggerAction::Dim { duration } => (Some(duration), None, 1),
        TriggerAction::Message { content } => (None, Some(content@), 2),
    }
}

/// The error when a row holds a `trigger_action_tag` that no action uses.
#[derive(Clone, Copy, Debug, PartialEq, Eq, Structural)]
pub struct UnknownTriggerActionTag {
    pub tag: i64,
}

impl TriggerAction {
    /// Decodes the trigger action from the `trigger_action_tag`,
    /// `trigger_action_dim_duration` and `trigger_action_message_content`
    /// columns of an alert row. A Dim action reads the duration column (0
    /// when NULL), a Message action reads the content column (empty when
    /// NULL); an unknown tag is a decode error.
    pub fn from_row(tag: i64, dim_duration: Option<Duration>, message_content: Option<String>) -> (r:
        Result<TriggerAction, UnknownTriggerActionTag>)
        ensures
            tag == 0 ==> r matches Ok(TriggerAction::Kill),
            tag == 1 ==> (r matches Ok(TriggerAction::Dim { duration }) && duration == (
            match dim_duration {
                Some(d) => d,
                None => 0,
            })),
            tag == 2 ==> (r matches Ok(TriggerAction::Message { content }) && content@ == (
            match message_content {
                Some(c) => c@,
                None => Seq::<char>::empty(),
            })),
            !(0 <= tag <= 2) ==> r == Err::<TriggerAction, UnknownTriggerActionTag>(
                UnknownTriggerActionTag { tag },
            ),
    {
        if tag == 0 {
            Ok(TriggerAction::Kill)
        } else if tag == 1 {
            Ok(TriggerAction::Dim {
                duration: match dim_duration {
                    Some(d) => d,
                    None => 0,
                },
            })
        } else if tag == 2 {
            Ok(TriggerAction::Message {
                content: match message_content {
                    Some(c) => c,
                    None => String::new(),
                },
            })
        } else {
            Err(UnknownTriggerActionTag { tag })
        }
    }

    /// Splits the action into the columns of an alert row.
    pub fn destructure(&self) -> (r: (Option<Duration>, Option<&str>, i64))
        ensures
            r.0 == spec_destructure_trigger_action(*self).0,
            r.2 == spec_destructure_trigger_action(*self).2,
            (r.1 is Some) == (spec_destructure_trigger_action(*self).1 is Some),
            r.1 matches Some(c) ==> c@ == spec_destructure_trigger_action(*self).1->0,
    {
        match self {
            TriggerAction::Kill => (None, None, 0),
            TriggerAction::Dim { duration } => (Some(*duration), None, 1),
            TriggerAction::Message { content } => (None, Some(content.as_str()), 2),
        }
    }
}

impl Default for TriggerAction {
    /// Kill
    fn default() -> (r: TriggerAction)
        ensures
            r matches TriggerAction::Kill,
    {
        TriggerAction::Kill
    }
}

/// The tag column of a stored trigger action is one that decoding accepts,
/// and the action's other column is the one the decoder reads back.
pub proof fn law_trigger_action_roundtrip(a: TriggerAction)
    ensures
        ({
            let (dur, content, tag) = spec_destructure_trigger_action(a);
            &&& 0 <= tag <= 2
            &&& (tag == 0) == (a is Kill)
            &&& (tag == 1) == (match a {
                TriggerAction::Dim { duration } => dur == Some(duration),
                _ => false,
            })
            &&& (tag == 2) == (match a {
                TriggerAction::Message { content: c } => content == Some(c@),
                _ => false,
            })
        }),
{
}

/// Reason for the AlertEvent/ReminderEvent
#[derive(Clone, Copy, Debug, PartialEq, Eq, Structural)]
pub enum Reason {
    /// The Alert/Reminder was triggered
    Hit,
    /// The Alert/Reminder was ignored
    Ignored,
}

/// The integer that stores the reason.
pub open spec fn spec_reason_code(r: Reason) -> i64 {
    match r {
        Reason::Hit => 0,
        Reason::Ignored => 1,
    }
}

impl Reason {
    /// The integer stored in the `reason` column: 0 for Hit, 1 for Ignored.
    pub fn code(&self) -> (r: i64)
        ensures
            r == spec_reason_code(*self),
    {
        match self {
            Reason::Hit => 0,
            Reason::Ignored => 1,
        }
    }

    /// The reason stored as the integer, if it is one.
    pub fn from_code(code: i64) -> (r: Option<Reason>)
        ensures
            r == (if code == 0 {
                Some(Reason::Hit)
            } else if code == 1 {
                Some(Reason::Ignored)
            } else {
                None
            }),
    {
        if code == 0 {
            Some(Reason::Hit)
        } else if code == 1 {
            Some(Reason::Ignored)
        } else {
            None
        }
    }
}

/// Reasons are stored faithfully: each code is one that `from_code` reads,
/// and no two reasons share a code.
pub proof fn law_reason_code_roundtrip(a: Reason, b: Reason)
    ensures
        0 <= spec_reason_code(a) <= 1,
        spec_reason_code(a) == spec_reason_code(b) ==> a == b,
{
}

impl Default for Reason {
    /// Hit
    fn default() -> (r: Reason)
        ensures
            r == Reason::Hit,
    {
        Reason::Hit
    }
}

/// An app that has run on the computer.
#[derive(Clone, Debug)]
pub struct App {
    pub id: Id,
    pub name: String,
    pub description: String,
    pub company: String,
    pub color: Color,
    /// Unique identity outside of the database
    pub identity: AppIdentity,
    /// Icon, in bytes
    pub icon: Option<Vec<u8>>,
    /// Linked Tag
    pub tag_id: Option<Id>,
    pub created_at: Timestamp,
    pub updated_at: Timestamp,
}

/// A named collection of apps with a focus score.
#[derive(Clone, Debug)]
pub struct Tag {
    pub id: Id,
    pub name: String,
    pub color: Color,
    /// Focus score of the tag's apps
    pub score: i64,
    pub created_at: Timestamp,
    pub updated_at: Timestamp,
}

/// Non-continuous session of App usage
#[derive(Clone, Debug)]
pub struct Session {
    pub id: Id,
    pub app_id: Id,
    /// Title of the session
    pub title: String,
    /// URL of the session, if the app is a browser
    pub url: Option<String>,
}

/// An event of the system (such as sleep or lock)
#[derive(Clone, Copy, Debug, PartialEq, Eq, Structural)]
pub struct SystemEvent {
    pub id: Id,
    pub timestamp: Timestamp,
    /// Kind of event
    pub event: i64,
}

/// An instance of an Alert triggering.
#[derive(Clone, Copy, Debug, PartialEq, Eq, Structural)]
pub struct AlertEvent {
    pub id: Id,
    pub alert_id: Id,
    pub timestamp: Timestamp,
    pub reason: Reason,
}

/// An instance of a Reminder triggering.
#[derive(Clone, Copy, Debug, PartialEq, Eq, Structural)]
pub struct ReminderEvent {
    pub id: Id,
    pub reminder_id: Id,
    pub timestamp: Timestamp,
    pub reason: Reason,
}

/// Continuous usage of an App in a Session
#[derive(Clone, Copy, Debug, PartialEq, Eq, Structural)]
pub struct Usage {
    pub id: Id,
    pub session_id: Id,
    pub start: Timestamp,
    pub end: Timestamp,
}

/// A period of continuous usage without idling
#[derive(Clone, Copy, Debug, PartialEq, Eq, Structural)]
pub struct InteractionPeriod {
    pub id: Id,
    pub start: Timestamp,
    pub end: Timestamp,
    pub mouse_clicks: i64,
    pub key_strokes: i64,
}

} // verus!
