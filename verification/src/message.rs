use vstd::prelude::*;
use crate::clock::{ts_millis_of, parse_rfc3339_millis};

verus! {

/// An absolute, timezone-aware point in time: the wire text that named it,
/// kept verbatim, and the instant it denotes in epoch milliseconds.
#[derive(Debug, Clone)]
pub struct Timestamp {
    pub raw: String,
    pub millis: i64,
}

/// The mathematical value of a [`Timestamp`].
pub struct TimestampView {
    pub raw: Seq<char>,
    pub millis: i64,
}

impl View for Timestamp {
    type V = TimestampView;

    open spec fn view(&self) -> TimestampView {
        TimestampView { raw: self.raw@, millis: self.millis }
    }
}

impl TimestampView {
    /// The instant recorded agrees with the text it was read from.
    pub open spec fn wf(self) -> bool {
        ts_millis_of(self.raw) == Some(self.millis)
    }
}

impl Timestamp {
    /// Reads timestamp text; `Some` exactly where the text denotes an
    /// absolute point in time.
    pub fn parse(s: &str) -> (r: Option<Timestamp>)
        ensures
            r.is_some() <==> ts_millis_of(s@).is_some(),
            r.is_some() ==> {
                &&& r.unwrap()@.raw == s@
                &&& Some(r.unwrap()@.millis) == ts_millis_of(s@)
                &&& r.unwrap()@.wf()
            },
    {
        match parse_rfc3339_millis(s) {
            Some(ms) => Some(Timestamp { raw: String::from_str(s), millis: ms }),
            None => None,
        }
    }

    /// The instant, in milliseconds since the Unix epoch.
    pub fn millis(&self) -> (r: i64)
        ensures
            r == self@.millis,
    {
        self.millis
    }

    /// The wire text the timestamp was read from.
    pub fn raw_text(&self) -> (r: &str)
        ensures
            r@ == self@.raw,
    {
        self.raw.as_str()
    }

    /// A copy of the timestamp.
    pub fn duplicate(&self) -> (r: Self)
        ensures
            r == *self,
    {
        Timestamp { raw: self.raw.clone(), millis: self.millis }
    }
}

/// A copy of an optional piece of text.
pub fn clone_opt_string(o: &Option<String>) -> (r: Option<String>)
    ensures
        r == *o,
{
    match o {
        None => None,
        Some(s) => Some(s.clone()),
    }
}

/// The nested payload of one conversation message. The `content` field is an
/// opaque structured value, held as its stable text encoding.
#[derive(Debug, Clone)]
pub struct MessageContent {
    pub role: Option<String>,
    pub content: Option<String>,
    pub id: Option<String>,
    pub content_type: Option<String>,
    pub model: Option<String>,
}

impl MessageContent {
    /// A copy of the payload.
    pub fn duplicate(&self) -> (r: Self)
        ensures
            r == *self,
    {
        MessageContent {
            role: clone_opt_string(&self.role),
            content: clone_opt_string(&self.content),
            id: clone_opt_string(&self.id),
            content_type: clone_opt_string(&self.content_type),
            model: clone_opt_string(&self.model),
        }
    }
}

/// The mathematical value of a [`MessageContent`].
pub struct MessageContentView {
    pub role: Option<Seq<char>>,
    pub content: Option<Seq<char>>,
    pub id: Option<Seq<char>>,
    pub content_type: Option<Seq<char>>,
    pub model: Option<Seq<char>>,
}

impl View for MessageContent {
    type V = MessageContentView;

    open spec fn view(&self) -> MessageContentView {
        MessageContentView {
            role: match self.role { Some(ref s) => Some(s@), None => None },
            content: match self.content { Some(ref s) => Some(s@), None => None },
            id: match self.id { Some(ref s) => Some(s@), None => None },
            content_type: match self.content_type { Some(ref s) => Some(s@), None => None },
            model: match self.model { Some(ref s) => Some(s@), None => None },
        }
    }
}

/// One decoded conversation message: a single line of the wire format.
#[derive(Debug, Clone)]
pub struct ClaudeMessage {
    pub parent_uuid: Option<String>,
    pub is_sidechain: bool,
    pub user_type: String,
    pub cwd: String,
    pub session_id: String,
    pub version: String,
    pub git_branch: Option<String>,
    pub message_type: String,
    pub message: MessageContent,
    pub uuid: String,
    pub timestamp: Timestamp,
}

impl ClaudeMessage {
    /// A copy of the message.
    pub fn duplicate(&self) -> (r: Self)
        ensures
            r == *self,
    {
        ClaudeMessage {
            parent_uuid: clone_opt_string(&self.parent_uuid),
            is_sidechain: self.is_sidechain,
            user_type: self.user_type.clone(),
            cwd: self.cwd.clone(),
            session_id: self.session_id.clone(),
            version: self.version.clone(),
            git_branch: clone_opt_string(&self.git_branch),
            message_type: self.message_type.clone(),
            message: self.message.duplicate(),
            uuid: self.uuid.clone(),
            timestamp: self.timestamp.duplicate(),
        }
    }
}

/// The mathematical value of a [`ClaudeMessage`].
pub struct ClaudeMessageView {
    pub parent_uuid: Option<Seq<char>>,
    pub is_sidechain: bool,
    pub user_type: Seq<char>,
    pub cwd: Seq<char>,
    pub session_id: Seq<char>,
    pub version: Seq<char>,
    pub git_branch: Option<Seq<char>>,
    pub message_type: Seq<char>,
    pub message: MessageContentView,
    pub uuid: Seq<char>,
    pub timestamp: TimestampView,
}

impl View for ClaudeMessage {
    type V = ClaudeMessageView;

    open spec fn view(&self) -> ClaudeMessageView {
        ClaudeMessageView {
            parent_uuid: match self.parent_uuid { Some(ref s) => Some(s@), None => None },
            is_sidechain: self.is_sidechain,
            user_type: self.user_type@,
            cwd: self.cwd@,
            session_id: self.session_id@,
            version: self.version@,
            git_branch: match self.git_branch { Some(ref s) => Some(s@), None => None },
            message_type: self.message_type@,
            message: self.message@,
            uuid: self.uuid@,
            timestamp: self.timestamp@,
        }
    }
}

} // verus!
