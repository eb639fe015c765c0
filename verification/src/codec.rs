use vstd::prelude::*;
use crate::json_text::{
    esc_seq, lemma_esc_seq_push, parse_string_at, parse_string_exec, raw_scan, skip_ws_spec,
    valid_raw,
};
use crate::message::{
    ClaudeMessage, ClaudeMessageView, MessageContent, MessageContentView, TimestampView,
};
use crate::clock::ts_millis_of;

verus! {

// ---------------------------------------------------------------------------
// Partial field collections, filled while the members of an object are read.
// ---------------------------------------------------------------------------

/// The payload fields seen so far. The outer `Option` records whether the
/// member occurred at all; the inner one whether it held `null` or text.
pub struct MsgAcc {
    pub role: Option<Option<String>>,
    pub content: Option<Option<String>>,
    pub id: Option<Option<String>>,
    pub content_type: Option<Option<String>>,
    pub model: Option<Option<String>>,
}

pub struct MsgAccView {
    pub role: Option<Option<Seq<char>>>,
    pub content: Option<Option<Seq<char>>>,
    pub id: Option<Option<Seq<char>>>,
    pub content_type: Option<Option<Seq<char>>>,
    pub model: Option<Option<Seq<char>>>,
}

pub open spec fn view_oos(o: Option<Option<String>>) -> Option<Option<Seq<char>>> {
    match o {
        None => None,
        Some(None) => Some(None),
        Some(Some(ref s)) => Some(Some(s@)),
    }
}

impl View for MsgAcc {
    type V = MsgAccView;

    open spec fn view(&self) -> MsgAccView {
        MsgAccView {
            role: view_oos(self.role),
            content: view_oos(self.content),
            id: view_oos(self.id),
            content_type: view_oos(self.content_type),
            model: view_oos(self.model),
        }
    }
}

impl MsgAccView {
    pub open spec fn empty() -> MsgAccView {
        MsgAccView { role: None, content: None, id: None, content_type: None, model: None }
    }

    /// Unseen members default to absent.
    pub open spec fn finish(self) -> MessageContentView {
        MessageContentView {
            role: flatten_seen(self.role),
            content: flatten_seen(self.content),
            id: flatten_seen(self.id),
            content_type: flatten_seen(self.content_type),
            model: flatten_seen(self.model),
        }
    }
}

pub open spec fn flatten_seen(o: Option<Option<Seq<char>>>) -> Option<Seq<char>> {
    match o {
        None => None,
        Some(x) => x,
    }
}

/// The top-level fields seen so far.
pub struct TopAcc {
    pub parent_uuid: Option<Option<String>>,
    pub is_sidechain: Option<bool>,
    pub user_type: Option<String>,
    pub cwd: Option<String>,
    pub session_id: Option<String>,
    pub version: Option<String>,
    pub git_branch: Option<Option<String>>,
    pub message_type: Option<String>,
    pub message: Option<MessageContent>,
    pub uuid: Option<String>,
    pub timestamp: Option<String>,
}

pub struct TopAccView {
    pub parent_uuid: Option<Option<Seq<char>>>,
    pub is_sidechain: Option<bool>,
    pub user_type: Option<Seq<char>>,
    pub cwd: Option<Seq<char>>,
    pub session_id: Option<Seq<char>>,
    pub version: Option<Seq<char>>,
    pub git_branch: Option<Option<Seq<char>>>,
    pub message_type: Option<Seq<char>>,
    pub message: Option<MessageContentView>,
    pub uuid: Option<Seq<char>>,
    pub timestamp: Option<Seq<char>>,
}

pub open spec fn view_os(o: Option<String>) -> Option<Seq<char>> {
    match o {
        None => None,
        Some(ref s) => Some(s@),
    }
}

impl View for TopAcc {
    type V = TopAccView;

    open spec fn view(&self) -> TopAccView {
        TopAccView {
            parent_uuid: view_oos(self.parent_uuid),
            is_sidechain: self.is_sidechain,
            user_type: view_os(self.user_type),
            cwd: view_os(self.cwd),
            session_id: view_os(self.session_id),
            version: view_os(self.version),
            git_branch: view_oos(self.git_branch),
            message_type: view_os(self.message_type),
            message: match self.message {
                None => None,
                Some(ref m) => Some(m@),
            },
            uuid: view_os(self.uuid),
            timestamp: view_os(self.timestamp),
        }
    }
}

impl TopAccView {
    pub open spec fn empty() -> TopAccView {
        TopAccView {
            parent_uuid: None,
            is_sidechain: None,
            user_type: None,
            cwd: None,
            session_id: None,
            version: None,
            git_branch: None,
            message_type: None,
            message: None,
            uuid: None,
            timestamp: None,
        }
    }
}

// ---------------------------------------------------------------------------
// Value grammar.
// ---------------------------------------------------------------------------

/// Whether the literal `lit` stands verbatim at position `i`.
pub open spec fn lit_at(s: Seq<char>, i: int, lit: Seq<char>) -> bool {
    0 <= i && i + lit.len() <= s.len() && s.subrange(i, i + lit.len()) == lit
}

/// A string or the literal `null`.
pub open spec fn parse_opt_string(s: Seq<char>, i: int) -> Option<(Option<Seq<char>>, int)> {
    if lit_at(s, i, "null"@) {
        Some((None, i + 4))
    } else {
        match parse_string_at(s, i) {
            None => None,
            Some((v, j)) => Some((Some(v), j)),
        }
    }
}

/// The literal `true` or `false`.
pub open spec fn parse_bool(s: Seq<char>, i: int) -> Option<(bool, int)> {
    if lit_at(s, i, "true"@) {
        Some((true, i + 4))
    } else if lit_at(s, i, "false"@) {
        Some((false, i + 5))
    } else {
        None
    }
}

/// An arbitrary value, captured as its raw text, or the literal `null`.
pub open spec fn parse_opt_raw(s: Seq<char>, i: int) -> Option<(Option<Seq<char>>, int)> {
    if lit_at(s, i, "null"@) {
        Some((None, i + 4))
    } else {
        match raw_scan(s, i) {
            None => None,
            Some(j) => Some((Some(s.subrange(i, j)), j)),
        }
    }
}

// ---------------------------------------------------------------------------
// The nested payload object.
// ---------------------------------------------------------------------------

/// Dispatches one member of the payload object on its key. A key seen twice
/// refuses the line; an unknown key has its value skipped.
pub open spec fn parse_msg_member_value(s: Seq<char>, i: int, key: Seq<char>, acc: MsgAccView)
    -> Option<(MsgAccView, int)>
{
    if key == "role"@ {
        if acc.role.is_some() {
            None
        } else {
            match parse_opt_string(s, i) {
                None => None,
                Some((v, j)) => Some((MsgAccView { role: Some(v), ..acc }, j)),
            }
        }
    } else if key == "content"@ {
        if acc.content.is_some() {
            None
        } else {
            match parse_opt_raw(s, i) {
                None => None,
                Some((v, j)) => Some((MsgAccView { content: Some(v), ..acc }, j)),
            }
        }
    } else if key == "id"@ {
        if acc.id.is_some() {
            None
        } else {
            match parse_opt_string(s, i) {
                None => None,
                Some((v, j)) => Some((MsgAccView { id: Some(v), ..acc }, j)),
            }
        }
    } else if key == "type"@ {
        if acc.content_type.is_some() {
            None
        } else {
            match parse_opt_string(s, i) {
                None => None,
                Some((v, j)) => Some((MsgAccView { content_type: Some(v), ..acc }, j)),
            }
        }
    } else if key == "model"@ {
        if acc.model.is_some() {
            None
        } else {
            match parse_opt_string(s, i) {
                None => None,
                Some((v, j)) => Some((MsgAccView { model: Some(v), ..acc }, j)),
            }
        }
    } else {
        match raw_scan(s, i) {
            None => None,
            Some(j) => Some((acc, j)),
        }
    }
}

/// Reads the members of the payload object from the start of one member
/// to the closing brace.
pub open spec fn parse_msg_members(s: Seq<char>, i: int, acc: MsgAccView) -> Option<
    (MsgAccView, int),
>
    decreases s.len() - i when 0 <= i <= s.len()
{
    let i1 = skip_ws_spec(s, i);
    match parse_string_at(s, i1) {
        None => None,
        Some((key, j1)) => {
            let j2 = skip_ws_spec(s, j1);
            if !(0 <= j2 < s.len() && s[j2] == ':') {
                None
            } else {
                let j3 = skip_ws_spec(s, j2 + 1);
                match parse_msg_member_value(s, j3, key, acc) {
                    None => None,
                    Some((acc2, j4)) => {
                        let j5 = skip_ws_spec(s, j4);
                        if 0 <= j5 < s.len() && s[j5] == ',' {
                            if i < j5 + 1 <= s.len() {
                                parse_msg_members(s, j5 + 1, acc2)
                            } else {
                                None
                            }
                        } else if 0 <= j5 < s.len() && s[j5] == '}' {
                            Some((acc2, j5 + 1))
                        } else {
                            None
                        }
                    },
                }
            }
        },
    }
}

/// Reads the payload object whose opening brace stands at `i`.
pub open spec fn parse_msg_object(s: Seq<char>, i: int) -> Option<(MessageContentView, int)> {
    if !(0 <= i < s.len() && s[i] == '{') {
        None
    } else {
        let i1 = skip_ws_spec(s, i + 1);
        if 0 <= i1 < s.len() && s[i1] == '}' {
            Some((MsgAccView::empty().finish(), i1 + 1))
        } else {
            match parse_msg_members(s, i1, MsgAccView::empty()) {
                None => None,
                Some((acc, j)) => Some((acc.finish(), j)),
            }
        }
    }
}

// ---------------------------------------------------------------------------
// The top-level object.
// ---------------------------------------------------------------------------

/// Dispatches one top-level member on its key.
pub open spec fn parse_top_member_value(s: Seq<char>, i: int, key: Seq<char>, acc: TopAccView)
    -> Option<(TopAccView, int)>
{
    if key == "parentUuid"@ {
        if acc.parent_uuid.is_some() {
            None
        } else {
            match parse_opt_string(s, i) {
                None => None,
                Some((v, j)) => Some((TopAccView { parent_uuid: Some(v), ..acc }, j)),
            }
        }
    } else if key == "isSidechain"@ {
        if acc.is_sidechain.is_some() {
            None
        } else {
            match parse_bool(s, i) {
                None => None,
                Some((v, j)) => Some((TopAccView { is_sidechain: Some(v), ..acc }, j)),
            }
        }
    } else if key == "userType"@ {
        if acc.user_type.is_some() {
            None
        } else {
            match parse_string_at(s, i) {
                None => None,
                Some((v, j)) => Some((TopAccView { user_type: Some(v), ..acc }, j)),
            }
        }
    } else if key == "cwd"@ {
        if acc.cwd.is_some() {
            None
        } else {
            match parse_string_at(s, i) {
                None => None,
                Some((v, j)) => Some((TopAccView { cwd: Some(v), ..acc }, j)),
            }
        }
    } else if key == "sessionId"@ {
        if acc.session_id.is_some() {
            None
        } else {
            match parse_string_at(s, i) {
                None => None,
                Some((v, j)) => Some((TopAccView { session_id: Some(v), ..acc }, j)),
            }
        }
    } else if key == "version"@ {
        if acc.version.is_some() {
            None
        } else {
            match parse_string_at(s, i) {
                None => None,
                Some((v, j)) => Some((TopAccView { version: Some(v), ..acc }, j)),
            }
        }
    } else if key == "gitBranch"@ {
        if acc.git_branch.is_some() {
            None
        } else {
            match parse_opt_string(s, i) {
                None => None,
                Some((v, j)) => Some((TopAccView { git_branch: Some(v), ..acc }, j)),
            }
        }
    } else if key == "type"@ {
        if acc.message_type.is_some() {
            None
        } else {
            match parse_string_at(s, i) {
                None => None,
                Some((v, j)) => Some((TopAccView { message_type: Some(v), ..acc }, j)),
            }
        }
    } else if key == "message"@ {
        if acc.message.is_some() {
            None
        } else {
            match parse_msg_object(s, i) {
                None => None,
                Some((v, j)) => Some((TopAccView { message: Some(v), ..acc }, j)),
            }
        }
    } else if key == "uuid"@ {
        if acc.uuid.is_some() {
            None
        } else {
            match parse_string_at(s, i) {
                None => None,
                Some((v, j)) => Some((TopAccView { uuid: Some(v), ..acc }, j)),
            }
        }
    } else if key == "timestamp"@ {
        if acc.timestamp.is_some() {
            None
        } else {
            match parse_string_at(s, i) {
                None => None,
                Some((v, j)) => Some((TopAccView { timestamp: Some(v), ..acc }, j)),
            }
        }
    } else {
        match raw_scan(s, i) {
            None => None,
            Some(j) => Some((acc, j)),
        }
    }
}

/// Reads the members of the top-level object from the start of one member to
/// the closing brace.
pub open spec fn parse_top_members(s: Seq<char>, i: int, acc: TopAccView) -> Option<
    (TopAccView, int),
>
    decreases s.len() - i when 0 <= i <= s.len()
{
    let i1 = skip_ws_spec(s, i);
    match parse_string_at(s, i1) {
        None => None,
        Some((key, j1)) => {
            let j2 = skip_ws_spec(s, j1);
            if !(0 <= j2 < s.len() && s[j2] == ':') {
                None
            } else {
                let j3 = skip_ws_spec(s, j2 + 1);
                match parse_top_member_value(s, j3, key, acc) {
                    None => None,
                    Some((acc2, j4)) => {
                        let j5 = skip_ws_spec(s, j4);
                        if 0 <= j5 < s.len() && s[j5] == ',' {
                            if i < j5 + 1 <= s.len() {
                                parse_top_members(s, j5 + 1, acc2)
                            } else {
                                None
                            }
                        } else if 0 <= j5 < s.len() && s[j5] == '}' {
                            Some((acc2, j5 + 1))
                        } else {
                            None
                        }
                    },
                }
            }
        },
    }
}

/// Whether every required field occurred.
pub open spec fn required_present(acc: TopAccView) -> bool {
    acc.is_sidechain.is_some() && acc.user_type.is_some() && acc.cwd.is_some()
        && acc.session_id.is_some() && acc.version.is_some() && acc.message_type.is_some()
        && acc.message.is_some() && acc.uuid.is_some() && acc.timestamp.is_some()
}

/// Builds the message from the collected fields. Required fields must all be
/// present and the timestamp text must denote an instant.
pub open spec fn assemble(acc: TopAccView) -> Option<ClaudeMessageView> {
    if required_present(acc) {
        match ts_millis_of(acc.timestamp.unwrap()) {
            None => None,
            Some(ms) => Some(
                ClaudeMessageView {
                    parent_uuid: flatten_seen(acc.parent_uuid),
                    is_sidechain: acc.is_sidechain.unwrap(),
                    user_type: acc.user_type.unwrap(),
                    cwd: acc.cwd.unwrap(),
                    session_id: acc.session_id.unwrap(),
                    version: acc.version.unwrap(),
                    git_branch: flatten_seen(acc.git_branch),
                    message_type: acc.message_type.unwrap(),
                    message: acc.message.unwrap(),
                    uuid: acc.uuid.unwrap(),
                    timestamp: TimestampView { raw: acc.timestamp.unwrap(), millis: ms },
                },
            ),
        }
    } else {
        None
    }
}

/// Why a refused line is refused: a structural fault, a required field
/// absent, or a timestamp that denotes no instant.
pub open spec fn decode_failure_kind(s: Seq<char>) -> crate::errors::DecodeErrorKind {
    let i0 = skip_ws_spec(s, 0);
    if !(0 <= i0 < s.len() && s[i0] == '{') {
        crate::errors::DecodeErrorKind::Syntax
    } else {
        let i1 = skip_ws_spec(s, i0 + 1);
        let parsed = if 0 <= i1 < s.len() && s[i1] == '}' {
            Some((TopAccView::empty(), i1 + 1))
        } else {
            parse_top_members(s, i1, TopAccView::empty())
        };
        match parsed {
            None => crate::errors::DecodeErrorKind::Syntax,
            Some((acc, j)) => {
                if skip_ws_spec(s, j) != s.len() {
                    crate::errors::DecodeErrorKind::Syntax
                } else if !required_present(acc) {
                    crate::errors::DecodeErrorKind::MissingField
                } else {
                    crate::errors::DecodeErrorKind::BadTimestamp
                }
            },
        }
    }
}

/// What one line of wire text decodes to, if anything.
pub open spec fn decode_line_spec(s: Seq<char>) -> Option<ClaudeMessageView> {
    let i0 = skip_ws_spec(s, 0);
    if !(0 <= i0 < s.len() && s[i0] == '{') {
        None
    } else {
        let i1 = skip_ws_spec(s, i0 + 1);
        let parsed = if 0 <= i1 < s.len() && s[i1] == '}' {
            Some((TopAccView::empty(), i1 + 1))
        } else {
            parse_top_members(s, i1, TopAccView::empty())
        };
        match parsed {
            None => None,
            Some((acc, j)) => {
                if skip_ws_spec(s, j) == s.len() {
                    assemble(acc)
                } else {
                    None
                }
            },
        }
    }
}

// ---------------------------------------------------------------------------
// Encoding.
// ---------------------------------------------------------------------------

/// A quoted, escaped string.
pub open spec fn enc_str(s: Seq<char>) -> Seq<char> {
    seq!['"'] + esc_seq(s) + seq!['"']
}

/// A quoted string or the literal `null`.
pub open spec fn enc_opt_str(o: Option<Seq<char>>) -> Seq<char> {
    match o {
        None => "null"@,
        Some(s) => enc_str(s),
    }
}

/// A raw payload verbatim, or the literal `null`.
pub open spec fn enc_opt_raw(o: Option<Seq<char>>) -> Seq<char> {
    match o {
        None => "null"@,
        Some(r) => r,
    }
}

pub open spec fn enc_bool(b: bool) -> Seq<char> {
    if b {
        "true"@
    } else {
        "false"@
    }
}

/// The wire form of the payload object.
pub open spec fn enc_msg(m: MessageContentView) -> Seq<char> {
    "{\"role\":"@ + enc_opt_str(m.role) + ",\"content\":"@ + enc_opt_raw(m.content) + ",\"id\":"@
        + enc_opt_str(m.id) + ",\"type\":"@ + enc_opt_str(m.content_type) + ",\"model\":"@
        + enc_opt_str(m.model) + "}"@
}

/// The first half of the wire form, through the version field.
pub open spec fn enc_head_a(m: ClaudeMessageView) -> Seq<char> {
    "{\"parentUuid\":"@ + enc_opt_str(m.parent_uuid) + ",\"isSidechain\":"@ + enc_bool(
        m.is_sidechain,
    ) + ",\"userType\":"@ + enc_str(m.user_type) + ",\"cwd\":"@ + enc_str(m.cwd)
        + ",\"sessionId\":"@ + enc_str(m.session_id) + ",\"version\":"@ + enc_str(m.version)
}

/// The second half of the head, up to the payload member's key.
pub open spec fn enc_head_b(m: ClaudeMessageView) -> Seq<char> {
    ",\"gitBranch\":"@ + enc_opt_str(m.git_branch) + ",\"type\":"@ + enc_str(m.message_type)
        + ",\"message\":"@
}

/// The closing members after the payload.
pub open spec fn enc_tail(m: ClaudeMessageView) -> Seq<char> {
    ",\"uuid\":"@ + enc_str(m.uuid) + ",\"timestamp\":"@ + enc_str(m.timestamp.raw) + "}"@
}

/// The wire form of a whole message: one line, fields in wire order.
pub open spec fn encode_line_spec(m: ClaudeMessageView) -> Seq<char> {
    enc_head_a(m) + enc_head_b(m) + enc_msg(m.message) + enc_tail(m)
}

impl ClaudeMessageView {
    /// A message whose timestamp agrees with its text and whose opaque
    /// payload, if any, is a stand-alone raw value.
    pub open spec fn wf(self) -> bool {
        &&& self.timestamp.wf()
        &&& match self.message.content {
            None => true,
            Some(r) => valid_raw(r),
        }
    }
}

// ---------------------------------------------------------------------------
// The executable decoder.
// ---------------------------------------------------------------------------

/// Reads the literal verbatim at position `i`; returns the position just
/// past it.
pub fn lit_at_exec(v: &Vec<char>, i: usize, lit: &str) -> (r: Option<usize>)
    requires
        i <= v@.len(),
    ensures
        r.is_some() <==> lit_at(v@, i as int, lit@),
        r.is_some() ==> r.unwrap() == i + lit@.len() && i + lit@.len() <= v@.len(),
{
    let vlen = v.len();
    let n = lit.unicode_len();
    if vlen - i < n {
        return None;
    }
    let mut k: usize = 0;
    while k < n
        invariant
            i + n <= vlen,
            vlen == v@.len(),
            n == lit@.len(),
            k <= n,
            forall|t: int| 0 <= t < k ==> v@[i + t] == lit@[t],
        decreases n - k,
    {
        if v[i + k] != lit.get_char(k) {
            proof {
                let sub = v@.subrange(i as int, i + n as int);
                assert(sub[k as int] == v@[i + k]);
                assert(sub != lit@);
            }
            return None;
        }
        k = k + 1;
    }
    proof {
        assert(v@.subrange(i as int, i + n as int) =~= lit@);
    }
    Some(i + n)
}

/// Whether the key text equals the literal.
pub fn key_is(key: &String, lit: &str) -> (r: bool)
    ensures
        r == (key@ == lit@),
{
    key.eq(&String::from_str(lit))
}

/// A string or the literal `null`.
fn parse_opt_string_exec(v: &Vec<char>, i: usize) -> (r: Option<(Option<String>, usize)>)
    requires
        i <= v@.len(),
    ensures
        r.is_some() <==> parse_opt_string(v@, i as int).is_some(),
        r.is_some() ==> {
            let (o, j) = r.unwrap();
            parse_opt_string(v@, i as int) == Some((view_os(o), j as int))
        },
        r.is_some() ==> i < r.unwrap().1 <= v@.len(),
{
    proof {
        reveal_strlit("null");
    }
    match lit_at_exec(v, i, "null") {
        Some(j) => Some((None, j)),
        None => {
            match parse_string_exec(v, i) {
                None => None,
                Some((s, j)) => Some((Some(s), j)),
            }
        },
    }
}

/// The literal `true` or `false`.
fn parse_bool_exec(v: &Vec<char>, i: usize) -> (r: Option<(bool, usize)>)
    requires
        i <= v@.len(),
    ensures
        r.is_some() <==> parse_bool(v@, i as int).is_some(),
        r.is_some() ==> parse_bool(v@, i as int) == Some((r.unwrap().0, r.unwrap().1 as int)),
        r.is_some() ==> i < r.unwrap().1 <= v@.len(),
{
    proof {
        reveal_strlit("true");
        reveal_strlit("false");
    }
    match lit_at_exec(v, i, "true") {
        Some(j) => Some((true, j)),
        None => {
            match lit_at_exec(v, i, "false") {
                Some(j) => Some((false, j)),
                None => None,
            }
        },
    }
}

/// An arbitrary value captured as raw text, or the literal `null`.
fn parse_opt_raw_exec(v: &Vec<char>, i: usize) -> (r: Option<(Option<String>, usize)>)
    requires
        i <= v@.len(),
    ensures
        r.is_some() <==> parse_opt_raw(v@, i as int).is_some(),
        r.is_some() ==> {
            let (o, j) = r.unwrap();
            parse_opt_raw(v@, i as int) == Some((view_os(o), j as int))
        },
        r.is_some() ==> i < r.unwrap().1 <= v@.len(),
{
    proof {
        reveal_strlit("null");
    }
    match lit_at_exec(v, i, "null") {
        Some(j) => Some((None, j)),
        None => {
            match crate::json_text::raw_scan_exec(v, i) {
                None => None,
                Some(j) => {
                    let raw = crate::json_text::chars_to_string(v, i, j);
                    Some((Some(raw), j))
                },
            }
        },
    }
}

fn msg_acc_finish(acc: MsgAcc) -> (r: MessageContent)
    ensures
        r@ == acc@.finish(),
{
    MessageContent {
        role: match acc.role {
            None => None,
            Some(x) => x,
        },
        content: match acc.content {
            None => None,
            Some(x) => x,
        },
        id: match acc.id {
            None => None,
            Some(x) => x,
        },
        content_type: match acc.content_type {
            None => None,
            Some(x) => x,
        },
        model: match acc.model {
            None => None,
            Some(x) => x,
        },
    }
}

/// Dispatches one member of the payload object on its key.
fn parse_msg_member_value_exec(v: &Vec<char>, i: usize, key: &String, acc: MsgAcc) -> (r: Option<
    (MsgAcc, usize),
>)
    requires
        i <= v@.len(),
    ensures
        r.is_some() <==> parse_msg_member_value(v@, i as int, key@, acc@).is_some(),
        r.is_some() ==> parse_msg_member_value(v@, i as int, key@, acc@) == Some(
            (r.unwrap().0@, r.unwrap().1 as int),
        ),
        r.is_some() ==> i < r.unwrap().1 <= v@.len(),
{
    if key_is(key, "role") {
        if acc.role.is_some() {
            None
        } else {
            match parse_opt_string_exec(v, i) {
                None => None,
                Some((val, j)) => Some((MsgAcc { role: Some(val), ..acc }, j)),
            }
        }
    } else if key_is(key, "content") {
        if acc.content.is_some() {
            None
        } else {
            match parse_opt_raw_exec(v, i) {
                None => None,
                Some((val, j)) => Some((MsgAcc { content: Some(val), ..acc }, j)),
            }
        }
    } else if key_is(key, "id") {
        if acc.id.is_some() {
            None
        } else {
            match parse_opt_string_exec(v, i) {
                None => None,
                Some((val, j)) => Some((MsgAcc { id: Some(val), ..acc }, j)),
            }
        }
    } else if key_is(key, "type") {
        if acc.content_type.is_some() {
            None
        } else {
            match parse_opt_string_exec(v, i) {
                None => None,
                Some((val, j)) => Some((MsgAcc { content_type: Some(val), ..acc }, j)),
            }
        }
    } else if key_is(key, "model") {
        if acc.model.is_some() {
            None
        } else {
            match parse_opt_string_exec(v, i) {
                None => None,
                Some((val, j)) => Some((MsgAcc { model: Some(val), ..acc }, j)),
            }
        }
    } else {
        match crate::json_text::raw_scan_exec(v, i) {
            None => None,
            Some(j) => Some((acc, j)),
        }
    }
}

/// Reads the members of the payload object.
fn parse_msg_members_exec(v: &Vec<char>, i: usize, acc0: MsgAcc) -> (r: Option<(MsgAcc, usize)>)
    requires
        i <= v@.len(),
    ensures
        r.is_some() <==> parse_msg_members(v@, i as int, acc0@).is_some(),
        r.is_some() ==> parse_msg_members(v@, i as int, acc0@) == Some(
            (r.unwrap().0@, r.unwrap().1 as int),
        ),
        r.is_some() ==> i < r.unwrap().1 <= v@.len(),
{
    let mut cur: usize = i;
    let mut acc = acc0;
    loop
        invariant
            i <= cur <= v@.len(),
            parse_msg_members(v@, i as int, acc0@) == parse_msg_members(v@, cur as int, acc@),
        decreases v@.len() - cur,
    {
        let i1 = crate::json_text::skip_ws(v, cur);
        let key_res = parse_string_exec(v, i1);
        match key_res {
            None => {
                return None;
            },
            Some((key, j1)) => {
                let j2 = crate::json_text::skip_ws(v, j1);
                if !(j2 < v.len() && v[j2] == ':') {
                    return None;
                }
                let j3 = crate::json_text::skip_ws(v, j2 + 1);
                match parse_msg_member_value_exec(v, j3, &key, acc) {
                    None => {
                        return None;
                    },
                    Some((acc2, j4)) => {
                        let j5 = crate::json_text::skip_ws(v, j4);
                        if j5 < v.len() && v[j5] == ',' {
                            acc = acc2;
                            cur = j5 + 1;
                        } else if j5 < v.len() && v[j5] == '}' {
                            return Some((acc2, j5 + 1));
                        } else {
                            return None;
                        }
                    },
                }
            },
        }
    }
}

/// Reads the payload object whose opening brace stands at `i`.
fn parse_msg_object_exec(v: &Vec<char>, i: usize) -> (r: Option<(MessageContent, usize)>)
    requires
        i <= v@.len(),
    ensures
        r.is_some() <==> parse_msg_object(v@, i as int).is_some(),
        r.is_some() ==> parse_msg_object(v@, i as int) == Some(
            (r.unwrap().0@, r.unwrap().1 as int),
        ),
        r.is_some() ==> i < r.unwrap().1 <= v@.len(),
{
    if !(i < v.len() && v[i] == '{') {
        return None;
    }
    let i1 = crate::json_text::skip_ws(v, i + 1);
    let empty_acc = MsgAcc { role: None, content: None, id: None, content_type: None, model: None };
    proof {
        assert(empty_acc@ == MsgAccView::empty());
    }
    if i1 < v.len() && v[i1] == '}' {
        Some((msg_acc_finish(empty_acc), i1 + 1))
    } else {
        match parse_msg_members_exec(v, i1, empty_acc) {
            None => None,
            Some((acc, j)) => Some((msg_acc_finish(acc), j)),
        }
    }
}

/// Reads the members of the top-level object.
fn parse_top_members_exec(v: &Vec<char>, i: usize, acc0: TopAcc) -> (r: Option<(TopAcc, usize)>)
    requires
        i <= v@.len(),
    ensures
        r.is_some() <==> parse_top_members(v@, i as int, acc0@).is_some(),
        r.is_some() ==> parse_top_members(v@, i as int, acc0@) == Some(
            (r.unwrap().0@, r.unwrap().1 as int),
        ),
        r.is_some() ==> i < r.unwrap().1 <= v@.len(),
{
    let mut cur: usize = i;
    let mut acc = acc0;
    loop
        invariant
            i <= cur <= v@.len(),
            parse_top_members(v@, i as int, acc0@) == parse_top_members(v@, cur as int, acc@),
        decreases v@.len() - cur,
    {
        let i1 = crate::json_text::skip_ws(v, cur);
        let key_res = parse_string_exec(v, i1);
        match key_res {
            None => {
                return None;
            },
            Some((key, j1)) => {
                let j2 = crate::json_text::skip_ws(v, j1);
                if !(j2 < v.len() && v[j2] == ':') {
                    return None;
                }
                let j3 = crate::json_text::skip_ws(v, j2 + 1);
                match parse_top_member_value_exec(v, j3, &key, acc) {
                    None => {
                        return None;
                    },
                    Some((acc2, j4)) => {
                        let j5 = crate::json_text::skip_ws(v, j4);
                        if j5 < v.len() && v[j5] == ',' {
                            acc = acc2;
                            cur = j5 + 1;
                        } else if j5 < v.len() && v[j5] == '}' {
                            return Some((acc2, j5 + 1));
                        } else {
                            return None;
                        }
                    },
                }
            },
        }
    }
}

/// Dispatches one top-level member on its key.
fn parse_top_member_value_exec(v: &Vec<char>, i: usize, key: &String, acc: TopAcc) -> (r: Option<
    (TopAcc, usize),
>)
    requires
        i <= v@.len(),
    ensures
        r.is_some() <==> parse_top_member_value(v@, i as int, key@, acc@).is_some(),
        r.is_some() ==> parse_top_member_value(v@, i as int, key@, acc@) == Some(
            (r.unwrap().0@, r.unwrap().1 as int),
        ),
        r.is_some() ==> i < r.unwrap().1 <= v@.len(),
{
    if key_is(key, "parentUuid") {
        if acc.parent_uuid.is_some() {
            None
        } else {
            match parse_opt_string_exec(v, i) {
                None => None,
                Some((val, j)) => Some((TopAcc { parent_uuid: Some(val), ..acc }, j)),
            }
        }
    } else if key_is(key, "isSidechain") {
        if acc.is_sidechain.is_some() {
            None
        } else {
            match parse_bool_exec(v, i) {
                None => None,
                Some((val, j)) => Some((TopAcc { is_sidechain: Some(val), ..acc }, j)),
            }
        }
    } else if key_is(key, "userType") {
        if acc.user_type.is_some() {
            None
        } else {
            match parse_string_exec(v, i) {
                None => None,
                Some((val, j)) => Some((TopAcc { user_type: Some(val), ..acc }, j)),
            }
        }
    } else if key_is(key, "cwd") {
        if acc.cwd.is_some() {
            None
        } else {
            match parse_string_exec(v, i) {
                None => None,
                Some((val, j)) => Some((TopAcc { cwd: Some(val), ..acc }, j)),
            }
        }
    } else if key_is(key, "sessionId") {
        if acc.session_id.is_some() {
            None
        } else {
            match parse_string_exec(v, i) {
                None => None,
                Some((val, j)) => Some((TopAcc { session_id: Some(val), ..acc }, j)),
            }
        }
    } else if key_is(key, "version") {
        if acc.version.is_some() {
            None
        } else {
            match parse_string_exec(v, i) {
                None => None,
                Some((val, j)) => Some((TopAcc { version: Some(val), ..acc }, j)),
            }
        }
    } else if key_is(key, "gitBranch") {
        if acc.git_branch.is_some() {
            None
        } else {
            match parse_opt_string_exec(v, i) {
                None => None,
                Some((val, j)) => Some((TopAcc { git_branch: Some(val), ..acc }, j)),
            }
        }
    } else if key_is(key, "type") {
        if acc.message_type.is_some() {
            None
        } else {
            match parse_string_exec(v, i) {
                None => None,
                Some((val, j)) => Some((TopAcc { message_type: Some(val), ..acc }, j)),
            }
        }
    } else if key_is(key, "message") {
        if acc.message.is_some() {
            None
        } else {
            match parse_msg_object_exec(v, i) {
                None => None,
                Some((val, j)) => Some((TopAcc { message: Some(val), ..acc }, j)),
            }
        }
    } else if key_is(key, "uuid") {
        if acc.uuid.is_some() {
            None
        } else {
            match parse_string_exec(v, i) {
                None => None,
                Some((val, j)) => Some((TopAcc { uuid: Some(val), ..acc }, j)),
            }
        }
    } else if key_is(key, "timestamp") {
        if acc.timestamp.is_some() {
            None
        } else {
            match parse_string_exec(v, i) {
                None => None,
                Some((val, j)) => Some((TopAcc { timestamp: Some(val), ..acc }, j)),
            }
        }
    } else {
        match crate::json_text::raw_scan_exec(v, i) {
            None => None,
            Some(j) => Some((acc, j)),
        }
    }
}

/// Builds the message from the collected fields; names what was missing
/// or malformed where it cannot.
fn assemble_exec(acc: TopAcc) -> (r: Result<ClaudeMessage, crate::errors::DecodeErrorKind>)
    ensures
        r.is_ok() <==> assemble(acc@).is_some(),
        r.is_ok() ==> assemble(acc@) == Some(r.unwrap()@),
        r.is_err() ==> r.unwrap_err() == if !required_present(acc@) {
            crate::errors::DecodeErrorKind::MissingField
        } else {
            crate::errors::DecodeErrorKind::BadTimestamp
        },
{
    let TopAcc {
        parent_uuid,
        is_sidechain,
        user_type,
        cwd,
        session_id,
        version,
        git_branch,
        message_type,
        message,
        uuid,
        timestamp,
    } = acc;
    match (is_sidechain, user_type, cwd, session_id, version, message_type, message, uuid,
        timestamp) {
        (
            Some(is_sidechain),
            Some(user_type),
            Some(cwd),
            Some(session_id),
            Some(version),
            Some(message_type),
            Some(message),
            Some(uuid),
            Some(ts_raw),
        ) => {
            match crate::message::Timestamp::parse(ts_raw.as_str()) {
                None => Err(crate::errors::DecodeErrorKind::BadTimestamp),
                Some(ts) => Ok(
                    ClaudeMessage {
                        parent_uuid: match parent_uuid {
                            None => None,
                            Some(x) => x,
                        },
                        is_sidechain,
                        user_type,
                        cwd,
                        session_id,
                        version,
                        git_branch: match git_branch {
                            None => None,
                            Some(x) => x,
                        },
                        message_type,
                        message,
                        uuid,
                        timestamp: ts,
                    },
                ),
            }
        },
        _ => Err(crate::errors::DecodeErrorKind::MissingField),
    }
}

/// Decodes one line of wire text, given as its characters; a refusal names
/// its cause.
pub fn decode_line_chars(v: &Vec<char>) -> (r: Result<
    ClaudeMessage,
    crate::errors::DecodeErrorKind,
>)
    ensures
        r.is_ok() <==> decode_line_spec(v@).is_some(),
        r.is_ok() ==> decode_line_spec(v@) == Some(r.unwrap()@),
        r.is_err() ==> r.unwrap_err() == decode_failure_kind(v@),
{
    let i0 = crate::json_text::skip_ws(v, 0);
    if !(i0 < v.len() && v[i0] == '{') {
        return Err(crate::errors::DecodeErrorKind::Syntax);
    }
    let i1 = crate::json_text::skip_ws(v, i0 + 1);
    let empty_acc = TopAcc {
        parent_uuid: None,
        is_sidechain: None,
        user_type: None,
        cwd: None,
        session_id: None,
        version: None,
        git_branch: None,
        message_type: None,
        message: None,
        uuid: None,
        timestamp: None,
    };
    proof {
        assert(empty_acc@ == TopAccView::empty());
    }
    let parsed: Option<(TopAcc, usize)> = if i1 < v.len() && v[i1] == '}' {
        Some((empty_acc, i1 + 1))
    } else {
        parse_top_members_exec(v, i1, empty_acc)
    };
    match parsed {
        None => Err(crate::errors::DecodeErrorKind::Syntax),
        Some((acc, j)) => {
            let j1 = crate::json_text::skip_ws(v, j);
            if j1 != v.len() {
                Err(crate::errors::DecodeErrorKind::Syntax)
            } else {
                assemble_exec(acc)
            }
        },
    }
}

/// Decodes one line of wire text; a refusal names its cause.
pub fn decode_line(s: &str) -> (r: Result<ClaudeMessage, crate::errors::DecodeErrorKind>)
    ensures
        r.is_ok() <==> decode_line_spec(s@).is_some(),
        r.is_ok() ==> decode_line_spec(s@) == Some(r.unwrap()@),
        r.is_err() ==> r.unwrap_err() == decode_failure_kind(s@),
{
    let v = crate::json_text::str_to_chars(s);
    decode_line_chars(&v)
}

// ---------------------------------------------------------------------------
// The executable encoder.
// ---------------------------------------------------------------------------

/// Appends a quoted, escaped string.
fn append_quoted(out: &mut String, s: &str)
    ensures
        final(out)@ == old(out)@ + enc_str(s@),
{
    crate::text::push_char(out, '"');
    crate::json_text::escape_into(out, s);
    crate::text::push_char(out, '"');
    proof {
        assert(out@ =~= old(out)@ + enc_str(s@));
    }
}

/// Appends a quoted string or the literal `null`.
fn append_opt_str(out: &mut String, o: &Option<String>)
    ensures
        final(out)@ == old(out)@ + enc_opt_str(view_os(*o)),
{
    match o {
        None => {
            out.append("null");
        },
        Some(s) => {
            append_quoted(out, s.as_str());
        },
    }
}

/// Appends a raw payload verbatim, or the literal `null`.
fn append_opt_raw(out: &mut String, o: &Option<String>)
    ensures
        final(out)@ == old(out)@ + enc_opt_raw(view_os(*o)),
{
    match o {
        None => {
            out.append("null");
        },
        Some(s) => {
            out.append(s.as_str());
        },
    }
}

/// Appends the payload object's first members: role, content, id.
#[verifier::rlimit(100)]
fn append_msg_front(out: &mut String, m: &MessageContent)
    ensures
        final(out)@ == old(out)@ + ("{\"role\":"@ + enc_opt_str(view_os(m.role))
            + ",\"content\":"@ + enc_opt_raw(view_os(m.content)) + ",\"id\":"@ + enc_opt_str(
            view_os(m.id),
        )),
{
    out.append("{\"role\":");
    append_opt_str(out, &m.role);
    out.append(",\"content\":");
    append_opt_raw(out, &m.content);
    out.append(",\"id\":");
    append_opt_str(out, &m.id);
    proof {
        assert(out@ =~= old(out)@ + ("{\"role\":"@ + enc_opt_str(view_os(m.role))
            + ",\"content\":"@ + enc_opt_raw(view_os(m.content)) + ",\"id\":"@ + enc_opt_str(
            view_os(m.id),
        )));
    }
}

/// Appends the payload object's closing members: type, model, the brace.
#[verifier::rlimit(100)]
fn append_msg_back(out: &mut String, m: &MessageContent)
    ensures
        final(out)@ == old(out)@ + (",\"type\":"@ + enc_opt_str(view_os(m.content_type))
            + ",\"model\":"@ + enc_opt_str(view_os(m.model)) + "}"@),
{
    out.append(",\"type\":");
    append_opt_str(out, &m.content_type);
    out.append(",\"model\":");
    append_opt_str(out, &m.model);
    out.append("}");
    proof {
        assert(out@ =~= old(out)@ + (",\"type\":"@ + enc_opt_str(view_os(m.content_type))
            + ",\"model\":"@ + enc_opt_str(view_os(m.model)) + "}"@));
    }
}

/// Appends the wire form of the payload object.
#[verifier::rlimit(100)]
fn append_msg(out: &mut String, m: &MessageContent)
    ensures
        final(out)@ == old(out)@ + enc_msg(m@),
{
    let ghost front = "{\"role\":"@ + enc_opt_str(view_os(m.role)) + ",\"content\":"@
        + enc_opt_raw(view_os(m.content)) + ",\"id\":"@ + enc_opt_str(view_os(m.id));
    let ghost back = ",\"type\":"@ + enc_opt_str(view_os(m.content_type)) + ",\"model\":"@
        + enc_opt_str(view_os(m.model)) + "}"@;
    append_msg_front(out, m);
    append_msg_back(out, m);
    proof {
        assert(out@ == (old(out)@ + front) + back);
        vstd::seq_lib::lemma_concat_associative(old(out)@, front, back);
        assert(enc_msg(m@) =~= front + back);
        assert(out@ == old(out)@ + enc_msg(m@));
    }
}

/// Encodes a message as one line of wire text.
#[verifier::rlimit(100)]
pub fn encode_line(m: &ClaudeMessage) -> (r: String)
    ensures
        r@ == encode_line_spec(m@),
{
    let mut out = String::new();
    out.append("{\"parentUuid\":");
    append_opt_str(&mut out, &m.parent_uuid);
    out.append(",\"isSidechain\":");
    if m.is_sidechain {
        out.append("true");
    } else {
        out.append("false");
    }
    out.append(",\"userType\":");
    append_quoted(&mut out, m.user_type.as_str());
    out.append(",\"cwd\":");
    append_quoted(&mut out, m.cwd.as_str());
    out.append(",\"sessionId\":");
    append_quoted(&mut out, m.session_id.as_str());
    out.append(",\"version\":");
    append_quoted(&mut out, m.version.as_str());
    proof {
        assert(out@ =~= enc_head_a(m@));
    }
    out.append(",\"gitBranch\":");
    append_opt_str(&mut out, &m.git_branch);
    out.append(",\"type\":");
    append_quoted(&mut out, m.message_type.as_str());
    out.append(",\"message\":");
    proof {
        assert(out@ =~= enc_head_a(m@) + enc_head_b(m@));
    }
    append_msg(&mut out, &m.message);
    out.append(",\"uuid\":");
    append_quoted(&mut out, m.uuid.as_str());
    out.append(",\"timestamp\":");
    append_quoted(&mut out, m.timestamp.raw.as_str());
    out.append("}");
    proof {
        assert(out@ =~= (enc_head_a(m@) + enc_head_b(m@) + enc_msg(m@.message)) + enc_tail(m@));
        assert(out@ =~= encode_line_spec(m@));
    }
    out
}

} // verus!
