use vstd::prelude::*;
use crate::codec::{
    enc_bool, enc_msg, enc_opt_raw, enc_opt_str, enc_str, lit_at, parse_bool, parse_opt_raw,
    parse_opt_string, parse_msg_members, parse_msg_member_value, parse_msg_object, MsgAccView,
};
use crate::json_text::{
    esc_seq, is_delim, is_plain, is_ws, lemma_esc_plain, lemma_parse_quoted, lemma_raw_at,
    parse_string_at, skip_ws_spec, valid_raw,
};
use crate::message::{ClaudeMessageView, MessageContentView};

verus! {

/// Whether a stored raw payload could be mistaken for the null literal:
/// such raw text never stands in a well-formed message.
pub open spec fn null_prefixed(r: Seq<char>) -> bool {
    r.len() >= 4 && r.subrange(0, 4) == "null"@
}

/// Positions `i .. i + seg.len()` of `s` hold `seg`.
pub open spec fn seg_at(s: Seq<char>, i: int, seg: Seq<char>) -> bool {
    0 <= i && i + seg.len() <= s.len() && s.subrange(i, i + seg.len()) == seg
}

proof fn lemma_seg_index(s: Seq<char>, i: int, seg: Seq<char>)
    requires
        seg_at(s, i, seg),
    ensures
        forall|t: int| 0 <= t < seg.len() ==> s[i + t] == #[trigger] seg[t],
{
    assert forall|t: int| 0 <= t < seg.len() implies s[i + t] == #[trigger] seg[t] by {
        assert(s.subrange(i, i + seg.len())[t] == s[i + t]);
    }
}

/// A segment of a segment.
proof fn lemma_seg_sub(s: Seq<char>, i: int, a: Seq<char>, b: Seq<char>)
    requires
        seg_at(s, i, a + b),
    ensures
        seg_at(s, i, a),
        seg_at(s, i + a.len(), b),
{
    lemma_seg_index(s, i, a + b);
    assert forall|t: int| 0 <= t < a.len() implies s[i + t] == #[trigger] a[t] by {
        assert((a + b)[t] == a[t]);
        assert(s[i + t] == (a + b)[t]);
    }
    assert(s.subrange(i, i + a.len()) =~= a);
    assert forall|t: int| 0 <= t < b.len() implies s[i + a.len() + t] == #[trigger] b[t] by {
        assert((a + b)[a.len() + t] == b[t]);
        assert(s[i + (a.len() + t)] == (a + b)[a.len() + t]);
    }
    assert(s.subrange(i + a.len(), i + a.len() + b.len()) =~= b);
}

/// An optional string's wire form reads back as itself: the null literal
/// where it was absent, the unescaped text where it was there.
proof fn lemma_parse_opt_string_enc(s: Seq<char>, i: int, o: Option<Seq<char>>)
    requires
        seg_at(s, i, enc_opt_str(o)),
        i + enc_opt_str(o).len() < s.len(),
    ensures
        parse_opt_string(s, i) == Some((o, i + enc_opt_str(o).len())),
{
    reveal_strlit("null");
    match o {
        None => {
            assert(enc_opt_str(o) == "null"@);
            assert("null"@.len() == 4);
            assert(lit_at(s, i, "null"@));
        },
        Some(x) => {
            let e = enc_str(x);
            lemma_seg_index(s, i, e);
            assert(e[0] == '"') by {
                assert((seq!['"'] + esc_seq(x) + seq!['"'])[0] == '"');
            }
            assert(s[i] == '"');
            assert(!lit_at(s, i, "null"@)) by {
                if lit_at(s, i, "null"@) {
                    assert(s.subrange(i, i + 4)[0] == s[i]);
                    assert("null"@[0] == 'n');
                }
            }
            assert(e =~= seq!['"'] + esc_seq(x) + seq!['"']);
            assert(e.len() == esc_seq(x).len() + 2);
            assert forall|t: int| 0 <= t < esc_seq(x).len() implies s[i + 1 + t]
                == #[trigger] esc_seq(x)[t] by {
                assert(e[1 + t] == esc_seq(x)[t]);
                assert(s[i + (1 + t)] == e[1 + t]);
            }
            assert(s.subrange(i + 1, i + 1 + esc_seq(x).len()) =~= esc_seq(x));
            assert(s[i + 1 + esc_seq(x).len()] == '"') by {
                assert(e[e.len() - 1] == '"');
            }
            lemma_parse_quoted(s, i, x);
        },
    }
}

/// The boolean literals read back as themselves.
proof fn lemma_parse_bool_enc(s: Seq<char>, i: int, b: bool)
    requires
        seg_at(s, i, enc_bool(b)),
    ensures
        parse_bool(s, i) == Some((b, i + enc_bool(b).len())),
{
    reveal_strlit("true");
    reveal_strlit("false");
    lemma_seg_index(s, i, enc_bool(b));
    if b {
        assert(lit_at(s, i, "true"@));
    } else {
        assert(!lit_at(s, i, "true"@)) by {
            if lit_at(s, i, "true"@) {
                assert(s.subrange(i, i + 4)[0] == s[i]);
                assert(s[i] == "false"@[0]);
            }
        }
        assert(lit_at(s, i, "false"@));
    }
}

/// A stored raw payload reads back verbatim, the delimiter after it
/// untouched.
proof fn lemma_parse_opt_raw_enc(s: Seq<char>, i: int, o: Option<Seq<char>>)
    requires
        seg_at(s, i, enc_opt_raw(o)),
        i + enc_opt_raw(o).len() < s.len(),
        is_delim(s[i + enc_opt_raw(o).len()]),
        match o {
            None => true,
            Some(r) => valid_raw(r) && !null_prefixed(r),
        },
    ensures
        parse_opt_raw(s, i) == Some((o, i + enc_opt_raw(o).len())),
{
    reveal_strlit("null");
    match o {
        None => {
            assert(enc_opt_raw(o) == "null"@);
            assert(lit_at(s, i, "null"@));
        },
        Some(r) => {
            lemma_seg_index(s, i, r);
            assert(!lit_at(s, i, "null"@)) by {
                if lit_at(s, i, "null"@) {
                    if r.len() >= 4 {
                        assert(r.subrange(0, 4) =~= s.subrange(i, i + 4));
                    } else {
                        // The literal would run onto the delimiter.
                        assert(s.subrange(i, i + 4)[r.len() as int] == s[i + r.len()]);
                        assert(is_delim("null"@[r.len() as int]));
                        assert(!is_delim('u') && !is_delim('l'));
                    }
                }
            }
            lemma_raw_at(s, i, r);
            assert(s.subrange(i, i + r.len()) == r);
        },
    }
}

/// A quoted key of escape-free characters reads back as itself.
proof fn lemma_parse_key(s: Seq<char>, i: int, name: Seq<char>)
    requires
        seg_at(s, i, seq!['"'] + name + seq!['"']),
        forall|t: int| 0 <= t < name.len() ==> is_plain(#[trigger] name[t]),
    ensures
        parse_string_at(s, i) == Some((name, i + name.len() + 2)),
{
    lemma_esc_plain(name);
    let e = seq!['"'] + name + seq!['"'];
    lemma_seg_index(s, i, e);
    assert(s[i] == '"') by {
        assert(e[0] == '"');
    }
    assert forall|t: int| 0 <= t < name.len() implies s[i + 1 + t] == #[trigger] name[t] by {
        assert(e[1 + t] == name[t]);
        assert(s[i + (1 + t)] == e[1 + t]);
    }
    assert(s.subrange(i + 1, i + 1 + name.len()) =~= name);
    assert(s[i + 1 + name.len()] == '"') by {
        assert(e[e.len() - 1] == '"');
    }
    lemma_parse_quoted(s, i, name);
}

// ---------------------------------------------------------------------------
// The payload object, member by member.
// ---------------------------------------------------------------------------

/// A payload whose opaque value, if any, reads back as itself.
pub open spec fn mc_wf(mc: MessageContentView) -> bool {
    match mc.content {
        None => true,
        Some(r) => valid_raw(r) && !null_prefixed(r),
    }
}

pub open spec fn mkey_name(k: int) -> Seq<char> {
    if k == 1 {
        "role"@
    } else if k == 2 {
        "content"@
    } else if k == 3 {
        "id"@
    } else if k == 4 {
        "type"@
    } else {
        "model"@
    }
}

pub open spec fn mval_text(mc: MessageContentView, k: int) -> Seq<char> {
    if k == 1 {
        enc_opt_str(mc.role)
    } else if k == 2 {
        enc_opt_raw(mc.content)
    } else if k == 3 {
        enc_opt_str(mc.id)
    } else if k == 4 {
        enc_opt_str(mc.content_type)
    } else {
        enc_opt_str(mc.model)
    }
}

/// The wire text of the payload members from the k-th on, through the
/// closing brace.
pub open spec fn msg_rest(mc: MessageContentView, k: int) -> Seq<char>
    decreases 6 - k when 1 <= k <= 5
{
    let piece = seq!['"'] + mkey_name(k) + seq!['"', ':'] + mval_text(mc, k);
    if k < 5 {
        piece + seq![','] + msg_rest(mc, k + 1)
    } else {
        piece + seq!['}']
    }
}

/// The fields collected once the first `k - 1` payload members are read.
pub open spec fn macc_before(mc: MessageContentView, k: int) -> MsgAccView {
    MsgAccView {
        role: if k > 1 {
            Some(mc.role)
        } else {
            None
        },
        content: if k > 2 {
            Some(mc.content)
        } else {
            None
        },
        id: if k > 3 {
            Some(mc.id)
        } else {
            None
        },
        content_type: if k > 4 {
            Some(mc.content_type)
        } else {
            None
        },
        model: if k > 5 {
            Some(mc.model)
        } else {
            None
        },
    }
}

proof fn lemma_mkeys_plain()
    ensures
        forall|t: int| 0 <= t < "role"@.len() ==> is_plain(#[trigger] "role"@[t]),
        forall|t: int| 0 <= t < "content"@.len() ==> is_plain(#[trigger] "content"@[t]),
        forall|t: int| 0 <= t < "id"@.len() ==> is_plain(#[trigger] "id"@[t]),
        forall|t: int| 0 <= t < "type"@.len() ==> is_plain(#[trigger] "type"@[t]),
        forall|t: int| 0 <= t < "model"@.len() ==> is_plain(#[trigger] "model"@[t]),
{
    reveal_strlit("role");
    reveal_strlit("content");
    reveal_strlit("id");
    reveal_strlit("type");
    reveal_strlit("model");
}

/// Reading the payload members back from their wire text collects exactly
/// the payload's fields.
proof fn lemma_msg_members(s: Seq<char>, i: int, mc: MessageContentView, k: int)
    requires
        1 <= k <= 5,
        mc_wf(mc),
        seg_at(s, i, msg_rest(mc, k)),
    ensures
        parse_msg_members(s, i, macc_before(mc, k)) == Some(
            (macc_before(mc, 6), i + msg_rest(mc, k).len()),
        ),
    decreases 6 - k,
{
    lemma_mkeys_plain();
    reveal_strlit("role");
    reveal_strlit("content");
    reveal_strlit("id");
    reveal_strlit("type");
    reveal_strlit("model");
    let name = mkey_name(k);
    let vt = mval_text(mc, k);
    let rest = msg_rest(mc, k);
    let keypart = seq!['"'] + name + seq!['"', ':'];
    let tail: Seq<char> = if k < 5 {
        seq![','] + msg_rest(mc, k + 1)
    } else {
        seq!['}']
    };
    assert(rest =~= (keypart + vt) + tail);
    lemma_seg_sub(s, i, keypart + vt, tail);
    lemma_seg_sub(s, i, keypart, vt);
    assert(keypart =~= (seq!['"'] + name + seq!['"']) + seq![':']);
    lemma_seg_sub(s, i, seq!['"'] + name + seq!['"'], seq![':']);
    lemma_parse_key(s, i, name);
    lemma_seg_index(s, i, seq!['"'] + name + seq!['"']);
    let pcolon = i + name.len() + 2;
    lemma_seg_index(s, pcolon, seq![':']);
    assert(s[pcolon] == ':') by {
        assert(seq![':'][0] == ':');
    }
    let pv = i + keypart.len();
    assert(pv == pcolon + 1);
    lemma_seg_index(s, pv, vt);
    let pafter = pv + vt.len();
    lemma_seg_index(s, pafter, tail);
    assert(s[pafter] == tail[0]);
    assert(is_delim(tail[0])) by {
        if k < 5 {
            assert(tail[0] == ',');
        } else {
            assert(tail[0] == '}');
        }
    }
    // The first character of the member is the key's opening quote.
    assert(s[i] == '"') by {
        assert((seq!['"'] + name + seq!['"'])[0] == '"');
    }
    assert(skip_ws_spec(s, i) == i);
    assert(skip_ws_spec(s, i + name.len() + 2) == pcolon);
    // The value begins right after the colon, and is not whitespace.
    assert(vt.len() > 0 && !is_ws(vt[0])) by {
        reveal_strlit("null");
        reveal_strlit("true");
        reveal_strlit("false");
        if k == 2 {
            match mc.content {
                None => {
                    assert(enc_opt_raw(mc.content)[0] == 'n');
                },
                Some(r) => {
                    assert(!is_ws(r[0]));
                },
            }
        } else {
            let o = if k == 1 {
                mc.role
            } else if k == 3 {
                mc.id
            } else if k == 4 {
                mc.content_type
            } else {
                mc.model
            };
            match o {
                None => {
                    assert(enc_opt_str(o)[0] == 'n');
                },
                Some(x) => {
                    assert(enc_opt_str(o) =~= seq!['"'] + esc_seq(x) + seq!['"']);
                    assert(enc_opt_str(o)[0] == '"');
                },
            }
        }
    }
    assert(s[pv] == vt[0]);
    assert(skip_ws_spec(s, pcolon + 1) == pv);
    // Dispatch on the key and read the value.
    let acc = macc_before(mc, k);
    let acc2 = macc_before(mc, k + 1);
    assert(vt.len() + 1 <= vt.len() + tail.len());
    assert(pv + vt.len() < s.len());
    if k == 1 {
        lemma_parse_opt_string_enc(s, pv, mc.role);
        assert(parse_msg_member_value(s, pv, name, acc) == Some((acc2, pafter)));
    } else if k == 2 {
        assert(name != "role"@) by {
            assert("content"@.len() != "role"@.len());
        }
        lemma_parse_opt_raw_enc(s, pv, mc.content);
        assert(parse_msg_member_value(s, pv, name, acc) == Some((acc2, pafter)));
    } else if k == 3 {
        assert(name != "role"@ && name != "content"@);
        lemma_parse_opt_string_enc(s, pv, mc.id);
        assert(parse_msg_member_value(s, pv, name, acc) == Some((acc2, pafter)));
    } else if k == 4 {
        assert(name != "role"@) by {
            assert("type"@[0] == 't' && "role"@[0] == 'r');
        }
        assert(name != "content"@ && name != "id"@);
        lemma_parse_opt_string_enc(s, pv, mc.content_type);
        assert(parse_msg_member_value(s, pv, name, acc) == Some((acc2, pafter)));
    } else {
        assert(name != "role"@ && name != "content"@ && name != "id"@);
        assert(name != "type"@) by {
            assert("model"@.len() != "type"@.len());
        }
        lemma_parse_opt_string_enc(s, pv, mc.model);
        assert(parse_msg_member_value(s, pv, name, acc) == Some((acc2, pafter)));
    }
    // Past the value stands the separator or the closing brace.
    assert(skip_ws_spec(s, pafter) == pafter);
    if k < 5 {
        assert(s[pafter] == ',');
        assert(tail =~= seq![','] + msg_rest(mc, k + 1));
        lemma_seg_sub(s, pafter, seq![','], msg_rest(mc, k + 1));
        lemma_msg_members(s, pafter + 1, mc, k + 1);
        assert(parse_msg_members(s, i, acc) == Some(
            (macc_before(mc, 6), i + rest.len()),
        ));
    } else {
        assert(s[pafter] == '}');
        assert(s[pafter] != ',');
        assert(pafter + 1 == i + rest.len());
        assert(parse_msg_members(s, i, acc) == Some((acc2, pafter + 1)));
        assert(acc2 == macc_before(mc, 6));
    }
}

// ---------------------------------------------------------------------------
// The top-level object, member by member.
// ---------------------------------------------------------------------------

/// A required string value reads back as itself.
proof fn lemma_parse_str_enc(s: Seq<char>, i: int, x: Seq<char>)
    requires
        seg_at(s, i, enc_str(x)),
    ensures
        parse_string_at(s, i) == Some((x, i + enc_str(x).len())),
{
    let e = enc_str(x);
    lemma_seg_index(s, i, e);
    assert(e =~= seq!['"'] + esc_seq(x) + seq!['"']);
    assert(s[i] == '"') by {
        assert(e[0] == '"');
    }
    assert forall|t: int| 0 <= t < esc_seq(x).len() implies s[i + 1 + t] == #[trigger] esc_seq(x)[t]
        by {
        assert(e[1 + t] == esc_seq(x)[t]);
        assert(s[i + (1 + t)] == e[1 + t]);
    }
    assert(s.subrange(i + 1, i + 1 + esc_seq(x).len()) =~= esc_seq(x));
    assert(s[i + 1 + esc_seq(x).len()] == '"') by {
        assert(e[e.len() - 1] == '"');
    }
    lemma_parse_quoted(s, i, x);
}

pub open spec fn tkey_name(k: int) -> Seq<char> {
    if k == 1 {
        "parentUuid"@
    } else if k == 2 {
        "isSidechain"@
    } else if k == 3 {
        "userType"@
    } else if k == 4 {
        "cwd"@
    } else if k == 5 {
        "sessionId"@
    } else if k == 6 {
        "version"@
    } else if k == 7 {
        "gitBranch"@
    } else if k == 8 {
        "type"@
    } else if k == 9 {
        "message"@
    } else if k == 10 {
        "uuid"@
    } else {
        "timestamp"@
    }
}

pub open spec fn tval_text(m: ClaudeMessageView, k: int) -> Seq<char> {
    if k == 1 {
        enc_opt_str(m.parent_uuid)
    } else if k == 2 {
        enc_bool(m.is_sidechain)
    } else if k == 3 {
        enc_str(m.user_type)
    } else if k == 4 {
        enc_str(m.cwd)
    } else if k == 5 {
        enc_str(m.session_id)
    } else if k == 6 {
        enc_str(m.version)
    } else if k == 7 {
        enc_opt_str(m.git_branch)
    } else if k == 8 {
        enc_str(m.message_type)
    } else if k == 9 {
        enc_msg(m.message)
    } else if k == 10 {
        enc_str(m.uuid)
    } else {
        enc_str(m.timestamp.raw)
    }
}

/// The wire text of the top-level members from the k-th on, through the
/// closing brace.
pub open spec fn top_rest(m: ClaudeMessageView, k: int) -> Seq<char>
    decreases 12 - k when 1 <= k <= 11
{
    let piece = seq!['"'] + tkey_name(k) + seq!['"', ':'] + tval_text(m, k);
    if k < 11 {
        piece + seq![','] + top_rest(m, k + 1)
    } else {
        piece + seq!['}']
    }
}

/// The fields collected once the first `k - 1` top-level members are read.
pub open spec fn tacc_before(m: ClaudeMessageView, k: int) -> crate::codec::TopAccView {
    crate::codec::TopAccView {
        parent_uuid: if k > 1 {
            Some(m.parent_uuid)
        } else {
            None
        },
        is_sidechain: if k > 2 {
            Some(m.is_sidechain)
        } else {
            None
        },
        user_type: if k > 3 {
            Some(m.user_type)
        } else {
            None
        },
        cwd: if k > 4 {
            Some(m.cwd)
        } else {
            None
        },
        session_id: if k > 5 {
            Some(m.session_id)
        } else {
            None
        },
        version: if k > 6 {
            Some(m.version)
        } else {
            None
        },
        git_branch: if k > 7 {
            Some(m.git_branch)
        } else {
            None
        },
        message_type: if k > 8 {
            Some(m.message_type)
        } else {
            None
        },
        message: if k > 9 {
            Some(m.message)
        } else {
            None
        },
        uuid: if k > 10 {
            Some(m.uuid)
        } else {
            None
        },
        timestamp: if k > 11 {
            Some(m.timestamp.raw)
        } else {
            None
        },
    }
}

proof fn lemma_tkeys_plain()
    ensures
        forall|t: int| 0 <= t < "parentUuid"@.len() ==> is_plain(#[trigger] "parentUuid"@[t]),
        forall|t: int| 0 <= t < "isSidechain"@.len() ==> is_plain(#[trigger] "isSidechain"@[t]),
        forall|t: int| 0 <= t < "userType"@.len() ==> is_plain(#[trigger] "userType"@[t]),
        forall|t: int| 0 <= t < "cwd"@.len() ==> is_plain(#[trigger] "cwd"@[t]),
        forall|t: int| 0 <= t < "sessionId"@.len() ==> is_plain(#[trigger] "sessionId"@[t]),
        forall|t: int| 0 <= t < "version"@.len() ==> is_plain(#[trigger] "version"@[t]),
        forall|t: int| 0 <= t < "gitBranch"@.len() ==> is_plain(#[trigger] "gitBranch"@[t]),
        forall|t: int| 0 <= t < "type"@.len() ==> is_plain(#[trigger] "type"@[t]),
        forall|t: int| 0 <= t < "message"@.len() ==> is_plain(#[trigger] "message"@[t]),
        forall|t: int| 0 <= t < "uuid"@.len() ==> is_plain(#[trigger] "uuid"@[t]),
        forall|t: int| 0 <= t < "timestamp"@.len() ==> is_plain(#[trigger] "timestamp"@[t]),
{
    reveal_strlit("parentUuid");
    reveal_strlit("isSidechain");
    reveal_strlit("userType");
    reveal_strlit("cwd");
    reveal_strlit("sessionId");
    reveal_strlit("version");
    reveal_strlit("gitBranch");
    reveal_strlit("type");
    reveal_strlit("message");
    reveal_strlit("uuid");
    reveal_strlit("timestamp");
}

proof fn lemma_chunk_m1()
    ensures
        "{\"role\":"@ == seq!['{'] + (seq!['"'] + "role"@ + seq!['"', ':']),
{
    reveal_strlit("{\"role\":");
    reveal_strlit("role");
    assert("{\"role\":"@ =~= seq!['{'] + (seq!['"'] + "role"@ + seq!['"', ':']));
}

proof fn lemma_chunk_m2()
    ensures
        ",\"content\":"@ == seq![','] + (seq!['"'] + "content"@ + seq!['"', ':']),
{
    reveal_strlit(",\"content\":");
    reveal_strlit("content");
    assert(",\"content\":"@ =~= seq![','] + (seq!['"'] + "content"@ + seq!['"', ':']));
}

proof fn lemma_chunk_m3()
    ensures
        ",\"id\":"@ == seq![','] + (seq!['"'] + "id"@ + seq!['"', ':']),
{
    reveal_strlit(",\"id\":");
    reveal_strlit("id");
    assert(",\"id\":"@ =~= seq![','] + (seq!['"'] + "id"@ + seq!['"', ':']));
}

proof fn lemma_chunk_m4()
    ensures
        ",\"type\":"@ == seq![','] + (seq!['"'] + "type"@ + seq!['"', ':']),
{
    reveal_strlit(",\"type\":");
    reveal_strlit("type");
    assert(",\"type\":"@ =~= seq![','] + (seq!['"'] + "type"@ + seq!['"', ':']));
}

proof fn lemma_chunk_m5()
    ensures
        ",\"model\":"@ == seq![','] + (seq!['"'] + "model"@ + seq!['"', ':']),
{
    reveal_strlit(",\"model\":");
    reveal_strlit("model");
    assert(",\"model\":"@ =~= seq![','] + (seq!['"'] + "model"@ + seq!['"', ':']));
}

proof fn lemma_chunk_t1()
    ensures
        "{\"parentUuid\":"@ == seq!['{'] + (seq!['"'] + "parentUuid"@ + seq!['"', ':']),
{
    reveal_strlit("{\"parentUuid\":");
    reveal_strlit("parentUuid");
    assert("{\"parentUuid\":"@ =~= seq!['{'] + (seq!['"'] + "parentUuid"@ + seq!['"', ':']));
}

proof fn lemma_chunk_t2()
    ensures
        ",\"isSidechain\":"@ == seq![','] + (seq!['"'] + "isSidechain"@ + seq!['"', ':']),
{
    reveal_strlit(",\"isSidechain\":");
    reveal_strlit("isSidechain");
    assert(",\"isSidechain\":"@ =~= seq![','] + (seq!['"'] + "isSidechain"@ + seq!['"', ':']));
}

proof fn lemma_chunk_t3()
    ensures
        ",\"userType\":"@ == seq![','] + (seq!['"'] + "userType"@ + seq!['"', ':']),
{
    reveal_strlit(",\"userType\":");
    reveal_strlit("userType");
    assert(",\"userType\":"@ =~= seq![','] + (seq!['"'] + "userType"@ + seq!['"', ':']));
}

proof fn lemma_chunk_t4()
    ensures
        ",\"cwd\":"@ == seq![','] + (seq!['"'] + "cwd"@ + seq!['"', ':']),
{
    reveal_strlit(",\"cwd\":");
    reveal_strlit("cwd");
    assert(",\"cwd\":"@ =~= seq![','] + (seq!['"'] + "cwd"@ + seq!['"', ':']));
}

proof fn lemma_chunk_t5()
    ensures
        ",\"sessionId\":"@ == seq![','] + (seq!['"'] + "sessionId"@ + seq!['"', ':']),
{
    reveal_strlit(",\"sessionId\":");
    reveal_strlit("sessionId");
    assert(",\"sessionId\":"@ =~= seq![','] + (seq!['"'] + "sessionId"@ + seq!['"', ':']));
}

proof fn lemma_chunk_t6()
    ensures
        ",\"version\":"@ == seq![','] + (seq!['"'] + "version"@ + seq!['"', ':']),
{
    reveal_strlit(",\"version\":");
    reveal_strlit("version");
    assert(",\"version\":"@ =~= seq![','] + (seq!['"'] + "version"@ + seq!['"', ':']));
}

proof fn lemma_chunk_t7()
    ensures
        ",\"gitBranch\":"@ == seq![','] + (seq!['"'] + "gitBranch"@ + seq!['"', ':']),
{
    reveal_strlit(",\"gitBranch\":");
    reveal_strlit("gitBranch");
    assert(",\"gitBranch\":"@ =~= seq![','] + (seq!['"'] + "gitBranch"@ + seq!['"', ':']));
}

proof fn lemma_chunk_t8()
    ensures
        ",\"type\":"@ == seq![','] + (seq!['"'] + "type"@ + seq!['"', ':']),
{
    reveal_strlit(",\"type\":");
    reveal_strlit("type");
    assert(",\"type\":"@ =~= seq![','] + (seq!['"'] + "type"@ + seq!['"', ':']));
}

proof fn lemma_chunk_t9()
    ensures
        ",\"message\":"@ == seq![','] + (seq!['"'] + "message"@ + seq!['"', ':']),
{
    reveal_strlit(",\"message\":");
    reveal_strlit("message");
    assert(",\"message\":"@ =~= seq![','] + (seq!['"'] + "message"@ + seq!['"', ':']));
}

proof fn lemma_chunk_t10()
    ensures
        ",\"uuid\":"@ == seq![','] + (seq!['"'] + "uuid"@ + seq!['"', ':']),
{
    reveal_strlit(",\"uuid\":");
    reveal_strlit("uuid");
    assert(",\"uuid\":"@ =~= seq![','] + (seq!['"'] + "uuid"@ + seq!['"', ':']));
}

proof fn lemma_chunk_t11()
    ensures
        ",\"timestamp\":"@ == seq![','] + (seq!['"'] + "timestamp"@ + seq!['"', ':']),
{
    reveal_strlit(",\"timestamp\":");
    reveal_strlit("timestamp");
    assert(",\"timestamp\":"@ =~= seq![','] + (seq!['"'] + "timestamp"@ + seq!['"', ':']));
}

proof fn lemma_chunk_close()
    ensures
        "}"@ == seq!['}'],
{
    reveal_strlit("}");
    assert("}"@ =~= seq!['}']);
}

/// The payload object's wire text, reassociated member by member.
#[verifier::rlimit(100)]
proof fn lemma_msg_assoc(v1: Seq<char>, v2: Seq<char>, v3: Seq<char>, v4: Seq<char>, v5: Seq<char>)
    ensures
        "{\"role\":"@ + v1 + ",\"content\":"@ + v2 + ",\"id\":"@ + v3 + ",\"type\":"@ + v4 + ",\"model\":"@ + v5 + "}"@ == seq!['{'] + ((seq!['"'] + "role"@ + seq!['"', ':']) + v1 + seq![','] + ((seq!['"'] + "content"@ + seq!['"', ':']) + v2 + seq![','] + ((seq!['"'] + "id"@ + seq!['"', ':']) + v3 + seq![','] + ((seq!['"'] + "type"@ + seq!['"', ':']) + v4 + seq![','] + ((seq!['"'] + "model"@ + seq!['"', ':']) + v5 + seq!['}']))))),
{
    lemma_chunk_m1();
    lemma_chunk_m2();
    lemma_chunk_m3();
    lemma_chunk_m4();
    lemma_chunk_m5();
    lemma_chunk_close();
    assert("{\"role\":"@ + v1 + ",\"content\":"@ + v2 + ",\"id\":"@ + v3 + ",\"type\":"@ + v4 + ",\"model\":"@ + v5 + "}"@ =~= seq!['{'] + ((seq!['"'] + "role"@ + seq!['"', ':']) + v1 + seq![','] + ((seq!['"'] + "content"@ + seq!['"', ':']) + v2 + seq![','] + ((seq!['"'] + "id"@ + seq!['"', ':']) + v3 + seq![','] + ((seq!['"'] + "type"@ + seq!['"', ':']) + v4 + seq![','] + ((seq!['"'] + "model"@ + seq!['"', ':']) + v5 + seq!['}']))))));
}

/// The payload object's wire text is the brace and its members.
proof fn lemma_enc_msg_flat(mc: MessageContentView)
    ensures
        enc_msg(mc) == seq!['{'] + msg_rest(mc, 1),
{
    assert(msg_rest(mc, 5) == (seq!['"'] + "model"@ + seq!['"', ':']) + mval_text(mc, 5) + seq!['}']);
    assert(msg_rest(mc, 4) == ((seq!['"'] + "type"@ + seq!['"', ':']) + mval_text(mc, 4) + seq![','] + ((seq!['"'] + "model"@ + seq!['"', ':']) + mval_text(mc, 5) + seq!['}'])));
    assert(msg_rest(mc, 3) == ((seq!['"'] + "id"@ + seq!['"', ':']) + mval_text(mc, 3) + seq![','] + ((seq!['"'] + "type"@ + seq!['"', ':']) + mval_text(mc, 4) + seq![','] + ((seq!['"'] + "model"@ + seq!['"', ':']) + mval_text(mc, 5) + seq!['}']))));
    assert(msg_rest(mc, 2) == ((seq!['"'] + "content"@ + seq!['"', ':']) + mval_text(mc, 2) + seq![','] + ((seq!['"'] + "id"@ + seq!['"', ':']) + mval_text(mc, 3) + seq![','] + ((seq!['"'] + "type"@ + seq!['"', ':']) + mval_text(mc, 4) + seq![','] + ((seq!['"'] + "model"@ + seq!['"', ':']) + mval_text(mc, 5) + seq!['}'])))));
    assert(msg_rest(mc, 1) == ((seq!['"'] + "role"@ + seq!['"', ':']) + mval_text(mc, 1) + seq![','] + ((seq!['"'] + "content"@ + seq!['"', ':']) + mval_text(mc, 2) + seq![','] + ((seq!['"'] + "id"@ + seq!['"', ':']) + mval_text(mc, 3) + seq![','] + ((seq!['"'] + "type"@ + seq!['"', ':']) + mval_text(mc, 4) + seq![','] + ((seq!['"'] + "model"@ + seq!['"', ':']) + mval_text(mc, 5) + seq!['}']))))));
    lemma_msg_assoc(
        mval_text(mc, 1),
        mval_text(mc, 2),
        mval_text(mc, 3),
        mval_text(mc, 4),
        mval_text(mc, 5),
    );
    assert(enc_msg(mc) == "{\"role\":"@ + mval_text(mc, 1) + ",\"content\":"@ + mval_text(mc, 2)
        + ",\"id\":"@ + mval_text(mc, 3) + ",\"type\":"@ + mval_text(mc, 4) + ",\"model\":"@
        + mval_text(mc, 5) + "}"@);
}

/// The payload object's wire form reads back as the payload.
proof fn lemma_parse_msg_object(s: Seq<char>, i: int, mc: MessageContentView)
    requires
        mc_wf(mc),
        seg_at(s, i, enc_msg(mc)),
    ensures
        parse_msg_object(s, i) == Some((mc, i + enc_msg(mc).len())),
{
    lemma_enc_msg_flat(mc);
    lemma_seg_sub(s, i, seq!['{'], msg_rest(mc, 1));
    lemma_seg_index(s, i, seq!['{']);
    assert(s[i] == '{') by {
        assert(seq!['{'][0] == '{');
    }
    lemma_seg_index(s, i + 1, msg_rest(mc, 1));
    assert(s[i + 1] == '"') by {
        assert(msg_rest(mc, 1)[0] == '"') by {
            assert((seq!['"'] + mkey_name(1) + seq!['"', ':'] + mval_text(mc, 1))[0] == '"');
        }
    }
    assert(skip_ws_spec(s, i + 1) == i + 1);
    lemma_msg_members(s, i + 1, mc, 1);
    assert(macc_before(mc, 6).finish() == mc);
}

/// Reading the top-level members back from their wire text collects
/// exactly the message's fields.
#[verifier::rlimit(100)]
proof fn lemma_top_members(s: Seq<char>, i: int, m: ClaudeMessageView, k: int)
    requires
        1 <= k <= 11,
        m.wf(),
        mc_wf(m.message),
        seg_at(s, i, top_rest(m, k)),
    ensures
        crate::codec::parse_top_members(s, i, tacc_before(m, k)) == Some(
            (tacc_before(m, 12), i + top_rest(m, k).len()),
        ),
    decreases 12 - k,
{
    lemma_tkeys_plain();
    reveal_strlit("parentUuid");
    reveal_strlit("isSidechain");
    reveal_strlit("userType");
    reveal_strlit("cwd");
    reveal_strlit("sessionId");
    reveal_strlit("version");
    reveal_strlit("gitBranch");
    reveal_strlit("type");
    reveal_strlit("message");
    reveal_strlit("uuid");
    reveal_strlit("timestamp");
    let name = tkey_name(k);
    let vt = tval_text(m, k);
    let rest = top_rest(m, k);
    let keypart = seq!['"'] + name + seq!['"', ':'];
    let tail: Seq<char> = if k < 11 {
        seq![','] + top_rest(m, k + 1)
    } else {
        seq!['}']
    };
    assert(rest =~= (keypart + vt) + tail);
    lemma_seg_sub(s, i, keypart + vt, tail);
    lemma_seg_sub(s, i, keypart, vt);
    assert(keypart =~= (seq!['"'] + name + seq!['"']) + seq![':']);
    lemma_seg_sub(s, i, seq!['"'] + name + seq!['"'], seq![':']);
    lemma_parse_key(s, i, name);
    let pcolon = i + name.len() + 2;
    lemma_seg_index(s, pcolon, seq![':']);
    assert(s[pcolon] == ':') by {
        assert(seq![':'][0] == ':');
    }
    let pv = i + keypart.len();
    assert(pv == pcolon + 1);
    lemma_seg_index(s, pv, vt);
    let pafter = pv + vt.len();
    lemma_seg_index(s, pafter, tail);
    assert(s[pafter] == tail[0]);
    assert(is_delim(tail[0])) by {
        if k < 11 {
            assert(tail[0] == ',');
        } else {
            assert(tail[0] == '}');
        }
    }
    lemma_seg_index(s, i, seq!['"'] + name + seq!['"']);
    assert(s[i] == '"') by {
        assert((seq!['"'] + name + seq!['"'])[0] == '"');
    }
    assert(skip_ws_spec(s, i) == i);
    assert(skip_ws_spec(s, i + name.len() + 2) == pcolon);
    assert(vt.len() > 0 && !is_ws(vt[0])) by {
        reveal_strlit("null");
        reveal_strlit("true");
        reveal_strlit("false");
        if k == 2 {
            if m.is_sidechain {
                assert(enc_bool(true)[0] == 't');
            } else {
                assert(enc_bool(false)[0] == 'f');
            }
        } else if k == 9 {
            reveal_strlit("{\"role\":");
            assert(enc_msg(m.message)[0] == '{');
        } else if k == 1 || k == 7 {
            let o = if k == 1 {
                m.parent_uuid
            } else {
                m.git_branch
            };
            match o {
                None => {
                    assert(enc_opt_str(o)[0] == 'n');
                },
                Some(x) => {
                    assert(enc_opt_str(o) =~= seq!['"'] + esc_seq(x) + seq!['"']);
                    assert(enc_opt_str(o)[0] == '"');
                },
            }
        } else {
            let x = if k == 3 {
                m.user_type
            } else if k == 4 {
                m.cwd
            } else if k == 5 {
                m.session_id
            } else if k == 6 {
                m.version
            } else if k == 8 {
                m.message_type
            } else if k == 10 {
                m.uuid
            } else {
                m.timestamp.raw
            };
            assert(enc_str(x) =~= seq!['"'] + esc_seq(x) + seq!['"']);
            assert(enc_str(x)[0] == '"');
        }
    }
    assert(s[pv] == vt[0]);
    assert(skip_ws_spec(s, pcolon + 1) == pv);
    let acc = tacc_before(m, k);
    let acc2 = tacc_before(m, k + 1);
    assert(pv + vt.len() < s.len());
    if k == 1 {
        lemma_parse_opt_string_enc(s, pv, m.parent_uuid);
        assert(crate::codec::parse_top_member_value(s, pv, name, acc) == Some((acc2, pafter)));
    } else if k == 2 {
        lemma_parse_bool_enc(s, pv, m.is_sidechain);
        assert(crate::codec::parse_top_member_value(s, pv, name, acc) == Some((acc2, pafter)));
    } else if k == 3 {
        lemma_parse_str_enc(s, pv, m.user_type);
        assert(crate::codec::parse_top_member_value(s, pv, name, acc) == Some((acc2, pafter)));
    } else if k == 4 {
        lemma_parse_str_enc(s, pv, m.cwd);
        assert(crate::codec::parse_top_member_value(s, pv, name, acc) == Some((acc2, pafter)));
    } else if k == 5 {
        lemma_parse_str_enc(s, pv, m.session_id);
        assert(crate::codec::parse_top_member_value(s, pv, name, acc) == Some((acc2, pafter)));
    } else if k == 6 {
        lemma_parse_str_enc(s, pv, m.version);
        assert(crate::codec::parse_top_member_value(s, pv, name, acc) == Some((acc2, pafter)));
    } else if k == 7 {
        assert(name != "sessionId"@) by {
            assert("gitBranch"@[0] == 'g' && "sessionId"@[0] == 's');
        }
        lemma_parse_opt_string_enc(s, pv, m.git_branch);
        assert(crate::codec::parse_top_member_value(s, pv, name, acc) == Some((acc2, pafter)));
    } else if k == 8 {
        assert(name != "uuid"@) by {
            assert("type"@[0] == 't' && "uuid"@[0] == 'u');
        }
        lemma_parse_str_enc(s, pv, m.message_type);
        assert(crate::codec::parse_top_member_value(s, pv, name, acc) == Some((acc2, pafter)));
    } else if k == 9 {
        assert(name != "version"@) by {
            assert("message"@[0] == 'm' && "version"@[0] == 'v');
        }
        lemma_parse_msg_object(s, pv, m.message);
        assert(crate::codec::parse_top_member_value(s, pv, name, acc) == Some((acc2, pafter)));
    } else if k == 10 {
        assert(name != "type"@) by {
            assert("uuid"@[0] == 'u' && "type"@[0] == 't');
        }
        lemma_parse_str_enc(s, pv, m.uuid);
        assert(crate::codec::parse_top_member_value(s, pv, name, acc) == Some((acc2, pafter)));
    } else {
        assert(name != "sessionId"@) by {
            assert("timestamp"@[0] == 't' && "sessionId"@[0] == 's');
        }
        assert(name != "gitBranch"@) by {
            assert("timestamp"@[0] == 't' && "gitBranch"@[0] == 'g');
        }
        lemma_parse_str_enc(s, pv, m.timestamp.raw);
        assert(crate::codec::parse_top_member_value(s, pv, name, acc) == Some((acc2, pafter)));
    }
    assert(skip_ws_spec(s, pafter) == pafter);
    if k < 11 {
        assert(s[pafter] == ',');
        assert(tail =~= seq![','] + top_rest(m, k + 1));
        lemma_seg_sub(s, pafter, seq![','], top_rest(m, k + 1));
        lemma_top_members(s, pafter + 1, m, k + 1);
        assert(crate::codec::parse_top_members(s, i, acc) == Some(
            (tacc_before(m, 12), i + rest.len()),
        ));
    } else {
        assert(s[pafter] == '}');
        assert(s[pafter] != ',');
        assert(pafter + 1 == i + rest.len());
        assert(crate::codec::parse_top_members(s, i, acc) == Some((acc2, pafter + 1)));
        assert(acc2 == tacc_before(m, 12));
    }
}

/// The whole line's wire text is the brace and its members.
#[verifier::rlimit(100)]
proof fn lemma_head_a_flat(m: ClaudeMessageView)
    ensures
        crate::codec::enc_head_a(m) == seq!['{'] + ((seq!['"'] + "parentUuid"@ + seq!['"', ':']) + tval_text(m, 1) + seq![','] + (seq!['"'] + "isSidechain"@ + seq!['"', ':']) + tval_text(m, 2) + seq![','] + (seq!['"'] + "userType"@ + seq!['"', ':']) + tval_text(m, 3) + seq![','] + (seq!['"'] + "cwd"@ + seq!['"', ':']) + tval_text(m, 4) + seq![','] + (seq!['"'] + "sessionId"@ + seq!['"', ':']) + tval_text(m, 5) + seq![','] + (seq!['"'] + "version"@ + seq!['"', ':']) + tval_text(m, 6)),
{
    lemma_chunk_t1();
    lemma_chunk_t2();
    lemma_chunk_t3();
    lemma_chunk_t4();
    lemma_chunk_t5();
    lemma_chunk_t6();
    assert(crate::codec::enc_head_a(m) =~= seq!['{'] + ((seq!['"'] + "parentUuid"@ + seq!['"', ':']) + tval_text(m, 1) + seq![','] + (seq!['"'] + "isSidechain"@ + seq!['"', ':']) + tval_text(m, 2) + seq![','] + (seq!['"'] + "userType"@ + seq!['"', ':']) + tval_text(m, 3) + seq![','] + (seq!['"'] + "cwd"@ + seq!['"', ':']) + tval_text(m, 4) + seq![','] + (seq!['"'] + "sessionId"@ + seq!['"', ':']) + tval_text(m, 5) + seq![','] + (seq!['"'] + "version"@ + seq!['"', ':']) + tval_text(m, 6)));
}

#[verifier::rlimit(100)]
proof fn lemma_head_b_flat(m: ClaudeMessageView)
    ensures
        crate::codec::enc_head_b(m) + enc_msg(m.message) + crate::codec::enc_tail(m) == (seq![','] + (seq!['"'] + "gitBranch"@ + seq!['"', ':']) + tval_text(m, 7) + seq![','] + (seq!['"'] + "type"@ + seq!['"', ':']) + tval_text(m, 8) + seq![','] + (seq!['"'] + "message"@ + seq!['"', ':']) + tval_text(m, 9) + seq![','] + (seq!['"'] + "uuid"@ + seq!['"', ':']) + tval_text(m, 10) + seq![','] + (seq!['"'] + "timestamp"@ + seq!['"', ':']) + tval_text(m, 11) + seq!['}']),
{
    lemma_chunk_t7();
    lemma_chunk_t8();
    lemma_chunk_t9();
    lemma_chunk_t10();
    lemma_chunk_t11();
    lemma_chunk_close();
    assert(crate::codec::enc_head_b(m) + enc_msg(m.message) + crate::codec::enc_tail(m) =~= (seq![','] + (seq!['"'] + "gitBranch"@ + seq!['"', ':']) + tval_text(m, 7) + seq![','] + (seq!['"'] + "type"@ + seq!['"', ':']) + tval_text(m, 8) + seq![','] + (seq!['"'] + "message"@ + seq!['"', ':']) + tval_text(m, 9) + seq![','] + (seq!['"'] + "uuid"@ + seq!['"', ':']) + tval_text(m, 10) + seq![','] + (seq!['"'] + "timestamp"@ + seq!['"', ':']) + tval_text(m, 11) + seq!['}']));
}

#[verifier::rlimit(100)]
proof fn lemma_rest_chain(m: ClaudeMessageView)
    ensures
        top_rest(m, 1) == ((seq!['"'] + "parentUuid"@ + seq!['"', ':']) + tval_text(m, 1) + seq![','] + ((seq!['"'] + "isSidechain"@ + seq!['"', ':']) + tval_text(m, 2) + seq![','] + ((seq!['"'] + "userType"@ + seq!['"', ':']) + tval_text(m, 3) + seq![','] + ((seq!['"'] + "cwd"@ + seq!['"', ':']) + tval_text(m, 4) + seq![','] + ((seq!['"'] + "sessionId"@ + seq!['"', ':']) + tval_text(m, 5) + seq![','] + ((seq!['"'] + "version"@ + seq!['"', ':']) + tval_text(m, 6) + seq![','] + ((seq!['"'] + "gitBranch"@ + seq!['"', ':']) + tval_text(m, 7) + seq![','] + ((seq!['"'] + "type"@ + seq!['"', ':']) + tval_text(m, 8) + seq![','] + ((seq!['"'] + "message"@ + seq!['"', ':']) + tval_text(m, 9) + seq![','] + ((seq!['"'] + "uuid"@ + seq!['"', ':']) + tval_text(m, 10) + seq![','] + ((seq!['"'] + "timestamp"@ + seq!['"', ':']) + tval_text(m, 11) + seq!['}']))))))))))),
{
    assert(top_rest(m, 11) == (seq!['"'] + "timestamp"@ + seq!['"', ':']) + tval_text(m, 11) + seq!['}']);
    assert(top_rest(m, 10) == ((seq!['"'] + "uuid"@ + seq!['"', ':']) + tval_text(m, 10) + seq![','] + ((seq!['"'] + "timestamp"@ + seq!['"', ':']) + tval_text(m, 11) + seq!['}'])));
    assert(top_rest(m, 9) == ((seq!['"'] + "message"@ + seq!['"', ':']) + tval_text(m, 9) + seq![','] + ((seq!['"'] + "uuid"@ + seq!['"', ':']) + tval_text(m, 10) + seq![','] + ((seq!['"'] + "timestamp"@ + seq!['"', ':']) + tval_text(m, 11) + seq!['}']))));
    assert(top_rest(m, 8) == ((seq!['"'] + "type"@ + seq!['"', ':']) + tval_text(m, 8) + seq![','] + ((seq!['"'] + "message"@ + seq!['"', ':']) + tval_text(m, 9) + seq![','] + ((seq!['"'] + "uuid"@ + seq!['"', ':']) + tval_text(m, 10) + seq![','] + ((seq!['"'] + "timestamp"@ + seq!['"', ':']) + tval_text(m, 11) + seq!['}'])))));
    assert(top_rest(m, 7) == ((seq!['"'] + "gitBranch"@ + seq!['"', ':']) + tval_text(m, 7) + seq![','] + ((seq!['"'] + "type"@ + seq!['"', ':']) + tval_text(m, 8) + seq![','] + ((seq!['"'] + "message"@ + seq!['"', ':']) + tval_text(m, 9) + seq![','] + ((seq!['"'] + "uuid"@ + seq!['"', ':']) + tval_text(m, 10) + seq![','] + ((seq!['"'] + "timestamp"@ + seq!['"', ':']) + tval_text(m, 11) + seq!['}']))))));
    assert(top_rest(m, 6) == ((seq!['"'] + "version"@ + seq!['"', ':']) + tval_text(m, 6) + seq![','] + ((seq!['"'] + "gitBranch"@ + seq!['"', ':']) + tval_text(m, 7) + seq![','] + ((seq!['"'] + "type"@ + seq!['"', ':']) + tval_text(m, 8) + seq![','] + ((seq!['"'] + "message"@ + seq!['"', ':']) + tval_text(m, 9) + seq![','] + ((seq!['"'] + "uuid"@ + seq!['"', ':']) + tval_text(m, 10) + seq![','] + ((seq!['"'] + "timestamp"@ + seq!['"', ':']) + tval_text(m, 11) + seq!['}'])))))));
    assert(top_rest(m, 5) == ((seq!['"'] + "sessionId"@ + seq!['"', ':']) + tval_text(m, 5) + seq![','] + ((seq!['"'] + "version"@ + seq!['"', ':']) + tval_text(m, 6) + seq![','] + ((seq!['"'] + "gitBranch"@ + seq!['"', ':']) + tval_text(m, 7) + seq![','] + ((seq!['"'] + "type"@ + seq!['"', ':']) + tval_text(m, 8) + seq![','] + ((seq!['"'] + "message"@ + seq!['"', ':']) + tval_text(m, 9) + seq![','] + ((seq!['"'] + "uuid"@ + seq!['"', ':']) + tval_text(m, 10) + seq![','] + ((seq!['"'] + "timestamp"@ + seq!['"', ':']) + tval_text(m, 11) + seq!['}']))))))));
    assert(top_rest(m, 4) == ((seq!['"'] + "cwd"@ + seq!['"', ':']) + tval_text(m, 4) + seq![','] + ((seq!['"'] + "sessionId"@ + seq!['"', ':']) + tval_text(m, 5) + seq![','] + ((seq!['"'] + "version"@ + seq!['"', ':']) + tval_text(m, 6) + seq![','] + ((seq!['"'] + "gitBranch"@ + seq!['"', ':']) + tval_text(m, 7) + seq![','] + ((seq!['"'] + "type"@ + seq!['"', ':']) + tval_text(m, 8) + seq![','] + ((seq!['"'] + "message"@ + seq!['"', ':']) + tval_text(m, 9) + seq![','] + ((seq!['"'] + "uuid"@ + seq!['"', ':']) + tval_text(m, 10) + seq![','] + ((seq!['"'] + "timestamp"@ + seq!['"', ':']) + tval_text(m, 11) + seq!['}'])))))))));
    assert(top_rest(m, 3) == ((seq!['"'] + "userType"@ + seq!['"', ':']) + tval_text(m, 3) + seq![','] + ((seq!['"'] + "cwd"@ + seq!['"', ':']) + tval_text(m, 4) + seq![','] + ((seq!['"'] + "sessionId"@ + seq!['"', ':']) + tval_text(m, 5) + seq![','] + ((seq!['"'] + "version"@ + seq!['"', ':']) + tval_text(m, 6) + seq![','] + ((seq!['"'] + "gitBranch"@ + seq!['"', ':']) + tval_text(m, 7) + seq![','] + ((seq!['"'] + "type"@ + seq!['"', ':']) + tval_text(m, 8) + seq![','] + ((seq!['"'] + "message"@ + seq!['"', ':']) + tval_text(m, 9) + seq![','] + ((seq!['"'] + "uuid"@ + seq!['"', ':']) + tval_text(m, 10) + seq![','] + ((seq!['"'] + "timestamp"@ + seq!['"', ':']) + tval_text(m, 11) + seq!['}']))))))))));
    assert(top_rest(m, 2) == ((seq!['"'] + "isSidechain"@ + seq!['"', ':']) + tval_text(m, 2) + seq![','] + ((seq!['"'] + "userType"@ + seq!['"', ':']) + tval_text(m, 3) + seq![','] + ((seq!['"'] + "cwd"@ + seq!['"', ':']) + tval_text(m, 4) + seq![','] + ((seq!['"'] + "sessionId"@ + seq!['"', ':']) + tval_text(m, 5) + seq![','] + ((seq!['"'] + "version"@ + seq!['"', ':']) + tval_text(m, 6) + seq![','] + ((seq!['"'] + "gitBranch"@ + seq!['"', ':']) + tval_text(m, 7) + seq![','] + ((seq!['"'] + "type"@ + seq!['"', ':']) + tval_text(m, 8) + seq![','] + ((seq!['"'] + "message"@ + seq!['"', ':']) + tval_text(m, 9) + seq![','] + ((seq!['"'] + "uuid"@ + seq!['"', ':']) + tval_text(m, 10) + seq![','] + ((seq!['"'] + "timestamp"@ + seq!['"', ':']) + tval_text(m, 11) + seq!['}'])))))))))));
    assert(top_rest(m, 1) == ((seq!['"'] + "parentUuid"@ + seq!['"', ':']) + tval_text(m, 1) + seq![','] + ((seq!['"'] + "isSidechain"@ + seq!['"', ':']) + tval_text(m, 2) + seq![','] + ((seq!['"'] + "userType"@ + seq!['"', ':']) + tval_text(m, 3) + seq![','] + ((seq!['"'] + "cwd"@ + seq!['"', ':']) + tval_text(m, 4) + seq![','] + ((seq!['"'] + "sessionId"@ + seq!['"', ':']) + tval_text(m, 5) + seq![','] + ((seq!['"'] + "version"@ + seq!['"', ':']) + tval_text(m, 6) + seq![','] + ((seq!['"'] + "gitBranch"@ + seq!['"', ':']) + tval_text(m, 7) + seq![','] + ((seq!['"'] + "type"@ + seq!['"', ':']) + tval_text(m, 8) + seq![','] + ((seq!['"'] + "message"@ + seq!['"', ':']) + tval_text(m, 9) + seq![','] + ((seq!['"'] + "uuid"@ + seq!['"', ':']) + tval_text(m, 10) + seq![','] + ((seq!['"'] + "timestamp"@ + seq!['"', ':']) + tval_text(m, 11) + seq!['}']))))))))))));
}

#[verifier::rlimit(100)]
proof fn lemma_ha_hb(v1: Seq<char>, v2: Seq<char>, v3: Seq<char>, v4: Seq<char>, v5: Seq<char>, v6: Seq<char>, v7: Seq<char>, v8: Seq<char>, v9: Seq<char>, v10: Seq<char>, v11: Seq<char>)
    ensures
        ((seq!['"'] + "parentUuid"@ + seq!['"', ':']) + v1 + seq![','] + (seq!['"'] + "isSidechain"@ + seq!['"', ':']) + v2 + seq![','] + (seq!['"'] + "userType"@ + seq!['"', ':']) + v3 + seq![','] + (seq!['"'] + "cwd"@ + seq!['"', ':']) + v4 + seq![','] + (seq!['"'] + "sessionId"@ + seq!['"', ':']) + v5 + seq![','] + (seq!['"'] + "version"@ + seq!['"', ':']) + v6) + (seq![','] + (seq!['"'] + "gitBranch"@ + seq!['"', ':']) + v7 + seq![','] + (seq!['"'] + "type"@ + seq!['"', ':']) + v8 + seq![','] + (seq!['"'] + "message"@ + seq!['"', ':']) + v9 + seq![','] + (seq!['"'] + "uuid"@ + seq!['"', ':']) + v10 + seq![','] + (seq!['"'] + "timestamp"@ + seq!['"', ':']) + v11 + seq!['}']) == ((seq!['"'] + "parentUuid"@ + seq!['"', ':']) + v1 + seq![','] + ((seq!['"'] + "isSidechain"@ + seq!['"', ':']) + v2 + seq![','] + ((seq!['"'] + "userType"@ + seq!['"', ':']) + v3 + seq![','] + ((seq!['"'] + "cwd"@ + seq!['"', ':']) + v4 + seq![','] + ((seq!['"'] + "sessionId"@ + seq!['"', ':']) + v5 + seq![','] + ((seq!['"'] + "version"@ + seq!['"', ':']) + v6 + seq![','] + ((seq!['"'] + "gitBranch"@ + seq!['"', ':']) + v7 + seq![','] + ((seq!['"'] + "type"@ + seq!['"', ':']) + v8 + seq![','] + ((seq!['"'] + "message"@ + seq!['"', ':']) + v9 + seq![','] + ((seq!['"'] + "uuid"@ + seq!['"', ':']) + v10 + seq![','] + ((seq!['"'] + "timestamp"@ + seq!['"', ':']) + v11 + seq!['}']))))))))))),
{
    assert(((seq!['"'] + "parentUuid"@ + seq!['"', ':']) + v1 + seq![','] + (seq!['"'] + "isSidechain"@ + seq!['"', ':']) + v2 + seq![','] + (seq!['"'] + "userType"@ + seq!['"', ':']) + v3 + seq![','] + (seq!['"'] + "cwd"@ + seq!['"', ':']) + v4 + seq![','] + (seq!['"'] + "sessionId"@ + seq!['"', ':']) + v5 + seq![','] + (seq!['"'] + "version"@ + seq!['"', ':']) + v6) + (seq![','] + (seq!['"'] + "gitBranch"@ + seq!['"', ':']) + v7 + seq![','] + (seq!['"'] + "type"@ + seq!['"', ':']) + v8 + seq![','] + (seq!['"'] + "message"@ + seq!['"', ':']) + v9 + seq![','] + (seq!['"'] + "uuid"@ + seq!['"', ':']) + v10 + seq![','] + (seq!['"'] + "timestamp"@ + seq!['"', ':']) + v11 + seq!['}']) =~= ((seq!['"'] + "parentUuid"@ + seq!['"', ':']) + v1 + seq![','] + ((seq!['"'] + "isSidechain"@ + seq!['"', ':']) + v2 + seq![','] + ((seq!['"'] + "userType"@ + seq!['"', ':']) + v3 + seq![','] + ((seq!['"'] + "cwd"@ + seq!['"', ':']) + v4 + seq![','] + ((seq!['"'] + "sessionId"@ + seq!['"', ':']) + v5 + seq![','] + ((seq!['"'] + "version"@ + seq!['"', ':']) + v6 + seq![','] + ((seq!['"'] + "gitBranch"@ + seq!['"', ':']) + v7 + seq![','] + ((seq!['"'] + "type"@ + seq!['"', ':']) + v8 + seq![','] + ((seq!['"'] + "message"@ + seq!['"', ':']) + v9 + seq![','] + ((seq!['"'] + "uuid"@ + seq!['"', ':']) + v10 + seq![','] + ((seq!['"'] + "timestamp"@ + seq!['"', ':']) + v11 + seq!['}']))))))))))));
}

#[verifier::rlimit(100)]
proof fn lemma_line_flat(m: ClaudeMessageView)
    ensures
        crate::codec::encode_line_spec(m) == seq!['{'] + top_rest(m, 1),
{
    lemma_head_a_flat(m);
    lemma_head_b_flat(m);
    lemma_rest_chain(m);
    lemma_ha_hb(tval_text(m, 1), tval_text(m, 2), tval_text(m, 3), tval_text(m, 4), tval_text(m, 5), tval_text(m, 6), tval_text(m, 7), tval_text(m, 8), tval_text(m, 9), tval_text(m, 10), tval_text(m, 11));
    let ha = (seq!['"'] + "parentUuid"@ + seq!['"', ':']) + tval_text(m, 1) + seq![','] + (seq!['"'] + "isSidechain"@ + seq!['"', ':']) + tval_text(m, 2) + seq![','] + (seq!['"'] + "userType"@ + seq!['"', ':']) + tval_text(m, 3) + seq![','] + (seq!['"'] + "cwd"@ + seq!['"', ':']) + tval_text(m, 4) + seq![','] + (seq!['"'] + "sessionId"@ + seq!['"', ':']) + tval_text(m, 5) + seq![','] + (seq!['"'] + "version"@ + seq!['"', ':']) + tval_text(m, 6);
    let hb = seq![','] + (seq!['"'] + "gitBranch"@ + seq!['"', ':']) + tval_text(m, 7) + seq![','] + (seq!['"'] + "type"@ + seq!['"', ':']) + tval_text(m, 8) + seq![','] + (seq!['"'] + "message"@ + seq!['"', ':']) + tval_text(m, 9) + seq![','] + (seq!['"'] + "uuid"@ + seq!['"', ':']) + tval_text(m, 10) + seq![','] + (seq!['"'] + "timestamp"@ + seq!['"', ':']) + tval_text(m, 11) + seq!['}'];
    let pa = crate::codec::enc_head_a(m);
    let pb = crate::codec::enc_head_b(m);
    let pm = enc_msg(m.message);
    let pt = crate::codec::enc_tail(m);
    assert(crate::codec::encode_line_spec(m) == pa + pb + pm + pt);
    vstd::seq_lib::lemma_concat_associative(pa, pb, pm);
    vstd::seq_lib::lemma_concat_associative(pa, pb + pm, pt);
    assert(crate::codec::encode_line_spec(m) == pa + (pb + pm + pt));
    assert(crate::codec::encode_line_spec(m) == (seq!['{'] + ha) + hb);
    vstd::seq_lib::lemma_concat_associative(seq!['{'], ha, hb);
    assert(crate::codec::encode_line_spec(m) == seq!['{'] + (ha + hb));
    assert(crate::codec::encode_line_spec(m) == seq!['{'] + top_rest(m, 1));
}

// ---------------------------------------------------------------------------
// Every decoded message is well-formed, so the round trip reaches it.
// ---------------------------------------------------------------------------

/// A captured raw payload is a stand-alone value and is not mistakable for
/// the null literal.
proof fn lemma_parse_opt_raw_wf(s: Seq<char>, i: int)
    requires
        parse_opt_raw(s, i).is_some(),
    ensures
        match parse_opt_raw(s, i).unwrap().0 {
            None => true,
            Some(r) => valid_raw(r) && !null_prefixed(r),
        },
{
    reveal_strlit("null");
    if !lit_at(s, i, "null"@) {
        match crate::json_text::raw_scan(s, i) {
            None => {},
            Some(j) => {
                crate::json_text::lemma_raw_capture_valid(s, i);
                let r = s.subrange(i, j);
                if null_prefixed(r) {
                    assert(r.subrange(0, 4) == "null"@);
                    assert(s.subrange(i, i + 4) =~= r.subrange(0, 4)) by {
                        assert(forall|t: int| 0 <= t < 4 ==> r.subrange(0, 4)[t] == #[trigger] r[t]);
                        assert(forall|t: int| 0 <= t < r.len() ==> #[trigger] r[t] == s[i + t]);
                        assert(forall|t: int|
                            0 <= t < 4 ==> s.subrange(i, i + 4)[t] == #[trigger] s[i + t]);
                    }
                    assert(lit_at(s, i, "null"@));
                }
            },
        }
    }
}

/// Whether a payload field collected so far reads back as itself.
pub open spec fn content_slot_ok(o: Option<Option<Seq<char>>>) -> bool {
    match o {
        Some(Some(r)) => valid_raw(r) && !null_prefixed(r),
        _ => true,
    }
}

/// Reading payload members keeps the opaque payload a stand-alone value.
proof fn lemma_msg_members_wf(s: Seq<char>, i: int, acc: MsgAccView)
    requires
        0 <= i <= s.len(),
        content_slot_ok(acc.content),
        parse_msg_members(s, i, acc).is_some(),
    ensures
        content_slot_ok(parse_msg_members(s, i, acc).unwrap().0.content),
    decreases s.len() - i,
{
    reveal_strlit("role");
    reveal_strlit("content");
    let i1 = skip_ws_spec(s, i);
    match parse_string_at(s, i1) {
        None => {},
        Some((key, j1)) => {
            let j2 = skip_ws_spec(s, j1);
            if 0 <= j2 < s.len() && s[j2] == ':' {
                let j3 = skip_ws_spec(s, j2 + 1);
                match parse_msg_member_value(s, j3, key, acc) {
                    None => {},
                    Some((acc2, j4)) => {
                        assert(content_slot_ok(acc2.content)) by {
                            if key == "content"@ && !acc.content.is_some() {
                                assert(key != "role"@) by {
                                    assert("content"@.len() == 7 && "role"@.len() == 4);
                                }
                                lemma_parse_opt_raw_wf(s, j3);
                            }
                        }
                        let j5 = skip_ws_spec(s, j4);
                        if 0 <= j5 < s.len() && s[j5] == ',' {
                            if i < j5 + 1 <= s.len() {
                                lemma_msg_members_wf(s, j5 + 1, acc2);
                            }
                        }
                    },
                }
            }
        },
    }
}

/// A decoded payload object reads back as itself.
proof fn lemma_parse_msg_object_wf(s: Seq<char>, i: int)
    requires
        parse_msg_object(s, i).is_some(),
    ensures
        mc_wf(parse_msg_object(s, i).unwrap().0),
{
    if 0 <= i < s.len() && s[i] == '{' {
        let i1 = skip_ws_spec(s, i + 1);
        if !(0 <= i1 < s.len() && s[i1] == '}') {
            crate::json_text::lemma_skip_ws_bounds(s, i + 1);
            lemma_msg_members_wf(s, i1, MsgAccView::empty());
        }
    }
}

/// Whether the payload slot collected so far is a well-formed payload.
pub open spec fn message_slot_ok(o: Option<MessageContentView>) -> bool {
    match o {
        Some(mc) => mc_wf(mc),
        None => true,
    }
}

/// Reading top-level members keeps the payload well-formed.
proof fn lemma_top_members_wf(s: Seq<char>, i: int, acc: crate::codec::TopAccView)
    requires
        0 <= i <= s.len(),
        message_slot_ok(acc.message),
        crate::codec::parse_top_members(s, i, acc).is_some(),
    ensures
        message_slot_ok(crate::codec::parse_top_members(s, i, acc).unwrap().0.message),
    decreases s.len() - i,
{
    reveal_strlit("parentUuid");
    reveal_strlit("isSidechain");
    reveal_strlit("userType");
    reveal_strlit("cwd");
    reveal_strlit("sessionId");
    reveal_strlit("version");
    reveal_strlit("gitBranch");
    reveal_strlit("type");
    reveal_strlit("message");
    let i1 = skip_ws_spec(s, i);
    match parse_string_at(s, i1) {
        None => {},
        Some((key, j1)) => {
            let j2 = skip_ws_spec(s, j1);
            if 0 <= j2 < s.len() && s[j2] == ':' {
                let j3 = skip_ws_spec(s, j2 + 1);
                match crate::codec::parse_top_member_value(s, j3, key, acc) {
                    None => {},
                    Some((acc2, j4)) => {
                        assert(message_slot_ok(acc2.message)) by {
                            if key == "message"@ && !acc.message.is_some() {
                                assert("message"@.len() == 7);
                                assert("parentUuid"@.len() == 10);
                                assert("isSidechain"@.len() == 11);
                                assert("userType"@.len() == 8);
                                assert("cwd"@.len() == 3);
                                assert("sessionId"@.len() == 9);
                                assert("gitBranch"@.len() == 9);
                                assert("type"@.len() == 4);
                                assert(key != "version"@) by {
                                    assert("message"@[0] == 'm' && "version"@[0] == 'v');
                                }
                                lemma_parse_msg_object_wf(s, j3);
                            }
                        }
                        let j5 = skip_ws_spec(s, j4);
                        if 0 <= j5 < s.len() && s[j5] == ',' {
                            if i < j5 + 1 <= s.len() {
                                lemma_top_members_wf(s, j5 + 1, acc2);
                            }
                        }
                    },
                }
            }
        },
    }
}

/// Whatever the decoder accepts is well-formed: its timestamp agrees with
/// its text and its opaque payload reads back as itself. The round trip
/// therefore applies to every decoded message.
pub proof fn lemma_decoded_wf(s: Seq<char>)
    requires
        crate::codec::decode_line_spec(s).is_some(),
    ensures
        crate::codec::decode_line_spec(s).unwrap().wf(),
        mc_wf(crate::codec::decode_line_spec(s).unwrap().message),
{
    let i0 = skip_ws_spec(s, 0);
    let i1 = skip_ws_spec(s, i0 + 1);
    crate::json_text::lemma_skip_ws_bounds(s, 0);
    crate::json_text::lemma_skip_ws_bounds(s, i0 + 1);
    if !(0 <= i1 < s.len() && s[i1] == '}') {
        lemma_top_members_wf(s, i1, crate::codec::TopAccView::empty());
    }
}

/// Decoding, encoding, and decoding again is the same as decoding once.
pub proof fn lemma_decode_encode_decode(s: Seq<char>)
    requires
        crate::codec::decode_line_spec(s).is_some(),
    ensures
        crate::codec::decode_line_spec(
            crate::codec::encode_line_spec(crate::codec::decode_line_spec(s).unwrap()),
        ) == crate::codec::decode_line_spec(s),
{
    lemma_decoded_wf(s);
    lemma_decode_encode(crate::codec::decode_line_spec(s).unwrap());
}

/// Decoding the wire form of a well-formed message yields the message
/// back: the round trip through the wire format is the identity.
#[verifier::rlimit(100)]
pub proof fn lemma_decode_encode(m: ClaudeMessageView)
    requires
        m.wf(),
        mc_wf(m.message),
    ensures
        crate::codec::decode_line_spec(crate::codec::encode_line_spec(m)) == Some(m),
{
    let line = crate::codec::encode_line_spec(m);
    lemma_line_flat(m);
    assert(seg_at(line, 0, seq!['{'] + top_rest(m, 1))) by {
        assert(line.subrange(0, line.len() as int) =~= line);
    }
    lemma_seg_sub(line, 0, seq!['{'], top_rest(m, 1));
    lemma_seg_index(line, 0, seq!['{']);
    assert(line[0] == '{') by {
        assert(seq!['{'][0] == '{');
    }
    assert(skip_ws_spec(line, 0) == 0);
    lemma_seg_index(line, 1, top_rest(m, 1));
    assert(line[1] == '"') by {
        assert(top_rest(m, 1)[0] == '"') by {
            assert((seq!['"'] + tkey_name(1) + seq!['"', ':'] + tval_text(m, 1))[0] == '"');
        }
    }
    assert(skip_ws_spec(line, 1) == 1);
    lemma_top_members(line, 1, m, 1);
    assert(1 + top_rest(m, 1).len() == line.len());
    assert(skip_ws_spec(line, line.len() as int) == line.len());
    let acc = tacc_before(m, 12);
    assert(crate::codec::assemble(acc) == Some(m)) by {
        assert(crate::clock::ts_millis_of(m.timestamp.raw) == Some(m.timestamp.millis));
        let built = crate::codec::assemble(acc).unwrap();
        assert(built.timestamp == m.timestamp);
        assert(built == m);
    }
}

} // verus!
