use vstd::prelude::*;
use crate::codec::{decode_failure_kind, decode_line_chars, decode_line_spec};
use crate::errors::{DecodeError, DecodeErrorKind};
use crate::json_text::skip_ws_spec;
use crate::message::{ClaudeMessage, ClaudeMessageView};

verus! {

// ---------------------------------------------------------------------------
// Splitting a document into lines.
// ---------------------------------------------------------------------------

/// The first position at or after `i` holding a line break, or the length.
pub open spec fn find_nl(s: Seq<char>, i: int) -> int
    decreases s.len() - i when 0 <= i <= s.len()
{
    if i < s.len() {
        if s[i] == '\n' {
            i
        } else {
            find_nl(s, i + 1)
        }
    } else {
        i
    }
}

/// Searching a suffix finds the same break, shifted.
pub proof fn lemma_find_nl_sub(s: Seq<char>, a: int, i: int)
    requires
        0 <= a,
        0 <= i,
        a + i <= s.len(),
    ensures
        find_nl(s.subrange(a, s.len() as int), i) == find_nl(s, a + i) - a,
    decreases s.len() - a - i,
{
    let sub = s.subrange(a, s.len() as int);
    if i < sub.len() {
        assert(sub[i] == s[a + i]);
        if s[a + i] != '\n' {
            lemma_find_nl_sub(s, a, i + 1);
        }
    }
}

/// The lines of a document: pieces between line breaks. A final line break
/// ends the last line without starting a new one.
pub open spec fn split_lines(s: Seq<char>) -> Seq<Seq<char>>
    decreases s.len(),
{
    if s.len() == 0 {
        Seq::empty()
    } else {
        let k = find_nl(s, 0);
        if !(0 <= k && k <= s.len()) {
            Seq::empty()
        } else if k >= s.len() {
            seq![s]
        } else {
            seq![s.subrange(0, k)] + split_lines(s.subrange(k + 1, s.len() as int))
        }
    }
}

/// A line holding only whitespace, skipped by the document decoders.
pub open spec fn is_blank(line: Seq<char>) -> bool {
    skip_ws_spec(line, 0) == line.len()
}

/// The lines of a vector of line buffers, as mathematical sequences.
pub open spec fn line_views(s: Seq<Vec<char>>) -> Seq<Seq<char>> {
    s.map_values(|l: Vec<char>| l@)
}

/// The values of a sequence of numbered decode results.
pub open spec fn res_views(s: Seq<(usize, Result<ClaudeMessage, DecodeError>)>) -> Seq<
    (int, Option<ClaudeMessageView>),
> {
    s.map_values(|p: (usize, Result<ClaudeMessage, DecodeError>)| res_view(p))
}

/// The characters held between two positions.
pub fn subvec(v: &Vec<char>, from: usize, to: usize) -> (r: Vec<char>)
    requires
        from <= to <= v@.len(),
    ensures
        r@ == v@.subrange(from as int, to as int),
{
    let mut r: Vec<char> = Vec::new();
    let mut k: usize = from;
    while k < to
        invariant
            from <= k <= to <= v@.len(),
            r@ == v@.subrange(from as int, k as int),
        decreases to - k,
    {
        r.push(v[k]);
        proof {
            assert(v@.subrange(from as int, k + 1) =~= v@.subrange(from as int, k as int).push(
                v@[k as int],
            ));
        }
        k = k + 1;
    }
    r
}

/// Finds the next line break at or after `i`.
fn find_nl_exec(v: &Vec<char>, i: usize) -> (r: usize)
    requires
        i <= v@.len(),
    ensures
        r == find_nl(v@, i as int),
        i <= r <= v@.len(),
{
    let mut j: usize = i;
    while j < v.len() && v[j] != '\n'
        invariant
            i <= j <= v@.len(),
            find_nl(v@, i as int) == find_nl(v@, j as int),
        decreases v@.len() - j,
    {
        j = j + 1;
    }
    j
}

/// Splits a document into its lines.
fn split_lines_exec(v: &Vec<char>) -> (r: Vec<Vec<char>>)
    ensures
        line_views(r@) == split_lines(v@),
{
    let mut lines: Vec<Vec<char>> = Vec::new();
    let mut start: usize = 0;
    proof {
        assert(v@.subrange(0, v@.len() as int) =~= v@);
        assert(line_views(lines@) =~= Seq::<Seq<char>>::empty());
        assert(line_views(lines@) + split_lines(v@) =~= split_lines(v@));
    }
    while start < v.len()
        invariant
            start <= v@.len(),
            split_lines(v@) == line_views(lines@) + split_lines(
                v@.subrange(start as int, v@.len() as int),
            ),
        decreases v@.len() - start,
    {
        let k = find_nl_exec(v, start);
        proof {
            lemma_find_nl_sub(v@, start as int, 0);
        }
        let ghost suffix = v@.subrange(start as int, v@.len() as int);
        if k >= v.len() {
            let line = subvec(v, start, v.len());
            lines.push(line);
            proof {
                assert(suffix.len() > 0);
                assert(find_nl(suffix, 0) >= suffix.len());
                assert(split_lines(suffix) =~= seq![suffix]);
                assert(line_views(lines@) =~= line_views(lines@.drop_last()).push(suffix));
                assert(split_lines(v@) =~= line_views(lines@) + split_lines(
                    v@.subrange(v@.len() as int, v@.len() as int),
                ));
            }
            start = v.len();
        } else {
            let line = subvec(v, start, k);
            lines.push(line);
            proof {
                assert(suffix.len() > 0);
                assert(find_nl(suffix, 0) == k - start < suffix.len());
                assert(suffix.subrange(0, k - start) =~= v@.subrange(start as int, k as int));
                assert(suffix.subrange(k - start + 1, suffix.len() as int) =~= v@.subrange(
                    k + 1,
                    v@.len() as int,
                ));
                assert(split_lines(suffix) =~= seq![v@.subrange(start as int, k as int)]
                    + split_lines(v@.subrange(k + 1, v@.len() as int)));
                assert(line_views(lines@) =~= line_views(lines@.drop_last()).push(
                    v@.subrange(start as int, k as int),
                ));
                assert(split_lines(v@) =~= line_views(lines@) + split_lines(
                    v@.subrange(k + 1, v@.len() as int),
                ));
            }
            start = k + 1;
        }
    }
    proof {
        assert(split_lines(v@.subrange(start as int, v@.len() as int)) =~= Seq::<Seq<char>>::empty());
        assert(split_lines(v@) =~= line_views(lines@));
    }
    lines
}

/// Whether a line holds only whitespace.
fn is_blank_exec(line: &Vec<char>) -> (r: bool)
    ensures
        r == is_blank(line@),
{
    let j = crate::json_text::skip_ws(line, 0);
    j == line.len()
}

// ---------------------------------------------------------------------------
// The collect-all decoding of a document.
// ---------------------------------------------------------------------------

/// The collect-all reading of the lines from index `i` on: for every
/// non-blank line, its 1-based number paired with what it decodes to.
pub open spec fn collect_go(lines: Seq<Seq<char>>, i: int) -> Seq<(int, Option<ClaudeMessageView>)>
    decreases lines.len() - i when 0 <= i <= lines.len()
{
    if i >= lines.len() {
        Seq::empty()
    } else if is_blank(lines[i]) {
        collect_go(lines, i + 1)
    } else {
        seq![(i + 1, decode_line_spec(lines[i]))] + collect_go(lines, i + 1)
    }
}

/// The collect-all reading of a whole document.
pub open spec fn collect_spec(s: Seq<char>) -> Seq<(int, Option<ClaudeMessageView>)> {
    collect_go(split_lines(s), 0)
}

/// The number of non-blank lines from index `i` on.
pub open spec fn count_non_blank(lines: Seq<Seq<char>>, i: int) -> int
    decreases lines.len() - i when 0 <= i <= lines.len()
{
    if i >= lines.len() {
        0
    } else if is_blank(lines[i]) {
        count_non_blank(lines, i + 1)
    } else {
        1 + count_non_blank(lines, i + 1)
    }
}

/// The number of non-blank lines from index `i` on that do not decode.
pub open spec fn count_errors(lines: Seq<Seq<char>>, i: int) -> int
    decreases lines.len() - i when 0 <= i <= lines.len()
{
    if i >= lines.len() {
        0
    } else if is_blank(lines[i]) {
        count_errors(lines, i + 1)
    } else if decode_line_spec(lines[i]).is_none() {
        1 + count_errors(lines, i + 1)
    } else {
        count_errors(lines, i + 1)
    }
}

/// The number of entries of the collect-all reading holding an error.
pub open spec fn none_count(c: Seq<(int, Option<ClaudeMessageView>)>) -> int
    decreases c.len(),
{
    if c.len() == 0 {
        0
    } else {
        (if c[0].1.is_none() {
            1int
        } else {
            0int
        }) + none_count(c.drop_first())
    }
}

proof fn lemma_none_count_add(a: Seq<(int, Option<ClaudeMessageView>)>, b: Seq<
    (int, Option<ClaudeMessageView>),
>)
    ensures
        none_count(a + b) == none_count(a) + none_count(b),
    decreases a.len(),
{
    if a.len() == 0 {
        assert(a + b =~= b);
    } else {
        assert((a + b).drop_first() =~= a.drop_first() + b);
        lemma_none_count_add(a.drop_first(), b);
    }
}

/// Of a document of N lines of which B are blank and K are malformed, the
/// collect-all reading holds exactly N - B entries, with line numbers in
/// original positions, and exactly K of them are errors.
pub proof fn lemma_collect_counts(lines: Seq<Seq<char>>, i: int)
    requires
        0 <= i <= lines.len(),
    ensures
        collect_go(lines, i).len() == count_non_blank(lines, i),
        none_count(collect_go(lines, i)) == count_errors(lines, i),
        forall|k: int|
            0 <= k < collect_go(lines, i).len() ==> {
                let p = #[trigger] collect_go(lines, i)[k];
                &&& i + 1 <= p.0 <= lines.len()
                &&& !is_blank(lines[p.0 - 1])
                &&& p.1 == decode_line_spec(lines[p.0 - 1])
            },
    decreases lines.len() - i,
{
    if i >= lines.len() {
    } else if is_blank(lines[i]) {
        lemma_collect_counts(lines, i + 1);
    } else {
        lemma_collect_counts(lines, i + 1);
        let head = seq![(i + 1, decode_line_spec(lines[i]))];
        let rest = collect_go(lines, i + 1);
        let c = collect_go(lines, i);
        lemma_none_count_add(head, rest);
        assert(head.drop_first() =~= Seq::<(int, Option<ClaudeMessageView>)>::empty());
        assert(c == head + rest);
        assert(head[0] == (i + 1, decode_line_spec(lines[i])));
        assert(none_count(Seq::<(int, Option<ClaudeMessageView>)>::empty()) == 0);
        assert(none_count(head) == if decode_line_spec(lines[i]).is_none() {
            1int
        } else {
            0int
        });
        assert(none_count(c) == none_count(head) + count_errors(lines, i + 1));
        assert forall|k: int| 0 <= k < c.len() implies {
            let p = #[trigger] c[k];
            &&& i + 1 <= p.0 <= lines.len()
            &&& !is_blank(lines[p.0 - 1])
            &&& p.1 == decode_line_spec(lines[p.0 - 1])
        } by {
            if k == 0 {
                assert(c[0] == head[0]);
            } else {
                assert(c[k] == rest[k - 1]);
            }
        }
    }
}

/// The value of one collect-all entry.
pub open spec fn res_view(p: (usize, Result<ClaudeMessage, DecodeError>)) -> (
    int,
    Option<ClaudeMessageView>,
) {
    (
        p.0 as int,
        match p.1 {
            Ok(m) => Some(m@),
            Err(_) => None,
        },
    )
}

/// The index of the first entry holding an error, or the length.
pub open spec fn first_none(c: Seq<(int, Option<ClaudeMessageView>)>, i: int) -> int
    decreases c.len() - i when 0 <= i <= c.len()
{
    if i >= c.len() {
        i
    } else if c[i].1.is_none() {
        i
    } else {
        first_none(c, i + 1)
    }
}

// ---------------------------------------------------------------------------
// The line-oriented decoder.
// ---------------------------------------------------------------------------

/// The line-oriented message decoder: one wire object per line, blank lines
/// skipped.
pub struct JsonlParser;

impl JsonlParser {
    pub fn new() -> (r: Self) {
        JsonlParser
    }

    /// Decodes one line of wire text; fails exactly where the text is not a
    /// well-formed message.
    pub fn parse_single_message(&self, json_str: &str) -> (r: Result<ClaudeMessage, DecodeError>)
        ensures
            r.is_ok() <==> decode_line_spec(json_str@).is_some(),
            r.is_ok() ==> decode_line_spec(json_str@) == Some(r.unwrap()@),
            r.is_err() ==> r.unwrap_err() == (DecodeError {
                line: 1,
                kind: decode_failure_kind(json_str@),
            }),
    {
        let v = crate::json_text::str_to_chars(json_str);
        match decode_line_chars(&v) {
            Ok(m) => Ok(m),
            Err(kind) => Err(DecodeError { line: 1, kind }),
        }
    }

    /// The collect-all reading of a document: for every non-blank line, in
    /// order, its 1-based line number paired with what it decodes to.
    pub fn parse_multiple_messages_skip_errors(&self, jsonl_content: &str) -> (r: Vec<
        (usize, Result<ClaudeMessage, DecodeError>),
    >)
        ensures
            res_views(r@) == collect_spec(jsonl_content@),
            forall|k: int|
                0 <= k < r@.len() ==> match (#[trigger] r@[k]).1 {
                    Ok(_) => true,
                    Err(e) => {
                        &&& 1 <= r@[k].0 <= split_lines(jsonl_content@).len()
                        &&& e.line == r@[k].0
                        &&& e.kind == decode_failure_kind(
                            split_lines(jsonl_content@)[r@[k].0 - 1],
                        )
                    },
                },
    {
        let v = crate::json_text::str_to_chars(jsonl_content);
        let lines = split_lines_exec(&v);
        let ghost lv = line_views(lines@);
        let mut res: Vec<(usize, Result<ClaudeMessage, DecodeError>)> = Vec::new();
        let mut i: usize = 0;
        while i < lines.len()
            invariant
                i <= lines@.len(),
                lv == line_views(lines@),
                collect_go(lv, 0) == res_views(res@) + collect_go(lv, i as int),
                forall|k: int|
                    0 <= k < res@.len() ==> match (#[trigger] res@[k]).1 {
                        Ok(_) => true,
                        Err(e) => {
                            &&& 1 <= res@[k].0 <= lv.len()
                            &&& e.line == res@[k].0
                            &&& e.kind == decode_failure_kind(lv[res@[k].0 - 1])
                        },
                    },
            decreases lines@.len() - i,
        {
            proof {
                assert(lv[i as int] == lines@[i as int]@);
            }
            let line = &lines[i];
            if !is_blank_exec(line) {
                let entry: (usize, Result<ClaudeMessage, DecodeError>) = match decode_line_chars(
                    line,
                ) {
                    Ok(m) => (i + 1, Ok(m)),
                    Err(kind) => {
                        proof {
                            assert(kind == decode_failure_kind(lv[i as int]));
                        }
                        (i + 1, Err(DecodeError { line: i + 1, kind }))
                    },
                };
                proof {
                    assert(collect_go(lv, i as int) == seq![
                        (i + 1 as int, decode_line_spec(lv[i as int])),
                    ] + collect_go(lv, i + 1));
                    assert(res_view(entry) == (i + 1 as int, decode_line_spec(lv[i as int])));
                }
                let ghost res_old = res@;
                res.push(entry);
                proof {
                    assert(res_views(res@) =~= res_views(res_old).push(res_view(entry)));
                    assert(res_views(res_old) + (seq![
                        (i + 1 as int, decode_line_spec(lv[i as int])),
                    ] + collect_go(lv, i + 1)) =~= res_views(res@) + collect_go(lv, i + 1));
                }
            }
            i = i + 1;
        }
        proof {
            assert(collect_go(lv, lines@.len() as int) =~= Seq::<
                (int, Option<ClaudeMessageView>),
            >::empty());
            assert(collect_go(lv, 0) =~= res_views(res@));
        }
        res
    }

    /// The fail-fast reading of a document: all non-blank lines decoded in
    /// order, or the first failure, carrying its 1-based line number.
    pub fn parse_multiple_messages(&self, jsonl_content: &str) -> (r: Result<
        Vec<ClaudeMessage>,
        DecodeError,
    >)
        ensures
            ({
                let c = collect_spec(jsonl_content@);
                &&& (r.is_ok() <==> first_none(c, 0) == c.len())
                &&& (r.is_ok() ==> r.unwrap()@.len() == c.len() && forall|k: int|
                    0 <= k < c.len() ==> Some(#[trigger] r.unwrap()@[k]@) == c[k].1)
                &&& (r.is_err() ==> {
                    let b = first_none(c, 0);
                    &&& 0 <= b < c.len()
                    &&& 1 <= c[b].0 <= split_lines(jsonl_content@).len()
                    &&& r.unwrap_err().line == c[b].0
                    &&& r.unwrap_err().kind == decode_failure_kind(
                        split_lines(jsonl_content@)[c[b].0 - 1],
                    )
                })
            }),
    {
        let ghost c = collect_spec(jsonl_content@);
        let results = self.parse_multiple_messages_skip_errors(jsonl_content);
        let mut out: Vec<ClaudeMessage> = Vec::new();
        let mut j: usize = 0;
        while j < results.len()
            invariant
                j <= results@.len(),
                c == res_views(results@),
                c == collect_spec(jsonl_content@),
                forall|k: int|
                    0 <= k < results@.len() ==> match (#[trigger] results@[k]).1 {
                        Ok(_) => true,
                        Err(e) => {
                            &&& 1 <= results@[k].0 <= split_lines(jsonl_content@).len()
                            &&& e.line == results@[k].0
                            &&& e.kind == decode_failure_kind(
                                split_lines(jsonl_content@)[results@[k].0 - 1],
                            )
                        },
                    },
                out@.len() == j,
                forall|k: int| 0 <= k < j ==> Some(#[trigger] out@[k]@) == c[k].1,
                first_none(c, 0) == first_none(c, j as int),
            decreases results@.len() - j,
        {
            proof {
                assert(c[j as int] == res_view(results@[j as int]));
            }
            let entry = &results[j];
            match &entry.1 {
                Ok(m) => {
                    out.push(m.duplicate());
                },
                Err(e) => {
                    proof {
                        assert(first_none(c, j as int) == j);
                    }
                    return Err(e.duplicate());
                },
            }
            j = j + 1;
        }
        proof {
            assert(first_none(c, results@.len() as int) == c.len());
        }
        Ok(out)
    }
}

} // verus!
