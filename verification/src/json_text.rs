use vstd::prelude::*;
use crate::text::push_char;

verus! {

/// Structural whitespace of the wire format.
pub open spec fn is_ws(c: char) -> bool {
    c == ' ' || c == '\t' || c == '\n' || c == '\r'
}

/// A character that ends a raw value at nesting depth zero.
pub open spec fn is_delim(c: char) -> bool {
    c == ',' || c == '}' || c == ']'
}

/// The first position at or after `i` holding a non-whitespace character.
pub open spec fn skip_ws_spec(s: Seq<char>, i: int) -> int
    decreases s.len() - i when 0 <= i <= s.len()
{
    if 0 <= i < s.len() && is_ws(s[i]) {
        skip_ws_spec(s, i + 1)
    } else {
        i
    }
}

pub proof fn lemma_skip_ws_bounds(s: Seq<char>, i: int)
    requires
        0 <= i <= s.len(),
    ensures
        i <= skip_ws_spec(s, i) <= s.len(),
        skip_ws_spec(s, i) < s.len() ==> !is_ws(s[skip_ws_spec(s, i)]),
    decreases s.len() - i,
{
    if i < s.len() && is_ws(s[i]) {
        lemma_skip_ws_bounds(s, i + 1);
    }
}

/// The numeric value of a hexadecimal digit character.
pub open spec fn hex_val(c: char) -> Option<u32> {
    if '0' <= c && c <= '9' {
        Some(((c as u32) - ('0' as u32)) as u32)
    } else if 'a' <= c && c <= 'f' {
        Some(((c as u32) - ('a' as u32) + 10) as u32)
    } else if 'A' <= c && c <= 'F' {
        Some(((c as u32) - ('A' as u32) + 10) as u32)
    } else {
        None
    }
}

/// The lowercase hexadecimal digit for a value below 16.
pub open spec fn hex_digit(n: u32) -> char {
    if n < 10 {
        ((('0' as u32) + n) as u32) as char
    } else {
        ((('a' as u32) + (n - 10)) as u32) as char
    }
}

pub proof fn lemma_hex_digit_val(n: u32)
    requires
        n < 16,
    ensures
        hex_val(hex_digit(n)) == Some(n),
        (hex_digit(n) as u32) < 0x80,
{
}

/// The value of four hexadecimal digits at `i`, or `None`.
pub open spec fn hex4(s: Seq<char>, i: int) -> Option<u32> {
    if 0 <= i && i + 4 <= s.len() {
        match (hex_val(s[i]), hex_val(s[i + 1]), hex_val(s[i + 2]), hex_val(s[i + 3])) {
            (Some(a), Some(b), Some(c), Some(d)) => Some((a * 0x1000 + b * 0x100 + c * 0x10 + d) as u32),
            _ => None,
        }
    } else {
        None
    }
}

/// Reads the body of a quoted string from position `i` (just past the opening
/// quote) to its closing quote, resolving escape sequences; `acc` holds the
/// characters read so far. Returns the text and the position just past the
/// closing quote.
pub open spec fn parse_str_go(s: Seq<char>, i: int, acc: Seq<char>) -> Option<(Seq<char>, int)>
    decreases s.len() - i when 0 <= i <= s.len()
{
    if i < 0 || i >= s.len() {
        None
    } else if s[i] == '"' {
        Some((acc, i + 1))
    } else if s[i] == '\\' {
        if i + 2 > s.len() {
            None
        } else {
            let e = s[i + 1];
            if e == '"' {
                parse_str_go(s, i + 2, acc.push('"'))
            } else if e == '\\' {
                parse_str_go(s, i + 2, acc.push('\\'))
            } else if e == '/' {
                parse_str_go(s, i + 2, acc.push('/'))
            } else if e == 'b' {
                parse_str_go(s, i + 2, acc.push('\u{0008}'))
            } else if e == 'f' {
                parse_str_go(s, i + 2, acc.push('\u{000c}'))
            } else if e == 'n' {
                parse_str_go(s, i + 2, acc.push('\n'))
            } else if e == 'r' {
                parse_str_go(s, i + 2, acc.push('\r'))
            } else if e == 't' {
                parse_str_go(s, i + 2, acc.push('\t'))
            } else if e == 'u' {
                match hex4(s, i + 2) {
                    None => None,
                    Some(u) => {
                        if 0xD800 <= u && u <= 0xDBFF {
                            // A high surrogate must pair with a low one.
                            if i + 12 <= s.len() && s[i + 6] == '\\' && s[i + 7] == 'u' {
                                match hex4(s, i + 8) {
                                    None => None,
                                    Some(l) => {
                                        if 0xDC00 <= l && l <= 0xDFFF {
                                            let code = (0x10000 + (u - 0xD800) * 0x400 + (l - 0xDC00)) as u32;
                                            parse_str_go(s, i + 12, acc.push(code as char))
                                        } else {
                                            None
                                        }
                                    },
                                }
                            } else {
                                None
                            }
                        } else if 0xDC00 <= u && u <= 0xDFFF {
                            None
                        } else {
                            parse_str_go(s, i + 6, acc.push(u as char))
                        }
                    },
                }
            } else {
                None
            }
        }
    } else if (s[i] as u32) < 0x20 {
        None
    } else {
        parse_str_go(s, i + 1, acc.push(s[i]))
    }
}

/// Reads a quoted string whose opening quote stands at `i`.
pub open spec fn parse_string_at(s: Seq<char>, i: int) -> Option<(Seq<char>, int)> {
    if 0 <= i < s.len() && s[i] == '"' {
        parse_str_go(s, i + 1, Seq::empty())
    } else {
        None
    }
}

/// The escaped wire form of one character inside a quoted string.
pub open spec fn esc_char(c: char) -> Seq<char> {
    if c == '"' {
        seq!['\\', '"']
    } else if c == '\\' {
        seq!['\\', '\\']
    } else if (c as u32) < 0x20 {
        seq!['\\', 'u', '0', '0', hex_digit(((c as u32) / 16) as u32), hex_digit(((c as u32) % 16) as u32)]
    } else {
        seq![c]
    }
}

/// The escaped wire form of a whole string body, without the quotes.
pub open spec fn esc_seq(s: Seq<char>) -> Seq<char>
    decreases s.len(),
{
    if s.len() == 0 {
        Seq::empty()
    } else {
        esc_char(s[0]) + esc_seq(s.drop_first())
    }
}

pub proof fn lemma_esc_seq_push(s: Seq<char>, c: char)
    ensures
        esc_seq(s.push(c)) == esc_seq(s) + esc_char(c),
    decreases s.len(),
{
    let t = s.push(c);
    if s.len() == 0 {
        assert(t[0] == c);
        assert(t.drop_first() =~= Seq::<char>::empty());
        assert(esc_seq(t) == esc_char(c) + esc_seq(Seq::<char>::empty()));
        assert(esc_seq(t) =~= esc_seq(s) + esc_char(c));
    } else {
        assert(t[0] == s[0]);
        assert(t.drop_first() =~= s.drop_first().push(c));
        lemma_esc_seq_push(s.drop_first(), c);
        assert(esc_seq(t) == esc_char(s[0]) + (esc_seq(s.drop_first()) + esc_char(c)));
        assert(esc_seq(t) =~= esc_seq(s) + esc_char(c));
    }
}

/// One step of the raw-value scanner: the nesting state after reading `c`.
/// `None` means a closing bracket with nothing open.
pub open spec fn scan_step(d: nat, instr: bool, esc: bool, c: char) -> Option<(nat, bool, bool)> {
    if esc {
        Some((d, instr, false))
    } else if instr {
        if c == '"' {
            Some((d, false, false))
        } else if c == '\\' {
            Some((d, true, true))
        } else {
            Some((d, true, false))
        }
    } else {
        if c == '{' || c == '[' {
            Some(((d + 1) as nat, false, false))
        } else if c == '}' || c == ']' {
            if d == 0 {
                None
            } else {
                Some(((d - 1) as nat, false, false))
            }
        } else if c == '"' {
            Some((d, true, false))
        } else {
            Some((d, false, false))
        }
    }
}

/// Scans forward from `i` with the given nesting state until a delimiter or
/// the end of input is reached at depth zero outside any string; returns that
/// position.
pub open spec fn raw_scan_go(s: Seq<char>, i: int, d: nat, instr: bool, esc: bool) -> Option<int>
    decreases s.len() - i when 0 <= i <= s.len()
{
    if i < 0 {
        None
    } else if d == 0 && !instr && !esc && (i >= s.len() || is_delim(s[i])) {
        Some(i)
    } else if i >= s.len() {
        None
    } else {
        match scan_step(d, instr, esc, s[i]) {
            None => None,
            Some((d2, s2, e2)) => raw_scan_go(s, i + 1, d2, s2, e2),
        }
    }
}

/// The end position of the raw value that starts at `i`: the value's text is
/// `s[i .. end]`. The value must be at least one character and must not start
/// with whitespace or a delimiter.
pub open spec fn raw_scan(s: Seq<char>, i: int) -> Option<int> {
    if 0 <= i < s.len() && !is_delim(s[i]) && !is_ws(s[i]) && s[i] != ':' {
        match scan_step(0, false, false, s[i]) {
            None => None,
            Some((d2, s2, e2)) => raw_scan_go(s, i + 1, d2, s2, e2),
        }
    } else {
        None
    }
}

/// A stand-alone piece of text that the raw scanner consumes whole: the shape
/// every stored opaque payload has.
pub open spec fn valid_raw(r: Seq<char>) -> bool {
    raw_scan(r, 0) == Some(r.len() as int)
}

pub proof fn lemma_scan_go_bounds(s: Seq<char>, i: int, d: nat, instr: bool, esc: bool)
    requires
        0 <= i <= s.len(),
        raw_scan_go(s, i, d, instr, esc).is_some(),
    ensures
        i <= raw_scan_go(s, i, d, instr, esc).unwrap() <= s.len(),
    decreases s.len() - i,
{
    if d == 0 && !instr && !esc && (i >= s.len() || is_delim(s[i])) {
    } else if i < s.len() {
        match scan_step(d, instr, esc, s[i]) {
            None => {},
            Some((d2, s2, e2)) => {
                lemma_scan_go_bounds(s, i + 1, d2, s2, e2);
            },
        }
    }
}

/// The characters of a piece of text, as a vector.
pub fn str_to_chars(s: &str) -> (r: Vec<char>)
    ensures
        r@ == s@,
{
    let n = s.unicode_len();
    let mut r: Vec<char> = Vec::new();
    let mut k: usize = 0;
    while k < n
        invariant
            k <= n,
            n == s@.len(),
            r@ == s@.subrange(0, k as int),
        decreases n - k,
    {
        r.push(s.get_char(k));
        proof {
            assert(s@.subrange(0, k + 1) =~= s@.subrange(0, k as int).push(s@[k as int]));
        }
        k = k + 1;
    }
    proof {
        assert(s@.subrange(0, n as int) =~= s@);
    }
    r
}

/// The text held between two positions of a character vector.
pub fn chars_to_string(v: &Vec<char>, from: usize, to: usize) -> (r: String)
    requires
        from <= to <= v@.len(),
    ensures
        r@ == v@.subrange(from as int, to as int),
{
    let mut r = String::new();
    let mut k: usize = from;
    while k < to
        invariant
            from <= k <= to <= v@.len(),
            r@ == v@.subrange(from as int, k as int),
        decreases to - k,
    {
        push_char(&mut r, v[k]);
        proof {
            assert(v@.subrange(from as int, k + 1) =~= v@.subrange(from as int, k as int).push(
                v@[k as int],
            ));
        }
        k = k + 1;
    }
    r
}

pub fn is_ws_exec(c: char) -> (r: bool)
    ensures
        r == is_ws(c),
{
    c == ' ' || c == '\t' || c == '\n' || c == '\r'
}

pub fn is_delim_exec(c: char) -> (r: bool)
    ensures
        r == is_delim(c),
{
    c == ',' || c == '}' || c == ']'
}

/// Advances past structural whitespace.
pub fn skip_ws(v: &Vec<char>, i: usize) -> (r: usize)
    requires
        i <= v@.len(),
    ensures
        r == skip_ws_spec(v@, i as int),
        i <= r <= v@.len(),
{
    let mut j: usize = i;
    while j < v.len() && is_ws_exec(v[j])
        invariant
            i <= j <= v@.len(),
            skip_ws_spec(v@, i as int) == skip_ws_spec(v@, j as int),
        decreases v@.len() - j,
    {
        j = j + 1;
    }
    j
}

pub fn hex_val_exec(c: char) -> (r: Option<u32>)
    ensures
        r == hex_val(c),
{
    if '0' <= c && c <= '9' {
        Some((c as u32) - ('0' as u32))
    } else if 'a' <= c && c <= 'f' {
        Some((c as u32) - ('a' as u32) + 10)
    } else if 'A' <= c && c <= 'F' {
        Some((c as u32) - ('A' as u32) + 10)
    } else {
        None
    }
}

pub fn hex4_exec(v: &Vec<char>, i: usize) -> (r: Option<u32>)
    requires
        i <= v@.len(),
    ensures
        r == hex4(v@, i as int),
{
    if v.len() - i < 4 {
        return None;
    }
    match (hex_val_exec(v[i]), hex_val_exec(v[i + 1]), hex_val_exec(v[i + 2]), hex_val_exec(
        v[i + 3],
    )) {
        (Some(a), Some(b), Some(c), Some(d)) => Some(a * 0x1000 + b * 0x100 + c * 0x10 + d),
        _ => None,
    }
}

/// Reads the quoted string whose opening quote stands at `i`; returns the
/// unescaped text and the position just past the closing quote.
pub fn parse_string_exec(v: &Vec<char>, i: usize) -> (r: Option<(String, usize)>)
    requires
        i <= v@.len(),
    ensures
        r.is_some() <==> parse_string_at(v@, i as int).is_some(),
        r.is_some() ==> parse_string_at(v@, i as int) == Some(
            (r.unwrap().0@, r.unwrap().1 as int),
        ),
        r.is_some() ==> i < r.unwrap().1 <= v@.len(),
{
    if !(i < v.len() && v[i] == '"') {
        return None;
    }
    let mut j: usize = i + 1;
    let mut acc = String::new();
    loop
        invariant
            i + 1 <= j <= v@.len(),
            parse_string_at(v@, i as int) == parse_str_go(v@, j as int, acc@),
        decreases v@.len() - j,
    {
        if j >= v.len() {
            return None;
        }
        let c = v[j];
        if c == '"' {
            return Some((acc, j + 1));
        } else if c == '\\' {
            if j + 1 >= v.len() {
                return None;
            }
            let e = v[j + 1];
            if e == '"' {
                push_char(&mut acc, '"');
                j = j + 2;
            } else if e == '\\' {
                push_char(&mut acc, '\\');
                j = j + 2;
            } else if e == '/' {
                push_char(&mut acc, '/');
                j = j + 2;
            } else if e == 'b' {
                push_char(&mut acc, '\u{0008}');
                j = j + 2;
            } else if e == 'f' {
                push_char(&mut acc, '\u{000c}');
                j = j + 2;
            } else if e == 'n' {
                push_char(&mut acc, '\n');
                j = j + 2;
            } else if e == 'r' {
                push_char(&mut acc, '\r');
                j = j + 2;
            } else if e == 't' {
                push_char(&mut acc, '\t');
                j = j + 2;
            } else if e == 'u' {
                let u_opt = hex4_exec(v, j + 2);
                match u_opt {
                    None => {
                        return None;
                    },
                    Some(u) => {
                        if 0xD800 <= u && u <= 0xDBFF {
                            if v.len() >= 12 && j <= v.len() - 12 && v[j + 6] == '\\' && v[j + 7]
                                == 'u' {
                                let l_opt = hex4_exec(v, j + 8);
                                match l_opt {
                                    None => {
                                        return None;
                                    },
                                    Some(l) => {
                                        if 0xDC00 <= l && l <= 0xDFFF {
                                            let code: u32 = 0x10000 + (u - 0xD800) * 0x400 + (l
                                                - 0xDC00);
                                            proof {
                                                assert(crate::text::is_unicode_scalar(code));
                                            }
                                            match char::from_u32(code) {
                                                Some(ch) => {
                                                    push_char(&mut acc, ch);
                                                    j = j + 12;
                                                },
                                                None => {
                                                    proof {
                                                        assert(false);
                                                    }
                                                    return None;
                                                },
                                            }
                                        } else {
                                            return None;
                                        }
                                    },
                                }
                            } else {
                                return None;
                            }
                        } else if 0xDC00 <= u && u <= 0xDFFF {
                            return None;
                        } else {
                            proof {
                                assert(crate::text::is_unicode_scalar(u));
                            }
                            match char::from_u32(u) {
                                Some(ch) => {
                                    push_char(&mut acc, ch);
                                    j = j + 6;
                                },
                                None => {
                                    proof {
                                        assert(false);
                                    }
                                    return None;
                                },
                            }
                        }
                    },
                }
            } else {
                return None;
            }
        } else if (c as u32) < 0x20 {
            return None;
        } else {
            push_char(&mut acc, c);
            j = j + 1;
        }
    }
}

pub fn hex_digit_exec(n: u32) -> (r: char)
    requires
        n < 16,
    ensures
        r == hex_digit(n),
{
    let b: u8 = if n < 10 {
        48 + (n as u8)
    } else {
        87 + (n as u8)
    };
    b as char
}

/// Appends the escaped wire form of `s` onto `out`.
pub fn escape_into(out: &mut String, s: &str)
    ensures
        final(out)@ == old(out)@ + esc_seq(s@),
{
    let n = s.unicode_len();
    let mut k: usize = 0;
    while k < n
        invariant
            k <= n,
            n == s@.len(),
            out@ == old(out)@ + esc_seq(s@.subrange(0, k as int)),
        decreases n - k,
    {
        let c = s.get_char(k);
        proof {
            lemma_esc_seq_push(s@.subrange(0, k as int), c);
            assert(s@.subrange(0, k + 1) =~= s@.subrange(0, k as int).push(c));
        }
        if c == '"' {
            out.append("\\\"");
            proof {
                reveal_strlit("\\\"");
                assert(out@ =~= old(out)@ + esc_seq(s@.subrange(0, k + 1)));
            }
        } else if c == '\\' {
            out.append("\\\\");
            proof {
                reveal_strlit("\\\\");
                assert(out@ =~= old(out)@ + esc_seq(s@.subrange(0, k + 1)));
            }
        } else if (c as u32) < 0x20 {
            out.append("\\u00");
            push_char(out, hex_digit_exec((c as u32) / 16));
            push_char(out, hex_digit_exec((c as u32) % 16));
            proof {
                reveal_strlit("\\u00");
                assert(out@ =~= old(out)@ + esc_seq(s@.subrange(0, k + 1)));
            }
        } else {
            push_char(out, c);
            proof {
                assert(out@ =~= old(out)@ + esc_seq(s@.subrange(0, k + 1)));
            }
        }
        k = k + 1;
    }
    proof {
        assert(s@.subrange(0, n as int) =~= s@);
    }
}

pub fn scan_step_exec(d: usize, instr: bool, esc: bool, c: char) -> (r: Option<(usize, bool, bool)>)
    requires
        d < usize::MAX,
    ensures
        r.is_some() <==> scan_step(d as nat, instr, esc, c).is_some(),
        r.is_some() ==> {
            let (d2, s2, e2) = r.unwrap();
            scan_step(d as nat, instr, esc, c) == Some((d2 as nat, s2, e2))
        },
{
    if esc {
        Some((d, instr, false))
    } else if instr {
        if c == '"' {
            Some((d, false, false))
        } else if c == '\\' {
            Some((d, true, true))
        } else {
            Some((d, true, false))
        }
    } else {
        if c == '{' || c == '[' {
            Some((d + 1, false, false))
        } else if c == '}' || c == ']' {
            if d == 0 {
                None
            } else {
                Some((d - 1, false, false))
            }
        } else if c == '"' {
            Some((d, true, false))
        } else {
            Some((d, false, false))
        }
    }
}

/// Finds the end of the raw value that starts at `i`.
pub fn raw_scan_exec(v: &Vec<char>, i: usize) -> (r: Option<usize>)
    ensures
        r.is_some() <==> raw_scan(v@, i as int).is_some(),
        r.is_some() ==> raw_scan(v@, i as int) == Some(r.unwrap() as int),
        r.is_some() ==> i < r.unwrap() <= v@.len(),
{
    if !(i < v.len()) {
        return None;
    }
    let c0 = v[i];
    if is_delim_exec(c0) || is_ws_exec(c0) || c0 == ':' {
        return None;
    }
    let first = scan_step_exec(0, false, false, c0);
    match first {
        None => None,
        Some((mut d, mut instr, mut esc)) => {
            let mut j: usize = i + 1;
            loop
                invariant
                    i + 1 <= j <= v@.len(),
                    d <= j,
                    raw_scan(v@, i as int) == raw_scan_go(v@, j as int, d as nat, instr, esc),
                decreases v@.len() - j,
            {
                if d == 0 && !instr && !esc && (j >= v.len() || is_delim_exec(v[j])) {
                    return Some(j);
                }
                if j >= v.len() {
                    return None;
                }
                match scan_step_exec(d, instr, esc, v[j]) {
                    None => {
                        return None;
                    },
                    Some((d2, s2, e2)) => {
                        d = d2;
                        instr = s2;
                        esc = e2;
                        j = j + 1;
                    },
                }
            }
        },
    }
}

/// A character that needs no escaping inside a quoted string.
pub open spec fn is_plain(c: char) -> bool {
    c != '"' && c != '\\' && (c as u32) >= 0x20
}

/// Escaping leaves escape-free text unchanged.
pub proof fn lemma_esc_plain(s: Seq<char>)
    requires
        forall|t: int| 0 <= t < s.len() ==> is_plain(#[trigger] s[t]),
    ensures
        esc_seq(s) == s,
    decreases s.len(),
{
    if s.len() > 0 {
        assert(is_plain(s[0]));
        assert(esc_char(s[0]) =~= seq![s[0]]);
        lemma_esc_plain(s.drop_first());
        assert(esc_seq(s) =~= s);
    }
}

/// Reading the escaped form of a string body back yields the string: the
/// reader consumes exactly the escaped text and the closing quote.
pub proof fn lemma_parse_str_esc(s: Seq<char>, i: int, x: Seq<char>, acc: Seq<char>)
    requires
        0 <= i,
        i + esc_seq(x).len() < s.len(),
        s.subrange(i, i + esc_seq(x).len()) == esc_seq(x),
        s[i + esc_seq(x).len()] == '"',
    ensures
        parse_str_go(s, i, acc) == Some((acc + x, i + esc_seq(x).len() + 1)),
    decreases x.len(),
{
    if x.len() == 0 {
        assert(esc_seq(x).len() == 0);
        assert(s[i] == '"');
        assert(acc + x =~= acc);
    } else {
        let c = x[0];
        let x2 = x.drop_first();
        let e = esc_char(c);
        let e2 = esc_seq(x2);
        assert(esc_seq(x) == e + e2);
        let el = e.len() as int;
        let ll = esc_seq(x).len() as int;
        assert(ll == el + e2.len());
        assert forall|t: int| 0 <= t < ll implies s[i + t] == #[trigger] esc_seq(x)[t] by {
            assert(s.subrange(i, i + ll)[t] == s[i + t]);
        }
        assert forall|t: int| 0 <= t < el implies s[i + t] == #[trigger] e[t] by {
            assert(esc_seq(x)[t] == e[t]);
            assert(s[i + t] == esc_seq(x)[t]);
        }
        assert forall|t: int| 0 <= t < e2.len() implies s[i + el + t] == #[trigger] e2[t] by {
            assert(esc_seq(x)[el + t] == e2[t]);
            assert(s[i + (el + t)] == esc_seq(x)[el + t]);
        }
        assert(s.subrange(i + el, i + el + e2.len()) =~= e2);
        assert(s[i + el + e2.len()] == '"');
        if c == '"' {
            assert(e =~= seq!['\\', '"']);
            assert(s[i + 0] == e[0] && s[i + 1] == e[1]);
            lemma_parse_str_esc(s, i + 2, x2, acc.push('"'));
            assert(acc.push(c) + x2 =~= acc + x);
        } else if c == '\\' {
            assert(e =~= seq!['\\', '\\']);
            assert(s[i + 0] == e[0] && s[i + 1] == e[1]);
            lemma_parse_str_esc(s, i + 2, x2, acc.push('\\'));
            assert(acc.push(c) + x2 =~= acc + x);
        } else if (c as u32) < 0x20 {
            let hi = ((c as u32) / 16) as u32;
            let lo = ((c as u32) % 16) as u32;
            assert(e =~= seq!['\\', 'u', '0', '0', hex_digit(hi), hex_digit(lo)]);
            assert(s[i + 0] == e[0] && s[i + 1] == e[1] && s[i + 2] == e[2] && s[i + 3] == e[3]
                && s[i + 4] == e[4] && s[i + 5] == e[5]);
            lemma_hex_digit_val(hi);
            lemma_hex_digit_val(lo);
            assert(hex_val('0') == Some(0u32));
            let u = (0 * 0x1000 + 0 * 0x100 + hi * 0x10 + lo) as u32;
            assert(hex4(s, i + 2) == Some(u));
            assert(u == c as u32);
            assert(!(0xD800 <= u && u <= 0xDBFF) && !(0xDC00 <= u && u <= 0xDFFF));
            vstd::utf8::char_u32_cast(c, u);
            lemma_parse_str_esc(s, i + 6, x2, acc.push(c));
            assert(acc.push(c) + x2 =~= acc + x);
        } else {
            assert(e =~= seq![c]);
            assert(s[i + 0] == e[0]);
            assert(s[i] == c);
            lemma_parse_str_esc(s, i + 1, x2, acc.push(c));
            assert(acc.push(c) + x2 =~= acc + x);
        }
    }
}

/// The quoted, escaped form of a string reads back as that string.
pub proof fn lemma_parse_quoted(s: Seq<char>, i: int, x: Seq<char>)
    requires
        0 <= i,
        i + esc_seq(x).len() + 2 <= s.len(),
        s[i] == '"',
        s.subrange(i + 1, i + 1 + esc_seq(x).len()) == esc_seq(x),
        s[i + 1 + esc_seq(x).len()] == '"',
    ensures
        parse_string_at(s, i) == Some((x, i + esc_seq(x).len() + 2)),
{
    lemma_parse_str_esc(s, i + 1, x, Seq::empty());
    assert(Seq::<char>::empty() + x =~= x);
}

/// A run that consumes a whole stand-alone value consumes exactly that
/// value inside a larger text, stopping at the delimiter after it.
pub proof fn lemma_scan_go_shift(
    s: Seq<char>,
    i: int,
    r: Seq<char>,
    j: int,
    d: nat,
    instr: bool,
    esc: bool,
)
    requires
        0 <= i,
        0 <= j <= r.len(),
        i + r.len() < s.len(),
        s.subrange(i, i + r.len()) == r,
        is_delim(s[i + r.len()]),
        raw_scan_go(r, j, d, instr, esc) == Some(r.len() as int),
    ensures
        raw_scan_go(s, i + j, d, instr, esc) == Some(i + r.len()),
    decreases r.len() - j,
{
    assert forall|t: int| 0 <= t < r.len() implies s[i + t] == #[trigger] r[t] by {
        assert(s.subrange(i, i + r.len())[t] == s[i + t]);
    }
    if d == 0 && !instr && !esc && (j >= r.len() || is_delim(r[j])) {
        assert(raw_scan_go(r, j, d, instr, esc) == Some(j));
        assert(j == r.len());
        assert(raw_scan_go(s, i + j, d, instr, esc) == Some(i + j));
    } else {
        assert(j < r.len());
        assert(s[i + j] == r[j]);
        match scan_step(d, instr, esc, r[j]) {
            None => {
                assert(false);
            },
            Some((d2, s2, e2)) => {
                lemma_scan_go_shift(s, i, r, j + 1, d2, s2, e2);
            },
        }
    }
}

proof fn lemma_scan_go_restrict(s: Seq<char>, i: int, j: int, k: int, d: nat, instr: bool, esc: bool)
    requires
        0 <= i,
        i <= i + k <= j <= s.len(),
        raw_scan_go(s, i + k, d, instr, esc) == Some(j),
    ensures
        raw_scan_go(s.subrange(i, j), k, d, instr, esc) == Some(j - i),
    decreases j - (i + k),
{
    let sub = s.subrange(i, j);
    if d == 0 && !instr && !esc && (i + k >= s.len() || is_delim(s[i + k])) {
        assert(raw_scan_go(s, i + k, d, instr, esc) == Some(i + k));
        assert(i + k == j);
        assert(raw_scan_go(sub, k, d, instr, esc) == Some(k));
    } else {
        assert(i + k < s.len());
        match scan_step(d, instr, esc, s[i + k]) {
            None => {
                assert(false);
            },
            Some((d2, s2, e2)) => {
                assert(raw_scan_go(s, i + k + 1, d2, s2, e2) == Some(j));
                lemma_scan_go_bounds(s, i + k + 1, d2, s2, e2);
                assert(i + k + 1 <= j);
                assert(sub[k] == s[i + k]);
                lemma_scan_go_restrict(s, i, j, k + 1, d2, s2, e2);
            },
        }
    }
}

/// What the raw scanner consumes is itself a stand-alone raw value.
pub proof fn lemma_raw_capture_valid(s: Seq<char>, i: int)
    requires
        raw_scan(s, i).is_some(),
    ensures
        valid_raw(s.subrange(i, raw_scan(s, i).unwrap())),
        i < raw_scan(s, i).unwrap() <= s.len(),
{
    let j = raw_scan(s, i).unwrap();
    lemma_raw_scan_bounds_local(s, i);
    let sub = s.subrange(i, j);
    assert(sub[0] == s[i]);
    match scan_step(0, false, false, s[i]) {
        None => {
            assert(false);
        },
        Some((d2, s2, e2)) => {
            assert(raw_scan_go(s, i + 1, d2, s2, e2) == Some(j));
            lemma_scan_go_restrict(s, i, j, 1, d2, s2, e2);
            assert(raw_scan_go(sub, 1, d2, s2, e2) == Some(j - i));
        },
    }
}

proof fn lemma_raw_scan_bounds_local(s: Seq<char>, i: int)
    requires
        raw_scan(s, i).is_some(),
    ensures
        i < raw_scan(s, i).unwrap() <= s.len(),
{
    match scan_step(0, false, false, s[i]) {
        None => {},
        Some((d2, s2, e2)) => {
            lemma_scan_go_bounds(s, i + 1, d2, s2, e2);
        },
    }
}

/// A stand-alone raw value embedded before a delimiter reads back as
/// exactly itself.
pub proof fn lemma_raw_at(s: Seq<char>, i: int, r: Seq<char>)
    requires
        0 <= i,
        valid_raw(r),
        i + r.len() < s.len(),
        s.subrange(i, i + r.len()) == r,
        is_delim(s[i + r.len()]),
    ensures
        raw_scan(s, i) == Some(i + r.len()),
        s.subrange(i, i + r.len()) == r,
    decreases 0int,
{
    assert(r.len() > 0 && !is_delim(r[0]) && !is_ws(r[0]) && r[0] != ':');
    assert(s[i] == r[0]) by {
        assert(s.subrange(i, i + r.len())[0] == s[i]);
    }
    match scan_step(0, false, false, r[0]) {
        None => {
            assert(false);
        },
        Some((d2, s2, e2)) => {
            assert(raw_scan_go(r, 1, d2, s2, e2) == Some(r.len() as int));
            lemma_scan_go_shift(s, i, r, 1, d2, s2, e2);
        },
    }
}

} // verus!
