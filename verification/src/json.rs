//! Persistence: the workspace document as JSON text, written and read by
//! this module against one canonical encoding. The shape is the classic one:
//! a top-level object with `collections` and `environments`, collections
//! carrying a recursive `root_folder`, environments carrying their variables
//! as an ordered list of pairs. The writer emits a canonical compact form
//! (fixed key order, no extra whitespace); the reader accepts exactly that
//! form, and reading back what was written reproduces the model.

use vstd::prelude::*;

verus! {

broadcast use vstd::std_specs::vec::group_vec_axioms;

/// Lowercase hexadecimal digit for a value below sixteen.
pub open spec fn hex_lo(n: int) -> char
    recommends
        0 <= n < 16,
{
    if n < 10 {
        (((48 + n) as u8) as char)
    } else {
        (((87 + n) as u8) as char)
    }
}

/// A lowercase hexadecimal digit.
pub open spec fn is_hex_digit(c: char) -> bool {
    ('0' <= c && c <= '9') || ('a' <= c && c <= 'f')
}

/// The value of a lowercase hexadecimal digit.
pub open spec fn hex_val(c: char) -> int
    recommends
        is_hex_digit(c),
{
    if '0' <= c && c <= '9' {
        c as u32 - 48
    } else {
        c as u32 - 87
    }
}

/// How one character is written inside a JSON string: quotes and backslashes
/// escaped, control characters as `\u00xx`, everything else verbatim.
pub open spec fn esc_char(c: char) -> Seq<char> {
    if c == '"' {
        seq!['\\', '"']
    } else if c == '\\' {
        seq!['\\', '\\']
    } else if (c as u32) < 32 {
        seq!['\\', 'u', '0', '0', hex_lo(c as u32 as int / 16), hex_lo(c as u32 as int % 16)]
    } else {
        seq![c]
    }
}

/// The escaped body of a JSON string.
pub open spec fn ser_string_body(t: Seq<char>) -> Seq<char>
    decreases t.len(),
{
    if t.len() == 0 {
        Seq::empty()
    } else {
        esc_char(t[0]) + ser_string_body(t.drop_first())
    }
}

/// A JSON string: quote, escaped body, quote.
pub open spec fn ser_string(t: Seq<char>) -> Seq<char> {
    seq!['"'] + ser_string_body(t) + seq!['"']
}

/// The character a `\u00xx` escape denotes.
pub open spec fn hex_pair_char(a: char, b: char) -> char {
    (((16 * hex_val(a) + hex_val(b)) as u8) as char)
}

/// Scan a JSON string body from `i` up to its closing quote: the decoded
/// text and the position after the quote. Exactly the writer's escapes are
/// accepted.
pub open spec fn parse_string_body(s: Seq<char>, i: int) -> Option<(Seq<char>, int)>
    decreases s.len() - i,
{
    if i < 0 || i >= s.len() {
        None
    } else if s[i] == '"' {
        Some((Seq::empty(), i + 1))
    } else if s[i] == '\\' {
        if i + 1 < s.len() && (s[i + 1] == '\\' || s[i + 1] == '"') {
            match parse_string_body(s, i + 2) {
                Some((t, j)) => Some((seq![s[i + 1]] + t, j)),
                None => None,
            }
        } else if i + 5 < s.len() && s[i + 1] == 'u' && s[i + 2] == '0' && s[i + 3] == '0'
            && is_hex_digit(s[i + 4]) && is_hex_digit(s[i + 5]) && 16 * hex_val(s[i + 4]) + hex_val(
            s[i + 5],
        ) < 32 {
            match parse_string_body(s, i + 6) {
                Some((t, j)) => Some((seq![hex_pair_char(s[i + 4], s[i + 5])] + t, j)),
                None => None,
            }
        } else {
            None
        }
    } else if (s[i] as u32) < 32 {
        None
    } else {
        match parse_string_body(s, i + 1) {
            Some((t, j)) => Some((seq![s[i]] + t, j)),
            None => None,
        }
    }
}

/// Parse a JSON string at `i`: the decoded text and the position after it.
pub open spec fn parse_string(s: Seq<char>, i: int) -> Option<(Seq<char>, int)> {
    if 0 <= i < s.len() && s[i] == '"' {
        parse_string_body(s, i + 1)
    } else {
        None
    }
}

/// A control character survives its `\u00xx` escape.
proof fn lemma_ctrl_char_id(c: char)
    requires
        (c as u32) < 32,
    ensures
        is_hex_digit(hex_lo((c as u32) as int / 16)),
        is_hex_digit(hex_lo((c as u32) as int % 16)),
        hex_val(hex_lo((c as u32) as int / 16)) == (c as u32) as int / 16,
        hex_val(hex_lo((c as u32) as int % 16)) == (c as u32) as int % 16,
        16 * ((c as u32) as int / 16) + (c as u32) as int % 16 < 32,
        hex_pair_char(hex_lo((c as u32) as int / 16), hex_lo((c as u32) as int % 16)) == c,
{
}

/// Reading a written string body (with its closing quote, whatever follows)
/// yields the original text.
proof fn lemma_string_body_roundtrip(s: Seq<char>, i: int, t: Seq<char>)
    requires
        0 <= i,
        i + ser_string_body(t).len() + 1 <= s.len(),
        s.subrange(i, i + ser_string_body(t).len() + 1) == ser_string_body(t) + seq!['"'],
    ensures
        parse_string_body(s, i) == Some((t, i + ser_string_body(t).len() + 1)),
    decreases t.len(),
{
    let body = ser_string_body(t);
    let win = s.subrange(i, i + body.len() + 1);
    if t.len() == 0 {
        assert(s[i] == win[0]);
        assert(win[0] == '"');
    } else {
        let e = esc_char(t[0]);
        let rest = ser_string_body(t.drop_first());
        assert(body == e + rest);
        // each written character of the escape stands in `s`
        assert(forall|k: int| 0 <= k < e.len() ==> s[i + k] == win[k] && win[k] == e[k]);
        // the tail window is the remaining body plus the closing quote
        assert(s.subrange(i + e.len(), i + e.len() + rest.len() + 1) =~= rest + seq!['"']) by {
            assert(forall|k: int|
                0 <= k < rest.len() + 1 ==> #[trigger] s.subrange(
                    i + e.len(),
                    i + e.len() + rest.len() + 1,
                )[k] == win[e.len() + k]);
        }
        lemma_string_body_roundtrip(s, i + e.len(), t.drop_first());
        if t[0] == '"' {
            assert(s[i] == '\\' && s[i + 1] == '"');
            assert(parse_string_body(s, i) == Some((t, i + body.len() + 1))) by {
                assert(seq![s[i + 1]] + t.drop_first() =~= t);
            }
        } else if t[0] == '\\' {
            assert(s[i] == '\\' && s[i + 1] == '\\');
            assert(seq![s[i + 1]] + t.drop_first() =~= t);
        } else if (t[0] as u32) < 32 {
            let hi = (t[0] as u32) as int / 16;
            let lo = (t[0] as u32) as int % 16;
            lemma_ctrl_char_id(t[0]);
            assert(s[i] == '\\' && s[i + 1] == 'u' && s[i + 2] == '0' && s[i + 3] == '0');
            assert(s[i + 4] == hex_lo(hi) && s[i + 5] == hex_lo(lo));
            assert(hex_pair_char(s[i + 4], s[i + 5]) == t[0]);
            assert(seq![hex_pair_char(s[i + 4], s[i + 5])] + t.drop_first() =~= t);
        } else {
            assert(e == seq![t[0]]);
            assert(s[i] == win[0] && win[0] == e[0] && e[0] == t[0]);
            assert(s[i] != '"' && s[i] != '\\' && (s[i] as u32) >= 32);
            assert(seq![s[i]] + t.drop_first() =~= t);
        }
    }
}

/// Reading a written string (whatever follows it) yields the original text.
proof fn lemma_string_roundtrip(s: Seq<char>, i: int, t: Seq<char>)
    requires
        0 <= i,
        i + ser_string(t).len() <= s.len(),
        s.subrange(i, i + ser_string(t).len()) == ser_string(t),
    ensures
        parse_string(s, i) == Some((t, i + ser_string(t).len())),
{
    let w = ser_string(t);
    let win = s.subrange(i, i + w.len());
    assert(s[i] == win[0] && win[0] == '"');
    assert(s.subrange(i + 1, i + 1 + ser_string_body(t).len() + 1) =~= ser_string_body(t)
        + seq!['"']) by {
        assert(forall|k: int|
            0 <= k < ser_string_body(t).len() + 1 ==> #[trigger] s.subrange(
                i + 1,
                i + 1 + ser_string_body(t).len() + 1,
            )[k] == win[1 + k]);
    }
    lemma_string_body_roundtrip(s, i + 1, t);
}

/// A slice of a matched window is the matching slice of the pattern.
proof fn lemma_window_slice(s: Seq<char>, i: int, w: Seq<char>, a: int, b: int)
    requires
        0 <= i,
        i + w.len() <= s.len(),
        s.subrange(i, i + w.len()) == w,
        0 <= a <= b <= w.len(),
    ensures
        s.subrange(i + a, i + b) == w.subrange(a, b),
{
    assert(s.subrange(i + a, i + b) =~= w.subrange(a, b)) by {
        assert(forall|k: int|
            0 <= k < b - a ==> #[trigger] s.subrange(i + a, i + b)[k] == s.subrange(
                i,
                i + w.len(),
            )[a + k]);
    }
}

/// Expect the literal `lit` at `i`: the position after it, or nothing.
pub open spec fn expect(s: Seq<char>, i: int, lit: Seq<char>) -> Option<int> {
    if 0 <= i && i + lit.len() <= s.len() && s.subrange(i, i + lit.len()) == lit {
        Some(i + lit.len())
    } else {
        None
    }
}

/// Write one string, with quotes and escapes, onto `out`.
fn write_string(out: &mut Vec<char>, t: &str)
    ensures
        final(out)@ == old(out)@ + ser_string(t@),
{
    let ghost base = old(out)@;
    out.push('"');
    let cs = crate::text::chars_of(t);
    let mut i: usize = 0;
    while i < cs.len()
        invariant
            cs@ == t@,
            i <= cs@.len(),
            out@ == base + seq!['"'] + ser_string_body(t@.take(i as int)),
        decreases cs@.len() - i,
    {
        let c = cs[i];
        let code: u32 = c as u32;
        if c == '"' {
            out.push('\\');
            out.push('"');
        } else if c == '\\' {
            out.push('\\');
            out.push('\\');
        } else if code < 32 {
            out.push('\\');
            out.push('u');
            out.push('0');
            out.push('0');
            let hi = (code / 16) as u8;
            let lo = (code % 16) as u8;
            let hic: char = if hi < 10 {
                ((48 + hi) as char)
            } else {
                ((87 + hi) as char)
            };
            let loc: char = if lo < 10 {
                ((48 + lo) as char)
            } else {
                ((87 + lo) as char)
            };
            out.push(hic);
            out.push(loc);
        } else {
            out.push(c);
        }
        i = i + 1;
        proof {
            lemma_ser_string_body_step(t@, i as int);
            assert(out@ =~= base + seq!['"'] + ser_string_body(t@.take(i as int)));
        }
    }
    out.push('"');
    proof {
        assert(t@.take(t@.len() as int) =~= t@);
        assert(out@ =~= base + ser_string(t@));
    }
}

/// One character extends the escaped body.
proof fn lemma_ser_string_body_step(t: Seq<char>, i: int)
    requires
        0 < i <= t.len(),
    ensures
        ser_string_body(t.take(i)) == ser_string_body(t.take(i - 1)) + esc_char(t[i - 1]),
    decreases i,
{
    if i == 1 {
        assert(t.take(1).drop_first() =~= Seq::<char>::empty());
        assert(t.take(0) =~= Seq::<char>::empty());
        assert(ser_string_body(t.take(1)) == esc_char(t.take(1)[0]) + ser_string_body(
            Seq::<char>::empty(),
        ));
        assert(esc_char(t[0]) + Seq::<char>::empty() =~= esc_char(t[0]));
        assert(Seq::<char>::empty() + esc_char(t[0]) =~= esc_char(t[0]));
    } else {
        lemma_ser_string_body_step(t.drop_first(), i - 1);
        assert(t.take(i).drop_first() =~= t.drop_first().take(i - 1));
        assert(t.take(i - 1).drop_first() =~= t.drop_first().take(i - 2));
        assert(t.drop_first()[i - 2] == t[i - 1]);
        assert(esc_char(t.take(i)[0]) + (ser_string_body(t.drop_first().take(i - 2)) + esc_char(
            t[i - 1],
        )) =~= (esc_char(t.take(i - 1)[0]) + ser_string_body(t.drop_first().take(i - 2)))
            + esc_char(t[i - 1]));
    }
}

/// Scan a string body in executable code, mirroring the scanner exactly.
fn scan_string_body(s: &Vec<char>, i: usize) -> (r: Option<(Vec<char>, usize)>)
    ensures
        match r {
            Some((t, j)) => parse_string_body(s@, i as int) == Some((t@, j as int)) && i < j <= s@.len(),
            None => parse_string_body(s@, i as int) is None,
        },
    decreases s@.len() - i,
{
    proof {
        assert(s@.len() == s.len());
    }
    if i >= s.len() {
        return None;
    }
    let c = s[i];
    if c == '"' {
        let v: Vec<char> = Vec::new();
        proof {
            assert(v@ =~= Seq::<char>::empty());
        }
        return Some((v, i + 1));
    }
    if c == '\\' {
        if i + 1 < s.len() && (s[i + 1] == '\\' || s[i + 1] == '"') {
            match scan_string_body(s, i + 2) {
                Some((rest, j)) => {
                    let mut v: Vec<char> = Vec::new();
                    v.push(s[i + 1]);
                    let mut rest = rest;
                    v.append(&mut rest);
                    proof {
                        assert(v@ =~= seq![s@[i + 1]] + parse_string_body(
                            s@,
                            i as int + 2,
                        ).unwrap().0);
                    }
                    Some((v, j))
                },
                None => None,
            }
        } else if s.len() - i > 5 && s[i + 1] == 'u' && s[i + 2] == '0' && s[i + 3] == '0'
            && is_hex_char(s[i + 4]) && is_hex_char(s[i + 5]) && hex_value(s[i + 4]) * 16
            + hex_value(s[i + 5]) < 32 {
            let code: u8 = hex_value(s[i + 4]) * 16 + hex_value(s[i + 5]);
            match scan_string_body(s, i + 6) {
                Some((rest, j)) => {
                    let mut v: Vec<char> = Vec::new();
                    v.push(code as char);
                    let mut rest = rest;
                    v.append(&mut rest);
                    proof {
                        assert(code as char == hex_pair_char(s@[i + 4], s@[i + 5]));
                        assert(v@ =~= seq![hex_pair_char(s@[i + 4], s@[i + 5])] + parse_string_body(
                            s@,
                            i as int + 6,
                        ).unwrap().0);
                    }
                    Some((v, j))
                },
                None => None,
            }
        } else {
            None
        }
    } else if (c as u32) < 32 {
        None
    } else {
        match scan_string_body(s, i + 1) {
            Some((rest, j)) => {
                let mut v: Vec<char> = Vec::new();
                v.push(c);
                let mut rest = rest;
                v.append(&mut rest);
                proof {
                    assert(v@ =~= seq![s@[i as int]] + parse_string_body(
                        s@,
                        i as int + 1,
                    ).unwrap().0);
                }
                Some((v, j))
            },
            None => None,
        }
    }
}

/// A lowercase hexadecimal digit, in executable code.
fn is_hex_char(c: char) -> (r: bool)
    ensures
        r == is_hex_digit(c),
{
    ('0' <= c && c <= '9') || ('a' <= c && c <= 'f')
}

/// Its value.
fn hex_value(c: char) -> (r: u8)
    requires
        is_hex_digit(c),
    ensures
        r as int == hex_val(c),
        r < 16,
{
    let code: u32 = c as u32;
    if c <= '9' {
        (code - 48) as u8
    } else {
        (code - 87) as u8
    }
}

/// Parse a string at `i` in executable code.
fn scan_string(s: &Vec<char>, i: usize) -> (r: Option<(Vec<char>, usize)>)
    ensures
        match r {
            Some((t, j)) => parse_string(s@, i as int) == Some((t@, j as int)) && i < j <= s@.len(),
            None => parse_string(s@, i as int) is None,
        },
{
    proof {
        assert(s@.len() == s.len());
    }
    if i < s.len() && s[i] == '"' {
        scan_string_body(s, i + 1)
    } else {
        None
    }
}

/// Expect `lit` at `i` in executable code.
fn scan_lit(s: &Vec<char>, i: usize, lit: &str) -> (r: Option<usize>)
    ensures
        match r {
            Some(j) => expect(s@, i as int, lit@) == Some(j as int) && i <= j <= s@.len(),
            None => expect(s@, i as int, lit@) is None,
        },
{
    proof {
        assert(s@.len() == s.len());
    }
    let n = lit.unicode_len();
    if i > s.len() || n > s.len() - i {
        return None;
    }
    let cs = crate::text::chars_of(lit);
    let mut k: usize = 0;
    while k < n
        invariant
            cs@ == lit@,
            n == lit@.len(),
            i + n <= s@.len(),
            k <= n,
            forall|q: int| 0 <= q < k ==> s@[i + q] == lit@[q],
        decreases n - k,
    {
        proof {
            assert(s@.len() == s.len());
        }
        if s[i + k] != cs[k] {
            proof {
                assert(s@.subrange(i as int, i as int + lit@.len())[k as int] == s@[i + k]);
            }
            return None;
        }
        k = k + 1;
    }
    proof {
        assert(s@.subrange(i as int, i as int + lit@.len()) =~= lit@);
    }
    Some(i + n)
}


/// The serialized form of `{"id":`.
pub open spec fn lit_id() -> Seq<char> {
    seq!['{', '"', 'i', 'd', '"', ':']
}

/// `,"name":`
pub open spec fn lit_name() -> Seq<char> {
    seq![',', '"', 'n', 'a', 'm', 'e', '"', ':']
}

/// `,"method":`
pub open spec fn lit_method() -> Seq<char> {
    seq![',', '"', 'm', 'e', 't', 'h', 'o', 'd', '"', ':']
}

/// `,"url":`
pub open spec fn lit_url() -> Seq<char> {
    seq![',', '"', 'u', 'r', 'l', '"', ':']
}

/// `,"headers":`
pub open spec fn lit_headers() -> Seq<char> {
    seq![',', '"', 'h', 'e', 'a', 'd', 'e', 'r', 's', '"', ':']
}

/// `,"body":`
pub open spec fn lit_body() -> Seq<char> {
    seq![',', '"', 'b', 'o', 'd', 'y', '"', ':']
}

/// `,"body_type":`
pub open spec fn lit_body_type() -> Seq<char> {
    seq![',', '"', 'b', 'o', 'd', 'y', '_', 't', 'y', 'p', 'e', '"', ':']
}

/// `,"form_data":`
pub open spec fn lit_form_data() -> Seq<char> {
    seq![',', '"', 'f', 'o', 'r', 'm', '_', 'd', 'a', 't', 'a', '"', ':']
}

/// `,"url_encoded_data":`
pub open spec fn lit_url_encoded() -> Seq<char> {
    seq![',', '"', 'u', 'r', 'l', '_', 'e', 'n', 'c', 'o', 'd', 'e', 'd', '_', 'd', 'a', 't', 'a', '"', ':']
}

/// `,"query_params":`
pub open spec fn lit_query_params() -> Seq<char> {
    seq![',', '"', 'q', 'u', 'e', 'r', 'y', '_', 'p', 'a', 'r', 'a', 'm', 's', '"', ':']
}

/// `,"requests":`
pub open spec fn lit_requests() -> Seq<char> {
    seq![',', '"', 'r', 'e', 'q', 'u', 'e', 's', 't', 's', '"', ':']
}

/// `,"folders":`
pub open spec fn lit_folders() -> Seq<char> {
    seq![',', '"', 'f', 'o', 'l', 'd', 'e', 'r', 's', '"', ':']
}

/// `,"root_folder":`
pub open spec fn lit_root_folder() -> Seq<char> {
    seq![',', '"', 'r', 'o', 'o', 't', '_', 'f', 'o', 'l', 'd', 'e', 'r', '"', ':']
}

/// `{"name":`
pub open spec fn lit_env_name() -> Seq<char> {
    seq!['{', '"', 'n', 'a', 'm', 'e', '"', ':']
}

/// `,"variables":`
pub open spec fn lit_variables() -> Seq<char> {
    seq![',', '"', 'v', 'a', 'r', 'i', 'a', 'b', 'l', 'e', 's', '"', ':']
}

/// `{"collections":`
pub open spec fn lit_collections() -> Seq<char> {
    seq!['{', '"', 'c', 'o', 'l', 'l', 'e', 'c', 't', 'i', 'o', 'n', 's', '"', ':']
}

/// `,"environments":`
pub open spec fn lit_environments() -> Seq<char> {
    seq![',', '"', 'e', 'n', 'v', 'i', 'r', 'o', 'n', 'm', 'e', 'n', 't', 's', '"', ':']
}

/// `{"Text":{"key":`
pub open spec fn lit_text_open() -> Seq<char> {
    seq!['{', '"', 'T', 'e', 'x', 't', '"', ':', '{', '"', 'k', 'e', 'y', '"', ':']
}

/// `,"value":`
pub open spec fn lit_value() -> Seq<char> {
    seq![',', '"', 'v', 'a', 'l', 'u', 'e', '"', ':']
}

/// `{"File":{"key":`
pub open spec fn lit_file_open() -> Seq<char> {
    seq!['{', '"', 'F', 'i', 'l', 'e', '"', ':', '{', '"', 'k', 'e', 'y', '"', ':']
}

/// `,"file_path":`
pub open spec fn lit_file_path() -> Seq<char> {
    seq![',', '"', 'f', 'i', 'l', 'e', '_', 'p', 'a', 't', 'h', '"', ':']
}

/// `,"file_name":`
pub open spec fn lit_file_name() -> Seq<char> {
    seq![',', '"', 'f', 'i', 'l', 'e', '_', 'n', 'a', 'm', 'e', '"', ':']
}

/// The tag a body kind is stored as.
pub open spec fn body_type_name(bt: crate::model::BodyType) -> Seq<char> {
    match bt {
        crate::model::BodyType::NoBody => seq!['N', 'o', 'n', 'e'],
        crate::model::BodyType::Raw => seq!['R', 'a', 'w'],
        crate::model::BodyType::Json => seq!['J', 's', 'o', 'n'],
        crate::model::BodyType::FormData => seq!['F', 'o', 'r', 'm', 'D', 'a', 't', 'a'],
        crate::model::BodyType::UrlEncoded => seq!['U', 'r', 'l', 'E', 'n', 'c', 'o', 'd', 'e', 'd'],
    }
}

/// A (key, value) pair: a two-element array of strings.
pub open spec fn ser_pair(p: (Seq<char>, Seq<char>)) -> Seq<char> {
    seq!['['] + ser_string(p.0) + seq![','] + ser_string(p.1) + seq![']']
}

/// The comma-joined elements of a non-empty pair list.
pub open spec fn ser_pair_items(ps: Seq<(Seq<char>, Seq<char>)>) -> Seq<char>
    decreases ps.len(),
{
    if ps.len() == 0 {
        Seq::empty()
    } else if ps.len() == 1 {
        ser_pair(ps[0])
    } else {
        ser_pair(ps[0]) + seq![','] + ser_pair_items(ps.drop_first())
    }
}

/// A pair list: `[` elements `]`.
pub open spec fn ser_pair_list(ps: Seq<(Seq<char>, Seq<char>)>) -> Seq<char> {
    if ps.len() == 0 {
        seq!['[', ']']
    } else {
        seq!['['] + ser_pair_items(ps) + seq![']']
    }
}

/// A form-data entry, tagged by its variant.
pub open spec fn ser_entry(e: crate::model::FormEntryModel) -> Seq<char> {
    match e {
        crate::model::FormEntryModel::Text { key, value } => lit_text_open() + ser_string(key)
            + lit_value() + ser_string(value) + seq!['}', '}'],
        crate::model::FormEntryModel::File { key, file_path, file_name } => lit_file_open()
            + ser_string(key) + lit_file_path() + ser_string(file_path) + lit_file_name()
            + ser_string(file_name) + seq!['}', '}'],
    }
}

/// The comma-joined elements of a non-empty entry list.
pub open spec fn ser_entry_items(es: Seq<crate::model::FormEntryModel>) -> Seq<char>
    decreases es.len(),
{
    if es.len() == 0 {
        Seq::empty()
    } else if es.len() == 1 {
        ser_entry(es[0])
    } else {
        ser_entry(es[0]) + seq![','] + ser_entry_items(es.drop_first())
    }
}

/// An entry list: `[` elements `]`.
pub open spec fn ser_entry_list(es: Seq<crate::model::FormEntryModel>) -> Seq<char> {
    if es.len() == 0 {
        seq!['[', ']']
    } else {
        seq!['['] + ser_entry_items(es) + seq![']']
    }
}

/// The later fields of a request object.
pub open spec fn ser_request_tail(r: crate::model::RequestModel) -> Seq<char> {
    lit_body() + (ser_string(r.body) + (lit_body_type() + (ser_string(body_type_name(r.body_type))
        + (lit_form_data() + (ser_entry_list(r.form_data) + (lit_url_encoded() + (ser_pair_list(
        r.url_encoded_data,
    ) + (lit_query_params() + (ser_pair_list(r.query_params) + seq!['}'])))))))))
}

/// A request object, fields in a fixed order.
#[verifier::opaque]
pub open spec fn ser_request(r: crate::model::RequestModel) -> Seq<char> {
    lit_id() + (ser_string(r.id) + (lit_name() + (ser_string(r.name) + (lit_method() + (ser_string(
        r.method,
    ) + (lit_url() + (ser_string(r.url) + (lit_headers() + (ser_pair_list(r.headers)
        + ser_request_tail(r))))))))))
}

/// The comma-joined elements of a non-empty request list.
pub open spec fn ser_request_items(rs: Seq<crate::model::RequestModel>) -> Seq<char>
    decreases rs.len(),
{
    if rs.len() == 0 {
        Seq::empty()
    } else if rs.len() == 1 {
        ser_request(rs[0])
    } else {
        ser_request(rs[0]) + seq![','] + ser_request_items(rs.drop_first())
    }
}

/// A request list: `[` elements `]`.
pub open spec fn ser_request_list(rs: Seq<crate::model::RequestModel>) -> Seq<char> {
    if rs.len() == 0 {
        seq!['[', ']']
    } else {
        seq!['['] + ser_request_items(rs) + seq![']']
    }
}

/// A folder object: identity, name, requests, and its child folders,
/// recursively.
pub open spec fn ser_folder(f: crate::model::FolderModel) -> Seq<char>
    decreases f, 2int,
{
    lit_id() + (ser_string(f.id) + (lit_name() + (ser_string(f.name) + (lit_requests()
        + (ser_request_list(f.requests) + (lit_folders() + (ser_folder_list(f.folders)
        + seq!['}'])))))))
}

/// A folder list: `[` elements `]`.
pub open spec fn ser_folder_list(fs: Seq<crate::model::FolderModel>) -> Seq<char>
    decreases fs, 1int,
{
    if fs.len() == 0 {
        seq!['[', ']']
    } else {
        seq!['['] + ser_folder_items(fs) + seq![']']
    }
}

/// The comma-joined elements of a non-empty folder list.
pub open spec fn ser_folder_items(fs: Seq<crate::model::FolderModel>) -> Seq<char>
    decreases fs, 0int,
{
    if fs.len() == 0 {
        Seq::empty()
    } else if fs.len() == 1 {
        ser_folder(fs[0])
    } else {
        ser_folder(fs[0]) + seq![','] + ser_folder_items(fs.drop_first())
    }
}

/// A collection object: identity, name, one root folder.
pub open spec fn ser_collection(c: crate::model::CollectionModel) -> Seq<char> {
    lit_id() + (ser_string(c.id) + (lit_name() + (ser_string(c.name) + (lit_root_folder()
        + (ser_folder(c.root_folder) + seq!['}'])))))
}

/// The comma-joined elements of a non-empty collection list.
pub open spec fn ser_collection_items(cs: Seq<crate::model::CollectionModel>) -> Seq<char>
    decreases cs.len(),
{
    if cs.len() == 0 {
        Seq::empty()
    } else if cs.len() == 1 {
        ser_collection(cs[0])
    } else {
        ser_collection(cs[0]) + seq![','] + ser_collection_items(cs.drop_first())
    }
}

/// A collection list: `[` elements `]`.
pub open spec fn ser_collection_list(cs: Seq<crate::model::CollectionModel>) -> Seq<char> {
    if cs.len() == 0 {
        seq!['[', ']']
    } else {
        seq!['['] + ser_collection_items(cs) + seq![']']
    }
}

/// An environment object: name, then the variables as an ordered pair list.
pub open spec fn ser_environment(e: crate::model::EnvironmentModel) -> Seq<char> {
    lit_env_name() + (ser_string(e.name) + (lit_variables() + (ser_pair_list(e.variables)
        + seq!['}'])))
}

/// The comma-joined elements of a non-empty environment list.
pub open spec fn ser_environment_items(es: Seq<crate::model::EnvironmentModel>) -> Seq<char>
    decreases es.len(),
{
    if es.len() == 0 {
        Seq::empty()
    } else if es.len() == 1 {
        ser_environment(es[0])
    } else {
        ser_environment(es[0]) + seq![','] + ser_environment_items(es.drop_first())
    }
}

/// An environment list: `[` elements `]`.
pub open spec fn ser_environment_list(es: Seq<crate::model::EnvironmentModel>) -> Seq<char> {
    if es.len() == 0 {
        seq!['[', ']']
    } else {
        seq!['['] + ser_environment_items(es) + seq![']']
    }
}

/// The whole document: collections, then environments.
pub open spec fn ser_storage(m: crate::model::StorageModel) -> Seq<char> {
    lit_collections() + (ser_collection_list(m.collections) + (lit_environments()
        + (ser_environment_list(m.environments) + seq!['}'])))
}


/// Parse one pair `["k","v"]`.
pub open spec fn parse_pair(s: Seq<char>, i: int) -> Option<((Seq<char>, Seq<char>), int)> {
    match expect(s, i, seq!['[']) {
        Some(j1) => match parse_string(s, j1) {
            Some((k, j2)) => match expect(s, j2, seq![',']) {
                Some(j3) => match parse_string(s, j3) {
                    Some((v, j4)) => match expect(s, j4, seq![']']) {
                        Some(j5) => Some(((k, v), j5)),
                        None => None,
                    },
                    None => None,
                },
                None => None,
            },
            None => None,
        },
        None => None,
    }
}

/// Parse the elements of a non-empty pair list, up to and including `]`.
pub open spec fn parse_pair_items(s: Seq<char>, i: int, fuel: nat) -> Option<
    (Seq<(Seq<char>, Seq<char>)>, int),
>
    decreases fuel, 3int,
{
    if fuel == 0 {
        None
    } else {
        match parse_pair(s, i) {
            Some((p, j)) => match expect(s, j, seq![',']) {
                Some(j2) => match parse_pair_items(s, j2, (fuel - 1) as nat) {
                    Some((ps, j3)) => Some((seq![p] + ps, j3)),
                    None => None,
                },
                None => match expect(s, j, seq![']']) {
                    Some(j2) => Some((seq![p], j2)),
                    None => None,
                },
            },
            None => None,
        }
    }
}

/// Parse a pair list.
pub open spec fn parse_pair_list(s: Seq<char>, i: int, fuel: nat) -> Option<
    (Seq<(Seq<char>, Seq<char>)>, int),
>
    decreases fuel, 4int,
{
    match expect(s, i, seq!['[']) {
        Some(j1) => match expect(s, j1, seq![']']) {
            Some(j2) => Some((Seq::empty(), j2)),
            None => parse_pair_items(s, j1, fuel),
        },
        None => None,
    }
}

/// Parse a body-kind tag.
pub open spec fn parse_body_type(s: Seq<char>, i: int) -> Option<(crate::model::BodyType, int)> {
    match parse_string(s, i) {
        Some((t, j)) => if t == body_type_name(crate::model::BodyType::NoBody) {
            Some((crate::model::BodyType::NoBody, j))
        } else if t == body_type_name(crate::model::BodyType::Raw) {
            Some((crate::model::BodyType::Raw, j))
        } else if t == body_type_name(crate::model::BodyType::Json) {
            Some((crate::model::BodyType::Json, j))
        } else if t == body_type_name(crate::model::BodyType::FormData) {
            Some((crate::model::BodyType::FormData, j))
        } else if t == body_type_name(crate::model::BodyType::UrlEncoded) {
            Some((crate::model::BodyType::UrlEncoded, j))
        } else {
            None
        },
        None => None,
    }
}

/// Parse one form-data entry.
pub open spec fn parse_entry(s: Seq<char>, i: int) -> Option<(crate::model::FormEntryModel, int)> {
    match expect(s, i, lit_text_open()) {
        Some(j1) => match parse_string(s, j1) {
            Some((key, j2)) => match expect(s, j2, lit_value()) {
                Some(j3) => match parse_string(s, j3) {
                    Some((value, j4)) => match expect(s, j4, seq!['}', '}']) {
                        Some(j5) => Some((crate::model::FormEntryModel::Text { key, value }, j5)),
                        None => None,
                    },
                    None => None,
                },
                None => None,
            },
            None => None,
        },
        None => match expect(s, i, lit_file_open()) {
            Some(j1) => match parse_string(s, j1) {
                Some((key, j2)) => match expect(s, j2, lit_file_path()) {
                    Some(j3) => match parse_string(s, j3) {
                        Some((file_path, j4)) => match expect(s, j4, lit_file_name()) {
                            Some(j5) => match parse_string(s, j5) {
                                Some((file_name, j6)) => match expect(s, j6, seq!['}', '}']) {
                                    Some(j7) => Some(
                                        (
                                            crate::model::FormEntryModel::File {
                                                key,
                                                file_path,
                                                file_name,
                                            },
                                            j7,
                                        ),
                                    ),
                                    None => None,
                                },
                                None => None,
                            },
                            None => None,
                        },
                        None => None,
                    },
                    None => None,
                },
                None => None,
            },
            None => None,
        },
    }
}

/// Parse the elements of a non-empty entry list, up to and including `]`.
pub open spec fn parse_entry_items(s: Seq<char>, i: int, fuel: nat) -> Option<
    (Seq<crate::model::FormEntryModel>, int),
>
    decreases fuel, 6int,
{
    if fuel == 0 {
        None
    } else {
        match parse_entry(s, i) {
            Some((e, j)) => match expect(s, j, seq![',']) {
                Some(j2) => match parse_entry_items(s, j2, (fuel - 1) as nat) {
                    Some((es, j3)) => Some((seq![e] + es, j3)),
                    None => None,
                },
                None => match expect(s, j, seq![']']) {
                    Some(j2) => Some((seq![e], j2)),
                    None => None,
                },
            },
            None => None,
        }
    }
}

/// Parse an entry list.
pub open spec fn parse_entry_list(s: Seq<char>, i: int, fuel: nat) -> Option<
    (Seq<crate::model::FormEntryModel>, int),
>
    decreases fuel, 7int,
{
    match expect(s, i, seq!['[']) {
        Some(j1) => match expect(s, j1, seq![']']) {
            Some(j2) => Some((Seq::empty(), j2)),
            None => parse_entry_items(s, j1, fuel),
        },
        None => None,
    }
}

/// Parse one request object.
#[verifier::opaque]
pub open spec fn parse_request(s: Seq<char>, i: int, fuel: nat) -> Option<
    (crate::model::RequestModel, int),
>
    decreases fuel, 8int,
{
    match expect(s, i, lit_id()) {
        Some(j1) => match parse_string(s, j1) {
            Some((id, j2)) => match expect(s, j2, lit_name()) {
                Some(j3) => match parse_string(s, j3) {
                    Some((name, j4)) => match expect(s, j4, lit_method()) {
                        Some(j5) => match parse_string(s, j5) {
                            Some((method, j6)) => match expect(s, j6, lit_url()) {
                                Some(j7) => match parse_string(s, j7) {
                                    Some((url, j8)) => match expect(s, j8, lit_headers()) {
                                        Some(j9) => match parse_pair_list(s, j9, fuel) {
                                            Some((headers, j10)) => match expect(s, j10, lit_body()) {
                                                Some(j11) => match parse_string(s, j11) {
                                                    Some((body, j12)) => match expect(
                                                        s,
                                                        j12,
                                                        lit_body_type(),
                                                    ) {
                                                        Some(j13) => match parse_body_type(s, j13) {
                                                            Some((body_type, j14)) => match expect(
                                                                s,
                                                                j14,
                                                                lit_form_data(),
                                                            ) {
                                                                Some(j15) => match parse_entry_list(
                                                                    s,
                                                                    j15,
                                                                    fuel,
                                                                ) {
                                                                    Some((form_data, j16)) => match expect(
                                                                        s,
                                                                        j16,
                                                                        lit_url_encoded(),
                                                                    ) {
                                                                        Some(j17) => match parse_pair_list(
                                                                            s,
                                                                            j17,
                                                                            fuel,
                                                                        ) {
                                                                            Some(
                                                                                (url_encoded_data, j18),
                                                                            ) => match expect(
                                                                                s,
                                                                                j18,
                                                                                lit_query_params(),
                                                                            ) {
                                                                                Some(j19) => match parse_pair_list(
                                                                                    s,
                                                                                    j19,
                                                                                    fuel,
                                                                                ) {
                                                                                    Some(
                                                                                        (query_params, j20),
                                                                                    ) => match expect(
                                                                                        s,
                                                                                        j20,
                                                                                        seq!['}'],
                                                                                    ) {
                                                                                        Some(j21) => Some(
                                                                                            (
                                                                                                crate::model::RequestModel {
                                                                                                    id,
                                                                                                    name,
                                                                                                    method,
                                                                                                    url,
                                                                                                    headers,
                                                                                                    body,
                                                                                                    body_type,
                                                                                                    form_data,
                                                                                                    url_encoded_data,
                                                                                                    query_params,
                                                                                                },
                                                                                                j21,
                                                                                            ),
                                                                                        ),
                                                                                        None => None,
                                                                                    },
                                                                                    None => None,
                                                                                },
                                                                                None => None,
                                                                            },
                                                                            None => None,
                                                                        },
                                                                        None => None,
                                                                    },
                                                                    None => None,
                                                                },
                                                                None => None,
                                                            },
                                                            None => None,
                                                        },
                                                        None => None,
                                                    },
                                                    None => None,
                                                },
                                                None => None,
                                            },
                                            None => None,
                                        },
                                        None => None,
                                    },
                                    None => None,
                                },
                                None => None,
                            },
                            None => None,
                        },
                        None => None,
                    },
                    None => None,
                },
                None => None,
            },
            None => None,
        },
        None => None,
    }
}

/// Parse the elements of a non-empty request list, up to and including `]`.
pub open spec fn parse_request_items(s: Seq<char>, i: int, fuel: nat) -> Option<
    (Seq<crate::model::RequestModel>, int),
>
    decreases fuel, 9int,
{
    if fuel == 0 {
        None
    } else {
        match parse_request(s, i, fuel) {
            Some((r, j)) => match expect(s, j, seq![',']) {
                Some(j2) => match parse_request_items(s, j2, (fuel - 1) as nat) {
                    Some((rs, j3)) => Some((seq![r] + rs, j3)),
                    None => None,
                },
                None => match expect(s, j, seq![']']) {
                    Some(j2) => Some((seq![r], j2)),
                    None => None,
                },
            },
            None => None,
        }
    }
}

/// Parse a request list.
pub open spec fn parse_request_list(s: Seq<char>, i: int, fuel: nat) -> Option<
    (Seq<crate::model::RequestModel>, int),
>
    decreases fuel, 10int,
{
    match expect(s, i, seq!['[']) {
        Some(j1) => match expect(s, j1, seq![']']) {
            Some(j2) => Some((Seq::empty(), j2)),
            None => parse_request_items(s, j1, fuel),
        },
        None => None,
    }
}

/// Parse one folder object, its subtree included.
pub open spec fn parse_folder(s: Seq<char>, i: int, fuel: nat) -> Option<
    (crate::model::FolderModel, int),
>
    decreases fuel, 13int,
{
    match expect(s, i, lit_id()) {
        Some(j1) => match parse_string(s, j1) {
            Some((id, j2)) => match expect(s, j2, lit_name()) {
                Some(j3) => match parse_string(s, j3) {
                    Some((name, j4)) => match expect(s, j4, lit_requests()) {
                        Some(j5) => match parse_request_list(s, j5, fuel) {
                            Some((requests, j6)) => match expect(s, j6, lit_folders()) {
                                Some(j7) => match parse_folder_list(s, j7, fuel) {
                                    Some((folders, j8)) => match expect(s, j8, seq!['}']) {
                                        Some(j9) => Some(
                                            (
                                                crate::model::FolderModel {
                                                    id,
                                                    name,
                                                    requests,
                                                    folders,
                                                },
                                                j9,
                                            ),
                                        ),
                                        None => None,
                                    },
                                    None => None,
                                },
                                None => None,
                            },
                            None => None,
                        },
                        None => None,
                    },
                    None => None,
                },
                None => None,
            },
            None => None,
        },
        None => None,
    }
}

/// Parse the elements of a non-empty folder list, up to and including `]`.
pub open spec fn parse_folder_items(s: Seq<char>, i: int, fuel: nat) -> Option<
    (Seq<crate::model::FolderModel>, int),
>
    decreases fuel, 11int,
{
    if fuel == 0 {
        None
    } else {
        match parse_folder(s, i, (fuel - 1) as nat) {
            Some((f, j)) => match expect(s, j, seq![',']) {
                Some(j2) => match parse_folder_items(s, j2, (fuel - 1) as nat) {
                    Some((fs, j3)) => Some((seq![f] + fs, j3)),
                    None => None,
                },
                None => match expect(s, j, seq![']']) {
                    Some(j2) => Some((seq![f], j2)),
                    None => None,
                },
            },
            None => None,
        }
    }
}

/// Parse a folder list.
pub open spec fn parse_folder_list(s: Seq<char>, i: int, fuel: nat) -> Option<
    (Seq<crate::model::FolderModel>, int),
>
    decreases fuel, 12int,
{
    match expect(s, i, seq!['[']) {
        Some(j1) => match expect(s, j1, seq![']']) {
            Some(j2) => Some((Seq::empty(), j2)),
            None => parse_folder_items(s, j1, fuel),
        },
        None => None,
    }
}

/// Parse one collection object.
pub open spec fn parse_collection(s: Seq<char>, i: int, fuel: nat) -> Option<
    (crate::model::CollectionModel, int),
>
    decreases fuel, 14int,
{
    match expect(s, i, lit_id()) {
        Some(j1) => match parse_string(s, j1) {
            Some((id, j2)) => match expect(s, j2, lit_name()) {
                Some(j3) => match parse_string(s, j3) {
                    Some((name, j4)) => match expect(s, j4, lit_root_folder()) {
                        Some(j5) => match parse_folder(s, j5, fuel) {
                            Some((root_folder, j6)) => match expect(s, j6, seq!['}']) {
                                Some(j7) => Some(
                                    (crate::model::CollectionModel { id, name, root_folder }, j7),
                                ),
                                None => None,
                            },
                            None => None,
                        },
                        None => None,
                    },
                    None => None,
                },
                None => None,
            },
            None => None,
        },
        None => None,
    }
}

/// Parse the elements of a non-empty collection list, up to and including `]`.
pub open spec fn parse_collection_items(s: Seq<char>, i: int, fuel: nat) -> Option<
    (Seq<crate::model::CollectionModel>, int),
>
    decreases fuel, 15int,
{
    if fuel == 0 {
        None
    } else {
        match parse_collection(s, i, fuel) {
            Some((c, j)) => match expect(s, j, seq![',']) {
                Some(j2) => match parse_collection_items(s, j2, (fuel - 1) as nat) {
                    Some((cs, j3)) => Some((seq![c] + cs, j3)),
                    None => None,
                },
                None => match expect(s, j, seq![']']) {
                    Some(j2) => Some((seq![c], j2)),
                    None => None,
                },
            },
            None => None,
        }
    }
}

/// Parse a collection list.
pub open spec fn parse_collection_list(s: Seq<char>, i: int, fuel: nat) -> Option<
    (Seq<crate::model::CollectionModel>, int),
>
    decreases fuel, 16int,
{
    match expect(s, i, seq!['[']) {
        Some(j1) => match expect(s, j1, seq![']']) {
            Some(j2) => Some((Seq::empty(), j2)),
            None => parse_collection_items(s, j1, fuel),
        },
        None => None,
    }
}

/// Parse one environment object.
pub open spec fn parse_environment(s: Seq<char>, i: int, fuel: nat) -> Option<
    (crate::model::EnvironmentModel, int),
>
    decreases fuel, 5int,
{
    match expect(s, i, lit_env_name()) {
        Some(j1) => match parse_string(s, j1) {
            Some((name, j2)) => match expect(s, j2, lit_variables()) {
                Some(j3) => match parse_pair_list(s, j3, fuel) {
                    Some((variables, j4)) => match expect(s, j4, seq!['}']) {
                        Some(j5) => Some((crate::model::EnvironmentModel { name, variables }, j5)),
                        None => None,
                    },
                    None => None,
                },
                None => None,
            },
            None => None,
        },
        None => None,
    }
}

/// Parse the elements of a non-empty environment list, up to and including
/// `]`.
pub open spec fn parse_environment_items(s: Seq<char>, i: int, fuel: nat) -> Option<
    (Seq<crate::model::EnvironmentModel>, int),
>
    decreases fuel, 6int,
{
    if fuel == 0 {
        None
    } else {
        match parse_environment(s, i, fuel) {
            Some((e, j)) => match expect(s, j, seq![',']) {
                Some(j2) => match parse_environment_items(s, j2, (fuel - 1) as nat) {
                    Some((es, j3)) => Some((seq![e] + es, j3)),
                    None => None,
                },
                None => match expect(s, j, seq![']']) {
                    Some(j2) => Some((seq![e], j2)),
                    None => None,
                },
            },
            None => None,
        }
    }
}

/// Parse an environment list.
pub open spec fn parse_environment_list(s: Seq<char>, i: int, fuel: nat) -> Option<
    (Seq<crate::model::EnvironmentModel>, int),
>
    decreases fuel, 7int,
{
    match expect(s, i, seq!['[']) {
        Some(j1) => match expect(s, j1, seq![']']) {
            Some(j2) => Some((Seq::empty(), j2)),
            None => parse_environment_items(s, j1, fuel),
        },
        None => None,
    }
}

/// Parse the whole document.
pub open spec fn parse_storage(s: Seq<char>, i: int, fuel: nat) -> Option<
    (crate::model::StorageModel, int),
>
    decreases fuel, 17int,
{
    match expect(s, i, lit_collections()) {
        Some(j1) => match parse_collection_list(s, j1, fuel) {
            Some((collections, j2)) => match expect(s, j2, lit_environments()) {
                Some(j3) => match parse_environment_list(s, j3, fuel) {
                    Some((environments, j4)) => match expect(s, j4, seq!['}']) {
                        Some(j5) => Some(
                            (crate::model::StorageModel { collections, environments }, j5),
                        ),
                        None => None,
                    },
                    None => None,
                },
                None => None,
            },
            None => None,
        },
        None => None,
    }
}

/// The whole document a text holds, when the text is exactly one canonical
/// document.
pub open spec fn spec_parse_document(s: Seq<char>) -> Option<crate::model::StorageModel> {
    match parse_storage(s, 0, s.len()) {
        Some((m, j)) => if j == s.len() {
            Some(m)
        } else {
            None
        },
        None => None,
    }
}

/// A single collection document.
pub open spec fn spec_parse_collection_document(s: Seq<char>) -> Option<
    crate::model::CollectionModel,
> {
    match parse_collection(s, 0, s.len()) {
        Some((c, j)) => if j == s.len() {
            Some(c)
        } else {
            None
        },
        None => None,
    }
}


/// Fuel enough to parse one pair list.
pub open spec fn db_pair_items(ps: Seq<(Seq<char>, Seq<char>)>) -> nat
    decreases ps.len(),
{
    if ps.len() <= 1 {
        1
    } else {
        1 + db_pair_items(ps.drop_first())
    }
}

/// Fuel enough to parse a pair list.
pub open spec fn db_pair_list(ps: Seq<(Seq<char>, Seq<char>)>) -> nat {
    if ps.len() == 0 {
        0
    } else {
        db_pair_items(ps)
    }
}

/// The middle piece of a concatenation window stands at its offset.
proof fn lemma_concat_window(s: Seq<char>, i: int, pre: Seq<char>, mid: Seq<char>, post: Seq<char>)
    requires
        0 <= i,
        i + pre.len() + mid.len() + post.len() <= s.len(),
        s.subrange(i, i + pre.len() + mid.len() + post.len()) == pre + mid + post,
    ensures
        s.subrange(i, i + pre.len()) == pre,
        s.subrange(i + pre.len(), i + pre.len() + mid.len()) == mid,
        s.subrange(i + pre.len() + mid.len(), i + pre.len() + mid.len() + post.len()) == post,
{
    let w = pre + mid + post;
    let total = pre.len() + mid.len() + post.len();
    assert(s.subrange(i, i + pre.len()) =~= pre) by {
        assert(forall|k: int|
            0 <= k < pre.len() ==> #[trigger] s.subrange(i, i + pre.len())[k] == s.subrange(
                i,
                i + total,
            )[k]);
    }
    assert(s.subrange(i + pre.len(), i + pre.len() + mid.len()) =~= mid) by {
        assert(forall|k: int|
            0 <= k < mid.len() ==> #[trigger] s.subrange(
                i + pre.len(),
                i + pre.len() + mid.len(),
            )[k] == s.subrange(i, i + total)[pre.len() + k]);
    }
    assert(s.subrange(i + pre.len() + mid.len(), i + total) =~= post) by {
        assert(forall|k: int|
            0 <= k < post.len() ==> #[trigger] s.subrange(i + pre.len() + mid.len(), i + total)[k]
                == s.subrange(i, i + total)[pre.len() + mid.len() + k]);
    }
}

/// Reading a written pair (whatever follows it) yields the pair.
proof fn lemma_pair_roundtrip(s: Seq<char>, i: int, p: (Seq<char>, Seq<char>))
    requires
        0 <= i,
        i + ser_pair(p).len() <= s.len(),
        s.subrange(i, i + ser_pair(p).len()) == ser_pair(p),
    ensures
        parse_pair(s, i) == Some((p, i + ser_pair(p).len())),
{
    let a = ser_string(p.0);
    let b = ser_string(p.1);
    let w = ser_pair(p);
    assert(w =~= seq!['['] + a + (seq![','] + b + seq![']']));
    lemma_concat_window(s, i, seq!['['], a, seq![','] + b + seq![']']);
    assert(expect(s, i, seq!['[']) == Some(i + 1));
    assert(w =~= (seq!['['] + a) + seq![','] + (b + seq![']']));
    lemma_concat_window(s, i, seq!['['] + a, seq![','], b + seq![']']);
    assert(w =~= (seq!['['] + a + seq![',']) + b + seq![']']);
    lemma_concat_window(s, i, seq!['['] + a + seq![','], b, seq![']']);
    assert(w =~= (seq!['['] + a + seq![','] + b) + seq![']'] + Seq::<char>::empty());
    lemma_concat_window(s, i, seq!['['] + a + seq![','] + b, seq![']'], Seq::empty());
    lemma_string_roundtrip(s, i + 1, p.0);
    assert(expect(s, i + 1 + a.len(), seq![',']) == Some(i + 2 + a.len()));
    lemma_string_roundtrip(s, i + 2 + a.len(), p.1);
    assert(expect(s, i + 2 + a.len() + b.len(), seq![']']) == Some(i + 3 + a.len() + b.len()));
    assert(w.len() == 3 + a.len() + b.len());
}

/// Reading written pair-list elements (closing bracket included) yields the
/// elements.
proof fn lemma_pair_items_roundtrip(s: Seq<char>, i: int, ps: Seq<(Seq<char>, Seq<char>)>, fuel: nat)
    requires
        0 <= i,
        ps.len() > 0,
        fuel >= db_pair_items(ps),
        i + ser_pair_items(ps).len() + 1 <= s.len(),
        s.subrange(i, i + ser_pair_items(ps).len() + 1) == ser_pair_items(ps) + seq![']'],
    ensures
        parse_pair_items(s, i, fuel) == Some((ps, i + ser_pair_items(ps).len() + 1)),
    decreases ps.len(),
{
    let w = ser_pair_items(ps);
    let a = ser_pair(ps[0]);
    if ps.len() == 1 {
        assert(w == a);
        assert(w + seq![']'] =~= a + seq![']'] + Seq::<char>::empty());
        lemma_concat_window(s, i, Seq::empty(), a, seq![']']);
        lemma_pair_roundtrip(s, i, ps[0]);
        let j = i + a.len();
        lemma_concat_window(s, i, a, seq![']'], Seq::empty());
        assert(s.subrange(j, j + 1)[0] == ']');
        assert(s[j] == ']');
        assert(expect(s, j, seq![',']) is None) by {
            if expect(s, j, seq![',']) is Some {
                assert(s.subrange(j, j + 1) == seq![',']);
                assert(s[j] == ',');
            }
        }
        assert(expect(s, j, seq![']']) == Some(j + 1));
        assert(seq![ps[0]] =~= ps);
    } else {
        let rest = ser_pair_items(ps.drop_first());
        assert(w == a + seq![','] + rest);
        assert(w + seq![']'] =~= a + (seq![','] + rest + seq![']']));
        lemma_concat_window(s, i, Seq::empty(), a, seq![','] + rest + seq![']']);
        lemma_pair_roundtrip(s, i, ps[0]);
        let j = i + a.len();
        assert(w + seq![']'] =~= a + seq![','] + (rest + seq![']']));
        lemma_concat_window(s, i, a, seq![','], rest + seq![']']);
        assert(expect(s, j, seq![',']) == Some(j + 1));
        assert(w + seq![']'] =~= (a + seq![',']) + (rest + seq![']']) + Seq::<char>::empty());
        lemma_concat_window(s, i, a + seq![','], rest + seq![']'], Seq::empty());
        assert(s.subrange(j + 1, j + 1 + rest.len() + 1) =~= rest + seq![']']);
        lemma_pair_items_roundtrip(s, j + 1, ps.drop_first(), (fuel - 1) as nat);
        assert(seq![ps[0]] + ps.drop_first() =~= ps);
    }
}

/// Reading a written pair list (whatever follows it) yields the list.
proof fn lemma_pair_list_roundtrip(s: Seq<char>, i: int, ps: Seq<(Seq<char>, Seq<char>)>, fuel: nat)
    requires
        0 <= i,
        fuel >= db_pair_list(ps),
        i + ser_pair_list(ps).len() <= s.len(),
        s.subrange(i, i + ser_pair_list(ps).len()) == ser_pair_list(ps),
    ensures
        parse_pair_list(s, i, fuel) == Some((ps, i + ser_pair_list(ps).len())),
{
    let w = ser_pair_list(ps);
    if ps.len() == 0 {
        assert(w =~= seq!['['] + seq![']'] + Seq::<char>::empty());
        lemma_concat_window(s, i, seq!['['], seq![']'], Seq::empty());
        assert(s.subrange(i, i + 1) =~= seq!['[']) by {
            assert(s.subrange(i, i + 2)[0] == '[');
            assert(s.subrange(i, i + 1)[0] == s.subrange(i, i + 2)[0]);
        }
        assert(expect(s, i, seq!['[']) == Some(i + 1));
        assert(expect(s, i + 1, seq![']']) == Some(i + 2));
    } else {
        let items = ser_pair_items(ps);
        assert(w =~= seq!['['] + items + seq![']']);
        lemma_concat_window(s, i, seq!['['], items, seq![']']);
        assert(expect(s, i, seq!['[']) == Some(i + 1));
        assert(w =~= seq!['['] + (items + seq![']']) + Seq::<char>::empty());
        lemma_concat_window(s, i, seq!['['], items + seq![']'], Seq::empty());
        assert(s.subrange(i + 1, i + 1 + items.len() + 1) =~= items + seq![']']);
        // a non-empty list does not open with `]`
        assert(expect(s, i + 1, seq![']']) is None) by {
            assert(ser_pair(ps[0])[0] == '[');
            assert(items[0] == '[');
            assert(s[i + 1] == (items + seq![']'])[0]);
            if expect(s, i + 1, seq![']']) is Some {
                assert(s.subrange(i + 1, i + 2) == seq![']']);
                assert(s[i + 1] == ']');
            }
        }
        lemma_pair_items_roundtrip(s, i + 1, ps, fuel);
    }
}


/// Fuel enough to parse one entry list's elements.
pub open spec fn db_entry_items(es: Seq<crate::model::FormEntryModel>) -> nat
    decreases es.len(),
{
    if es.len() <= 1 {
        1
    } else {
        1 + db_entry_items(es.drop_first())
    }
}

/// Fuel enough to parse an entry list.
pub open spec fn db_entry_list(es: Seq<crate::model::FormEntryModel>) -> nat {
    if es.len() == 0 {
        0
    } else {
        db_entry_items(es)
    }
}

/// Fuel enough to parse one request.
pub open spec fn db_request(r: crate::model::RequestModel) -> nat {
    db_pair_list(r.headers) + db_entry_list(r.form_data) + db_pair_list(r.url_encoded_data)
        + db_pair_list(r.query_params)
}

/// Fuel enough to parse one request list's elements.
pub open spec fn db_request_items(rs: Seq<crate::model::RequestModel>) -> nat
    decreases rs.len(),
{
    if rs.len() == 0 {
        1
    } else if rs.len() == 1 {
        1 + db_request(rs[0])
    } else {
        1 + db_request(rs[0]) + db_request_items(rs.drop_first())
    }
}

/// Fuel enough to parse a request list.
pub open spec fn db_request_list(rs: Seq<crate::model::RequestModel>) -> nat {
    if rs.len() == 0 {
        0
    } else {
        db_request_items(rs)
    }
}

/// Fuel enough to parse one folder, subtree included.
pub open spec fn db_folder(f: crate::model::FolderModel) -> nat
    decreases f, 2int,
{
    db_request_list(f.requests) + db_folder_list(f.folders)
}

/// Fuel enough to parse a folder list.
pub open spec fn db_folder_list(fs: Seq<crate::model::FolderModel>) -> nat
    decreases fs, 1int,
{
    if fs.len() == 0 {
        0
    } else {
        db_folder_items(fs)
    }
}

/// Fuel enough to parse one folder list's elements.
pub open spec fn db_folder_items(fs: Seq<crate::model::FolderModel>) -> nat
    decreases fs, 0int,
{
    if fs.len() == 0 {
        1
    } else if fs.len() == 1 {
        1 + db_folder(fs[0])
    } else {
        1 + db_folder(fs[0]) + db_folder_items(fs.drop_first())
    }
}

/// Fuel enough to parse one collection.
pub open spec fn db_collection(c: crate::model::CollectionModel) -> nat {
    db_folder(c.root_folder)
}

/// Fuel enough to parse one collection list's elements.
pub open spec fn db_collection_items(cs: Seq<crate::model::CollectionModel>) -> nat
    decreases cs.len(),
{
    if cs.len() == 0 {
        1
    } else if cs.len() == 1 {
        1 + db_collection(cs[0])
    } else {
        1 + db_collection(cs[0]) + db_collection_items(cs.drop_first())
    }
}

/// Fuel enough to parse a collection list.
pub open spec fn db_collection_list(cs: Seq<crate::model::CollectionModel>) -> nat {
    if cs.len() == 0 {
        0
    } else {
        db_collection_items(cs)
    }
}

/// Fuel enough to parse one environment.
pub open spec fn db_environment(e: crate::model::EnvironmentModel) -> nat {
    db_pair_list(e.variables)
}

/// Fuel enough to parse one environment list's elements.
pub open spec fn db_environment_items(es: Seq<crate::model::EnvironmentModel>) -> nat
    decreases es.len(),
{
    if es.len() == 0 {
        1
    } else if es.len() == 1 {
        1 + db_environment(es[0])
    } else {
        1 + db_environment(es[0]) + db_environment_items(es.drop_first())
    }
}

/// Fuel enough to parse an environment list.
pub open spec fn db_environment_list(es: Seq<crate::model::EnvironmentModel>) -> nat {
    if es.len() == 0 {
        0
    } else {
        db_environment_items(es)
    }
}

/// Fuel enough to parse the whole document.
pub open spec fn db_storage(m: crate::model::StorageModel) -> nat {
    db_collection_list(m.collections) + db_environment_list(m.environments)
}


/// Reading a written body-kind tag yields the tag.
proof fn lemma_body_type_roundtrip(s: Seq<char>, i: int, bt: crate::model::BodyType)
    requires
        0 <= i,
        i + ser_string(body_type_name(bt)).len() <= s.len(),
        s.subrange(i, i + ser_string(body_type_name(bt)).len()) == ser_string(body_type_name(bt)),
    ensures
        parse_body_type(s, i) == Some((bt, i + ser_string(body_type_name(bt)).len())),
{
    lemma_string_roundtrip(s, i, body_type_name(bt));
    let none_n = body_type_name(crate::model::BodyType::NoBody);
    let raw_n = body_type_name(crate::model::BodyType::Raw);
    let json_n = body_type_name(crate::model::BodyType::Json);
    let form_n = body_type_name(crate::model::BodyType::FormData);
    let url_n = body_type_name(crate::model::BodyType::UrlEncoded);
    assert(none_n.len() == 4 && raw_n.len() == 3 && json_n.len() == 4 && form_n.len() == 8
        && url_n.len() == 10);
    assert(none_n[0] == 'N' && json_n[0] == 'J');
}


/// Reading a written text entry yields it back.
#[verifier::rlimit(100)]
proof fn lemma_entry_text_roundtrip(s: Seq<char>, i: int, key: Seq<char>, value: Seq<char>)
    requires
        0 <= i,
        i + ser_entry(crate::model::FormEntryModel::Text { key, value }).len() <= s.len(),
        s.subrange(i, i + ser_entry(crate::model::FormEntryModel::Text { key, value }).len())
            == ser_entry(crate::model::FormEntryModel::Text { key, value }),
    ensures
        parse_entry(s, i) == Some(
            (
                crate::model::FormEntryModel::Text { key, value },
                i + ser_entry(crate::model::FormEntryModel::Text { key, value }).len(),
            ),
        ),
{
    let w = ser_entry(crate::model::FormEntryModel::Text { key, value });
    let p0 = lit_text_open();
    let p1 = ser_string(key);
    let p2 = lit_value();
    let p3 = ser_string(value);
    let p4 = seq!['}', '}'];
    assert(w =~= Seq::empty() + p0 + (p1 + p2 + p3 + p4));
    lemma_concat_window(s, i, Seq::empty(), p0, p1 + p2 + p3 + p4);
    assert(w =~= (p0) + p1 + (p2 + p3 + p4));
    lemma_concat_window(s, i, p0, p1, p2 + p3 + p4);
    assert(w =~= (p0 + p1) + p2 + (p3 + p4));
    lemma_concat_window(s, i, p0 + p1, p2, p3 + p4);
    assert(w =~= (p0 + p1 + p2) + p3 + (p4));
    lemma_concat_window(s, i, p0 + p1 + p2, p3, p4);
    assert(w =~= (p0 + p1 + p2 + p3) + p4 + Seq::<char>::empty());
    lemma_concat_window(s, i, p0 + p1 + p2 + p3, p4, Seq::<char>::empty());
    assert(expect(s, i, lit_text_open()) == Some(i + lit_text_open().len()));
    lemma_string_roundtrip(s, i + p0.len(), key);
    assert(expect(s, i + p0.len() + p1.len(), lit_value()) == Some(i + p0.len() + p1.len() + lit_value().len()));
    lemma_string_roundtrip(s, i + p0.len() + p1.len() + p2.len(), value);
    assert(expect(s, i + p0.len() + p1.len() + p2.len() + p3.len(), seq!['}', '}']) == Some(i + p0.len() + p1.len() + p2.len() + p3.len() + 2));
}

/// Reading a written file entry yields it back.
#[verifier::rlimit(100)]
proof fn lemma_entry_file_roundtrip(
    s: Seq<char>,
    i: int,
    key: Seq<char>,
    file_path: Seq<char>,
    file_name: Seq<char>,
)
    requires
        0 <= i,
        i + ser_entry(
            crate::model::FormEntryModel::File { key, file_path, file_name },
        ).len() <= s.len(),
        s.subrange(
            i,
            i + ser_entry(crate::model::FormEntryModel::File { key, file_path, file_name }).len(),
        ) == ser_entry(crate::model::FormEntryModel::File { key, file_path, file_name }),
    ensures
        parse_entry(s, i) == Some(
            (
                crate::model::FormEntryModel::File { key, file_path, file_name },
                i + ser_entry(
                    crate::model::FormEntryModel::File { key, file_path, file_name },
                ).len(),
            ),
        ),
{
    let w = ser_entry(crate::model::FormEntryModel::File { key, file_path, file_name });
    let p0 = lit_file_open();
    let p1 = ser_string(key);
    let p2 = lit_file_path();
    let p3 = ser_string(file_path);
    let p4 = lit_file_name();
    let p5 = ser_string(file_name);
    let p6 = seq!['}', '}'];
    assert(w =~= Seq::empty() + p0 + (p1 + p2 + p3 + p4 + p5 + p6));
    lemma_concat_window(s, i, Seq::empty(), p0, p1 + p2 + p3 + p4 + p5 + p6);
    assert(w =~= (p0) + p1 + (p2 + p3 + p4 + p5 + p6));
    lemma_concat_window(s, i, p0, p1, p2 + p3 + p4 + p5 + p6);
    assert(w =~= (p0 + p1) + p2 + (p3 + p4 + p5 + p6));
    lemma_concat_window(s, i, p0 + p1, p2, p3 + p4 + p5 + p6);
    assert(w =~= (p0 + p1 + p2) + p3 + (p4 + p5 + p6));
    lemma_concat_window(s, i, p0 + p1 + p2, p3, p4 + p5 + p6);
    assert(w =~= (p0 + p1 + p2 + p3) + p4 + (p5 + p6));
    lemma_concat_window(s, i, p0 + p1 + p2 + p3, p4, p5 + p6);
    assert(w =~= (p0 + p1 + p2 + p3 + p4) + p5 + (p6));
    lemma_concat_window(s, i, p0 + p1 + p2 + p3 + p4, p5, p6);
    assert(w =~= (p0 + p1 + p2 + p3 + p4 + p5) + p6 + Seq::<char>::empty());
    lemma_concat_window(s, i, p0 + p1 + p2 + p3 + p4 + p5, p6, Seq::<char>::empty());
    assert(expect(s, i, lit_file_open()) == Some(i + lit_file_open().len()));
    assert(s[i + 2] == 'F');
    assert(expect(s, i, lit_text_open()) is None) by {
    if expect(s, i, lit_text_open()) is Some {
        assert(s.subrange(i, i + lit_text_open().len())[2] == 'T');
        assert(s[i + 2] == 'T');
    }
        }
    lemma_string_roundtrip(s, i + p0.len(), key);
    assert(expect(s, i + p0.len() + p1.len(), lit_file_path()) == Some(i + p0.len() + p1.len() + lit_file_path().len()));
    lemma_string_roundtrip(s, i + p0.len() + p1.len() + p2.len(), file_path);
    assert(expect(s, i + p0.len() + p1.len() + p2.len() + p3.len(), lit_file_name()) == Some(i + p0.len() + p1.len() + p2.len() + p3.len() + lit_file_name().len()));
    lemma_string_roundtrip(s, i + p0.len() + p1.len() + p2.len() + p3.len() + p4.len(), file_name);
    assert(expect(s, i + p0.len() + p1.len() + p2.len() + p3.len() + p4.len() + p5.len(), seq!['}', '}']) == Some(i + p0.len() + p1.len() + p2.len() + p3.len() + p4.len() + p5.len() + 2));
}

/// Reading a written form-data entry (whatever follows it) yields it back.
proof fn lemma_entry_roundtrip(s: Seq<char>, i: int, x: crate::model::FormEntryModel)
    requires
        0 <= i,
        i + ser_entry(x).len() <= s.len(),
        s.subrange(i, i + ser_entry(x).len()) == ser_entry(x),
    ensures
        parse_entry(s, i) == Some((x, i + ser_entry(x).len())),
{
    match x {
        crate::model::FormEntryModel::Text { key, value } => {
            lemma_entry_text_roundtrip(s, i, key, value);
        },
        crate::model::FormEntryModel::File { key, file_path, file_name } => {
            lemma_entry_file_roundtrip(s, i, key, file_path, file_name);
        },
    }
}

/// Reading written entry-list elements (closing bracket included) yields
/// the elements.
#[verifier::rlimit(100)]
proof fn lemma_entry_items_roundtrip(s: Seq<char>, i: int, xs: Seq<crate::model::FormEntryModel>, fuel: nat)
    requires
        0 <= i,
        xs.len() > 0,
        fuel >= db_entry_items(xs),
        i + ser_entry_items(xs).len() + 1 <= s.len(),
        s.subrange(i, i + ser_entry_items(xs).len() + 1) == ser_entry_items(xs) + seq![']'],
    ensures
        parse_entry_items(s, i, fuel) == Some((xs, i + ser_entry_items(xs).len() + 1)),
    decreases xs.len(),
{
    let w = ser_entry_items(xs);
    let a = ser_entry(xs[0]);
    if xs.len() == 1 {
        assert(w == a);
        assert(w + seq![']'] =~= a + seq![']'] + Seq::<char>::empty());
        lemma_concat_window(s, i, Seq::empty(), a, seq![']']);
        lemma_entry_roundtrip(s, i, xs[0]);
        let j = i + a.len();
        lemma_concat_window(s, i, a, seq![']'], Seq::empty());
        assert(s.subrange(j, j + 1)[0] == ']');
        assert(s[j] == ']');
        assert(expect(s, j, seq![',']) is None) by {
            if expect(s, j, seq![',']) is Some {
                assert(s.subrange(j, j + 1) == seq![',']);
                assert(s[j] == ',');
            }
        }
        assert(expect(s, j, seq![']']) == Some(j + 1));
        assert(seq![xs[0]] =~= xs);
    } else {
        let rest = ser_entry_items(xs.drop_first());
        assert(w == a + seq![','] + rest);
        assert(w + seq![']'] =~= Seq::empty() + a + (seq![','] + rest + seq![']']));
        lemma_concat_window(s, i, Seq::empty(), a, seq![','] + rest + seq![']']);
        lemma_entry_roundtrip(s, i, xs[0]);
        let j = i + a.len();
        assert(w + seq![']'] =~= a + seq![','] + (rest + seq![']']));
        lemma_concat_window(s, i, a, seq![','], rest + seq![']']);
        assert(expect(s, j, seq![',']) == Some(j + 1));
        assert(w + seq![']'] =~= (a + seq![',']) + (rest + seq![']']) + Seq::<char>::empty());
        lemma_concat_window(s, i, a + seq![','], rest + seq![']'], Seq::empty());
        assert(s.subrange(j + 1, j + 1 + rest.len() + 1) =~= rest + seq![']']);
        lemma_entry_items_roundtrip(s, j + 1, xs.drop_first(), (fuel - 1) as nat);
        assert(seq![xs[0]] + xs.drop_first() =~= xs);
    }
}

/// Reading a written entry list (whatever follows it) yields the list.
#[verifier::rlimit(100)]
proof fn lemma_entry_list_roundtrip(s: Seq<char>, i: int, xs: Seq<crate::model::FormEntryModel>, fuel: nat)
    requires
        0 <= i,
        fuel >= db_entry_list(xs),
        i + ser_entry_list(xs).len() <= s.len(),
        s.subrange(i, i + ser_entry_list(xs).len()) == ser_entry_list(xs),
    ensures
        parse_entry_list(s, i, fuel) == Some((xs, i + ser_entry_list(xs).len())),
{
    let w = ser_entry_list(xs);
    if xs.len() == 0 {
        assert(w =~= seq!['['] + seq![']'] + Seq::<char>::empty());
        lemma_concat_window(s, i, seq!['['], seq![']'], Seq::empty());
        assert(s.subrange(i, i + 1) =~= seq!['[']) by {
            assert(s.subrange(i, i + 2)[0] == '[');
            assert(s.subrange(i, i + 1)[0] == s.subrange(i, i + 2)[0]);
        }
        assert(expect(s, i, seq!['[']) == Some(i + 1));
        assert(expect(s, i + 1, seq![']']) == Some(i + 2));
    } else {
        let items = ser_entry_items(xs);
        assert(w =~= seq!['['] + items + seq![']']);
        lemma_concat_window(s, i, seq!['['], items, seq![']']);
        assert(expect(s, i, seq!['[']) == Some(i + 1));
        assert(w =~= seq!['['] + (items + seq![']']) + Seq::<char>::empty());
        lemma_concat_window(s, i, seq!['['], items + seq![']'], Seq::empty());
        assert(s.subrange(i + 1, i + 1 + items.len() + 1) =~= items + seq![']']);
        assert(expect(s, i + 1, seq![']']) is None) by {
            assert(ser_entry(xs[0])[0] == '{') by { match xs[0] { crate::model::FormEntryModel::Text { key, value } => {}, crate::model::FormEntryModel::File { key, file_path, file_name } => {} } }
            assert(items[0] == '{');
            assert(s[i + 1] == (items + seq![']'])[0]);
            if expect(s, i + 1, seq![']']) is Some {
                assert(s.subrange(i + 1, i + 2) == seq![']']);
                assert(s[i + 1] == ']');
            }
        }
        lemma_entry_items_roundtrip(s, i + 1, xs, fuel);
    }
}


/// Reading a written request (whatever follows it) yields it back.
#[verifier::rlimit(100)]
proof fn lemma_request_roundtrip(s: Seq<char>, i: int, x: crate::model::RequestModel, fuel: nat)
    requires
        0 <= i,
        fuel >= db_request(x),
        i + ser_request(x).len() <= s.len(),
        s.subrange(i, i + ser_request(x).len()) == ser_request(x),
    ensures
        parse_request(s, i, fuel) == Some((x, i + ser_request(x).len())),
{
    let p0 = lit_id();
    let p1 = ser_string(x.id);
    let p2 = lit_name();
    let p3 = ser_string(x.name);
    let p4 = lit_method();
    let p5 = ser_string(x.method);
    let p6 = lit_url();
    let p7 = ser_string(x.url);
    let p8 = lit_headers();
    let p9 = ser_pair_list(x.headers);
    let p10 = lit_body();
    let p11 = ser_string(x.body);
    let p12 = lit_body_type();
    let p13 = ser_string(body_type_name(x.body_type));
    let p14 = lit_form_data();
    let p15 = ser_entry_list(x.form_data);
    let p16 = lit_url_encoded();
    let p17 = ser_pair_list(x.url_encoded_data);
    let p18 = lit_query_params();
    let p19 = ser_pair_list(x.query_params);
    let p20 = seq!['}'];
    let o0 = i;
    let o1 = o0 + p0.len();
    let o2 = o1 + p1.len();
    let o3 = o2 + p2.len();
    let o4 = o3 + p3.len();
    let o5 = o4 + p4.len();
    let o6 = o5 + p5.len();
    let o7 = o6 + p6.len();
    let o8 = o7 + p7.len();
    let o9 = o8 + p8.len();
    let o10 = o9 + p9.len();
    let o11 = o10 + p10.len();
    let o12 = o11 + p11.len();
    let o13 = o12 + p12.len();
    let o14 = o13 + p13.len();
    let o15 = o14 + p14.len();
    let o16 = o15 + p15.len();
    let o17 = o16 + p16.len();
    let o18 = o17 + p17.len();
    let o19 = o18 + p18.len();
    let o20 = o19 + p19.len();
    let o21 = o20 + p20.len();
    assert(o21 == i + ser_request(x).len() && s.subrange(o0, o1) == p0 &&
        s.subrange(o1, o2) == p1 &&
        s.subrange(o2, o3) == p2 &&
        s.subrange(o3, o4) == p3 &&
        s.subrange(o4, o5) == p4 &&
        s.subrange(o5, o6) == p5 &&
        s.subrange(o6, o7) == p6 &&
        s.subrange(o7, o8) == p7 &&
        s.subrange(o8, o9) == p8 &&
        s.subrange(o9, o10) == p9 &&
        s.subrange(o10, o11) == p10 &&
        s.subrange(o11, o12) == p11 &&
        s.subrange(o12, o13) == p12 &&
        s.subrange(o13, o14) == p13 &&
        s.subrange(o14, o15) == p14 &&
        s.subrange(o15, o16) == p15 &&
        s.subrange(o16, o17) == p16 &&
        s.subrange(o17, o18) == p17 &&
        s.subrange(o18, o19) == p18 &&
        s.subrange(o19, o20) == p19 &&
        s.subrange(o20, o21) == p20) by {
        reveal(ser_request);
        let w = ser_request(x);
        let t20 = p20;
        let t19 = p19 + t20;
        let t18 = p18 + t19;
        let t17 = p17 + t18;
        let t16 = p16 + t17;
        let t15 = p15 + t16;
        let t14 = p14 + t15;
        let t13 = p13 + t14;
        let t12 = p12 + t13;
        let t11 = p11 + t12;
        let t10 = p10 + t11;
        let t9 = p9 + t10;
        let t8 = p8 + t9;
        let t7 = p7 + t8;
        let t6 = p6 + t7;
        let t5 = p5 + t6;
        let t4 = p4 + t5;
        let t3 = p3 + t4;
        let t2 = p2 + t3;
        let t1 = p1 + t2;
        let t0 = p0 + t1;
        assert(t10 == ser_request_tail(x));
        assert(w == t0);
        lemma_split2(s, o0, p0, t1);
        lemma_split2(s, o1, p1, t2);
        lemma_split2(s, o2, p2, t3);
        lemma_split2(s, o3, p3, t4);
        lemma_split2(s, o4, p4, t5);
        lemma_split2(s, o5, p5, t6);
        lemma_split2(s, o6, p6, t7);
        lemma_split2(s, o7, p7, t8);
        lemma_split2(s, o8, p8, t9);
        lemma_split2(s, o9, p9, t10);
        lemma_split2(s, o10, p10, t11);
        lemma_split2(s, o11, p11, t12);
        lemma_split2(s, o12, p12, t13);
        lemma_split2(s, o13, p13, t14);
        lemma_split2(s, o14, p14, t15);
        lemma_split2(s, o15, p15, t16);
        lemma_split2(s, o16, p16, t17);
        lemma_split2(s, o17, p17, t18);
        lemma_split2(s, o18, p18, t19);
        lemma_split2(s, o19, p19, t20);
        assert(s.subrange(o20, o21) == p20);
    }
    assert(expect(s, o0, lit_id()) == Some(o1));
    lemma_string_roundtrip(s, o1, x.id);
    assert(expect(s, o2, lit_name()) == Some(o3));
    lemma_string_roundtrip(s, o3, x.name);
    assert(expect(s, o4, lit_method()) == Some(o5));
    lemma_string_roundtrip(s, o5, x.method);
    assert(expect(s, o6, lit_url()) == Some(o7));
    lemma_string_roundtrip(s, o7, x.url);
    assert(expect(s, o8, lit_headers()) == Some(o9));
    lemma_pair_list_roundtrip(s, o9, x.headers, fuel);
    assert(expect(s, o10, lit_body()) == Some(o11));
    lemma_string_roundtrip(s, o11, x.body);
    assert(expect(s, o12, lit_body_type()) == Some(o13));
    lemma_body_type_roundtrip(s, o13, x.body_type);
    assert(expect(s, o14, lit_form_data()) == Some(o15));
    lemma_entry_list_roundtrip(s, o15, x.form_data, fuel);
    assert(expect(s, o16, lit_url_encoded()) == Some(o17));
    lemma_pair_list_roundtrip(s, o17, x.url_encoded_data, fuel);
    assert(expect(s, o18, lit_query_params()) == Some(o19));
    lemma_pair_list_roundtrip(s, o19, x.query_params, fuel);
    assert(expect(s, o20, seq!['}']) == Some(o21));
    assert(parse_request(s, i, fuel) == Some((x, o21))) by {
        reveal(parse_request);
        assert(crate::model::RequestModel {
            id: x.id,
            name: x.name,
            method: x.method,
            url: x.url,
            headers: x.headers,
            body: x.body,
            body_type: x.body_type,
            form_data: x.form_data,
            url_encoded_data: x.url_encoded_data,
            query_params: x.query_params,
        } =~= x);
    }
}

/// The head of a matched two-part window stands first, the tail after it.
proof fn lemma_split2(s: Seq<char>, pos: int, a: Seq<char>, b: Seq<char>)
    requires
        0 <= pos,
        pos + a.len() + b.len() <= s.len(),
        s.subrange(pos, pos + a.len() + b.len()) == a + b,
    ensures
        s.subrange(pos, pos + a.len()) == a,
        s.subrange(pos + a.len(), pos + a.len() + b.len()) == b,
{
    assert(s.subrange(pos, pos + a.len()) =~= a) by {
        assert(forall|k: int|
            0 <= k < a.len() ==> #[trigger] s.subrange(pos, pos + a.len())[k] == s.subrange(
                pos,
                pos + a.len() + b.len(),
            )[k]);
    }
    assert(s.subrange(pos + a.len(), pos + a.len() + b.len()) =~= b) by {
        assert(forall|k: int|
            0 <= k < b.len() ==> #[trigger] s.subrange(pos + a.len(), pos + a.len() + b.len())[k]
                == s.subrange(pos, pos + a.len() + b.len())[a.len() + k]);
    }
}

/// Reading written request-list elements (closing bracket included) yields
/// the elements.
#[verifier::rlimit(100)]
proof fn lemma_request_items_roundtrip(s: Seq<char>, i: int, xs: Seq<crate::model::RequestModel>, fuel: nat)
    requires
        0 <= i,
        xs.len() > 0,
        fuel >= db_request_items(xs),
        i + ser_request_items(xs).len() + 1 <= s.len(),
        s.subrange(i, i + ser_request_items(xs).len() + 1) == ser_request_items(xs) + seq![']'],
    ensures
        parse_request_items(s, i, fuel) == Some((xs, i + ser_request_items(xs).len() + 1)),
    decreases xs.len(),
{
    let w = ser_request_items(xs);
    let a = ser_request(xs[0]);
    if xs.len() == 1 {
        assert(w == a);
        assert(w + seq![']'] =~= a + seq![']'] + Seq::<char>::empty());
        lemma_concat_window(s, i, Seq::empty(), a, seq![']']);
        lemma_request_roundtrip(s, i, xs[0], fuel);
        let j = i + a.len();
        lemma_concat_window(s, i, a, seq![']'], Seq::empty());
        assert(s.subrange(j, j + 1)[0] == ']');
        assert(s[j] == ']');
        assert(expect(s, j, seq![',']) is None) by {
            if expect(s, j, seq![',']) is Some {
                assert(s.subrange(j, j + 1) == seq![',']);
                assert(s[j] == ',');
            }
        }
        assert(expect(s, j, seq![']']) == Some(j + 1));
        assert(seq![xs[0]] =~= xs);
    } else {
        let rest = ser_request_items(xs.drop_first());
        assert(w == a + seq![','] + rest);
        assert(w + seq![']'] =~= Seq::empty() + a + (seq![','] + rest + seq![']']));
        lemma_concat_window(s, i, Seq::empty(), a, seq![','] + rest + seq![']']);
        lemma_request_roundtrip(s, i, xs[0], fuel);
        let j = i + a.len();
        assert(w + seq![']'] =~= a + seq![','] + (rest + seq![']']));
        lemma_concat_window(s, i, a, seq![','], rest + seq![']']);
        assert(expect(s, j, seq![',']) == Some(j + 1));
        assert(w + seq![']'] =~= (a + seq![',']) + (rest + seq![']']) + Seq::<char>::empty());
        lemma_concat_window(s, i, a + seq![','], rest + seq![']'], Seq::empty());
        assert(s.subrange(j + 1, j + 1 + rest.len() + 1) =~= rest + seq![']']);
        lemma_request_items_roundtrip(s, j + 1, xs.drop_first(), (fuel - 1) as nat);
        assert(seq![xs[0]] + xs.drop_first() =~= xs);
    }
}

/// Reading a written request list (whatever follows it) yields the list.
#[verifier::rlimit(100)]
proof fn lemma_request_list_roundtrip(s: Seq<char>, i: int, xs: Seq<crate::model::RequestModel>, fuel: nat)
    requires
        0 <= i,
        fuel >= db_request_list(xs),
        i + ser_request_list(xs).len() <= s.len(),
        s.subrange(i, i + ser_request_list(xs).len()) == ser_request_list(xs),
    ensures
        parse_request_list(s, i, fuel) == Some((xs, i + ser_request_list(xs).len())),
{
    let w = ser_request_list(xs);
    if xs.len() == 0 {
        assert(w =~= seq!['['] + seq![']'] + Seq::<char>::empty());
        lemma_concat_window(s, i, seq!['['], seq![']'], Seq::empty());
        assert(s.subrange(i, i + 1) =~= seq!['[']) by {
            assert(s.subrange(i, i + 2)[0] == '[');
            assert(s.subrange(i, i + 1)[0] == s.subrange(i, i + 2)[0]);
        }
        assert(expect(s, i, seq!['[']) == Some(i + 1));
        assert(expect(s, i + 1, seq![']']) == Some(i + 2));
    } else {
        let items = ser_request_items(xs);
        assert(w =~= seq!['['] + items + seq![']']);
        lemma_concat_window(s, i, seq!['['], items, seq![']']);
        assert(expect(s, i, seq!['[']) == Some(i + 1));
        assert(w =~= seq!['['] + (items + seq![']']) + Seq::<char>::empty());
        lemma_concat_window(s, i, seq!['['], items + seq![']'], Seq::empty());
        assert(s.subrange(i + 1, i + 1 + items.len() + 1) =~= items + seq![']']);
        assert(expect(s, i + 1, seq![']']) is None) by {
            reveal(ser_request);
            assert(ser_request(xs[0])[0] == '{');
            assert(items[0] == '{');
            assert(s[i + 1] == (items + seq![']'])[0]);
            if expect(s, i + 1, seq![']']) is Some {
                assert(s.subrange(i + 1, i + 2) == seq![']']);
                assert(s[i + 1] == ']');
            }
        }
        lemma_request_items_roundtrip(s, i + 1, xs, fuel);
    }
}


/// Reading a written folder (whatever follows it) yields it back.
#[verifier::rlimit(100)]
proof fn lemma_folder_roundtrip(s: Seq<char>, i: int, x: crate::model::FolderModel, fuel: nat)
    requires
        0 <= i,
        fuel >= db_folder(x),
        i + ser_folder(x).len() <= s.len(),
        s.subrange(i, i + ser_folder(x).len()) == ser_folder(x),
    ensures
        parse_folder(s, i, fuel) == Some((x, i + ser_folder(x).len())),
    decreases x, 2int,
{
    let p0 = lit_id();
    let p1 = ser_string(x.id);
    let p2 = lit_name();
    let p3 = ser_string(x.name);
    let p4 = lit_requests();
    let p5 = ser_request_list(x.requests);
    let p6 = lit_folders();
    let p7 = ser_folder_list(x.folders);
    let p8 = seq!['}'];
    let o0 = i;
    let o1 = o0 + p0.len();
    let o2 = o1 + p1.len();
    let o3 = o2 + p2.len();
    let o4 = o3 + p3.len();
    let o5 = o4 + p4.len();
    let o6 = o5 + p5.len();
    let o7 = o6 + p6.len();
    let o8 = o7 + p7.len();
    let o9 = o8 + p8.len();
    assert(o9 == i + ser_folder(x).len() &&
        s.subrange(o0, o1) == p0 &&
        s.subrange(o1, o2) == p1 &&
        s.subrange(o2, o3) == p2 &&
        s.subrange(o3, o4) == p3 &&
        s.subrange(o4, o5) == p4 &&
        s.subrange(o5, o6) == p5 &&
        s.subrange(o6, o7) == p6 &&
        s.subrange(o7, o8) == p7 &&
        s.subrange(o8, o9) == p8) by {
        let w = ser_folder(x);
        let t8 = p8;
        let t7 = p7 + t8;
        let t6 = p6 + t7;
        let t5 = p5 + t6;
        let t4 = p4 + t5;
        let t3 = p3 + t4;
        let t2 = p2 + t3;
        let t1 = p1 + t2;
        let t0 = p0 + t1;
        assert(w == t0);
        lemma_split2(s, o0, p0, t1);
        lemma_split2(s, o1, p1, t2);
        lemma_split2(s, o2, p2, t3);
        lemma_split2(s, o3, p3, t4);
        lemma_split2(s, o4, p4, t5);
        lemma_split2(s, o5, p5, t6);
        lemma_split2(s, o6, p6, t7);
        lemma_split2(s, o7, p7, t8);
        assert(s.subrange(o8, o9) == p8);
    }
    assert(expect(s, o0, lit_id()) == Some(o1));
    lemma_string_roundtrip(s, o1, x.id);
    assert(expect(s, o2, lit_name()) == Some(o3));
    lemma_string_roundtrip(s, o3, x.name);
    assert(expect(s, o4, lit_requests()) == Some(o5));
    lemma_request_list_roundtrip(s, o5, x.requests, fuel);
    assert(expect(s, o6, lit_folders()) == Some(o7));
    lemma_folder_list_roundtrip(s, o7, x.folders, fuel);
    assert(expect(s, o8, seq!['}']) == Some(o9));
    assert(parse_folder(s, i, fuel) == Some((x, o9))) by {
        assert(crate::model::FolderModel { id: x.id, name: x.name, requests: x.requests, folders: x.folders } =~= x);
    }
}


/// Reading written folder-list elements (closing bracket included) yields
/// the elements.
#[verifier::rlimit(100)]
proof fn lemma_folder_items_roundtrip(s: Seq<char>, i: int, xs: Seq<crate::model::FolderModel>, fuel: nat)
    requires
        0 <= i,
        xs.len() > 0,
        fuel >= db_folder_items(xs),
        i + ser_folder_items(xs).len() + 1 <= s.len(),
        s.subrange(i, i + ser_folder_items(xs).len() + 1) == ser_folder_items(xs) + seq![']'],
    ensures
        parse_folder_items(s, i, fuel) == Some((xs, i + ser_folder_items(xs).len() + 1)),
    decreases xs, 0int,
{
    let w = ser_folder_items(xs);
    let a = ser_folder(xs[0]);
    if xs.len() == 1 {
        assert(w == a);
        assert(w + seq![']'] =~= a + seq![']'] + Seq::<char>::empty());
        lemma_concat_window(s, i, Seq::empty(), a, seq![']']);
        lemma_folder_roundtrip(s, i, xs[0], (fuel - 1) as nat);
        let j = i + a.len();
        lemma_concat_window(s, i, a, seq![']'], Seq::empty());
        assert(s.subrange(j, j + 1)[0] == ']');
        assert(s[j] == ']');
        assert(expect(s, j, seq![',']) is None) by {
            if expect(s, j, seq![',']) is Some {
                assert(s.subrange(j, j + 1) == seq![',']);
                assert(s[j] == ',');
            }
        }
        assert(expect(s, j, seq![']']) == Some(j + 1));
        assert(seq![xs[0]] =~= xs);
    } else {
        let rest = ser_folder_items(xs.drop_first());
        assert(w == a + seq![','] + rest);
        assert(w + seq![']'] =~= Seq::empty() + a + (seq![','] + rest + seq![']']));
        lemma_concat_window(s, i, Seq::empty(), a, seq![','] + rest + seq![']']);
        lemma_folder_roundtrip(s, i, xs[0], (fuel - 1) as nat);
        let j = i + a.len();
        assert(w + seq![']'] =~= a + seq![','] + (rest + seq![']']));
        lemma_concat_window(s, i, a, seq![','], rest + seq![']']);
        assert(expect(s, j, seq![',']) == Some(j + 1));
        assert(w + seq![']'] =~= (a + seq![',']) + (rest + seq![']']) + Seq::<char>::empty());
        lemma_concat_window(s, i, a + seq![','], rest + seq![']'], Seq::empty());
        assert(s.subrange(j + 1, j + 1 + rest.len() + 1) =~= rest + seq![']']);
        lemma_folder_items_roundtrip(s, j + 1, xs.drop_first(), (fuel - 1) as nat);
        assert(seq![xs[0]] + xs.drop_first() =~= xs);
    }
}

/// Reading a written folder list (whatever follows it) yields the list.
#[verifier::rlimit(100)]
proof fn lemma_folder_list_roundtrip(s: Seq<char>, i: int, xs: Seq<crate::model::FolderModel>, fuel: nat)
    requires
        0 <= i,
        fuel >= db_folder_list(xs),
        i + ser_folder_list(xs).len() <= s.len(),
        s.subrange(i, i + ser_folder_list(xs).len()) == ser_folder_list(xs),
    ensures
        parse_folder_list(s, i, fuel) == Some((xs, i + ser_folder_list(xs).len())),
    decreases xs, 1int,
{
    let w = ser_folder_list(xs);
    if xs.len() == 0 {
        assert(w =~= seq!['['] + seq![']'] + Seq::<char>::empty());
        lemma_concat_window(s, i, seq!['['], seq![']'], Seq::empty());
        assert(s.subrange(i, i + 1) =~= seq!['[']) by {
            assert(s.subrange(i, i + 2)[0] == '[');
            assert(s.subrange(i, i + 1)[0] == s.subrange(i, i + 2)[0]);
        }
        assert(expect(s, i, seq!['[']) == Some(i + 1));
        assert(expect(s, i + 1, seq![']']) == Some(i + 2));
    } else {
        let items = ser_folder_items(xs);
        assert(w =~= seq!['['] + items + seq![']']);
        lemma_concat_window(s, i, seq!['['], items, seq![']']);
        assert(expect(s, i, seq!['[']) == Some(i + 1));
        assert(w =~= seq!['['] + (items + seq![']']) + Seq::<char>::empty());
        lemma_concat_window(s, i, seq!['['], items + seq![']'], Seq::empty());
        assert(s.subrange(i + 1, i + 1 + items.len() + 1) =~= items + seq![']']);
        assert(expect(s, i + 1, seq![']']) is None) by {
            assert(ser_folder(xs[0])[0] == '{');
            assert(items[0] == '{');
            assert(s[i + 1] == (items + seq![']'])[0]);
            if expect(s, i + 1, seq![']']) is Some {
                assert(s.subrange(i + 1, i + 2) == seq![']']);
                assert(s[i + 1] == ']');
            }
        }
        lemma_folder_items_roundtrip(s, i + 1, xs, fuel);
    }
}


/// Reading a written collection (whatever follows it) yields it back.
#[verifier::rlimit(100)]
proof fn lemma_collection_roundtrip(s: Seq<char>, i: int, x: crate::model::CollectionModel, fuel: nat)
    requires
        0 <= i,
        fuel >= db_collection(x),
        i + ser_collection(x).len() <= s.len(),
        s.subrange(i, i + ser_collection(x).len()) == ser_collection(x),
    ensures
        parse_collection(s, i, fuel) == Some((x, i + ser_collection(x).len())),
{
    let p0 = lit_id();
    let p1 = ser_string(x.id);
    let p2 = lit_name();
    let p3 = ser_string(x.name);
    let p4 = lit_root_folder();
    let p5 = ser_folder(x.root_folder);
    let p6 = seq!['}'];
    let o0 = i;
    let o1 = o0 + p0.len();
    let o2 = o1 + p1.len();
    let o3 = o2 + p2.len();
    let o4 = o3 + p3.len();
    let o5 = o4 + p4.len();
    let o6 = o5 + p5.len();
    let o7 = o6 + p6.len();
    assert(o7 == i + ser_collection(x).len() &&
        s.subrange(o0, o1) == p0 &&
        s.subrange(o1, o2) == p1 &&
        s.subrange(o2, o3) == p2 &&
        s.subrange(o3, o4) == p3 &&
        s.subrange(o4, o5) == p4 &&
        s.subrange(o5, o6) == p5 &&
        s.subrange(o6, o7) == p6) by {
        let w = ser_collection(x);
        let t6 = p6;
        let t5 = p5 + t6;
        let t4 = p4 + t5;
        let t3 = p3 + t4;
        let t2 = p2 + t3;
        let t1 = p1 + t2;
        let t0 = p0 + t1;
        assert(w == t0);
        lemma_split2(s, o0, p0, t1);
        lemma_split2(s, o1, p1, t2);
        lemma_split2(s, o2, p2, t3);
        lemma_split2(s, o3, p3, t4);
        lemma_split2(s, o4, p4, t5);
        lemma_split2(s, o5, p5, t6);
        assert(s.subrange(o6, o7) == p6);
    }
    assert(expect(s, o0, lit_id()) == Some(o1));
    lemma_string_roundtrip(s, o1, x.id);
    assert(expect(s, o2, lit_name()) == Some(o3));
    lemma_string_roundtrip(s, o3, x.name);
    assert(expect(s, o4, lit_root_folder()) == Some(o5));
    lemma_folder_roundtrip(s, o5, x.root_folder, fuel);
    assert(expect(s, o6, seq!['}']) == Some(o7));
    assert(parse_collection(s, i, fuel) == Some((x, o7))) by {
        assert(crate::model::CollectionModel { id: x.id, name: x.name, root_folder: x.root_folder } =~= x);
    }
}


/// Reading written collection-list elements (closing bracket included) yields
/// the elements.
#[verifier::rlimit(100)]
proof fn lemma_collection_items_roundtrip(s: Seq<char>, i: int, xs: Seq<crate::model::CollectionModel>, fuel: nat)
    requires
        0 <= i,
        xs.len() > 0,
        fuel >= db_collection_items(xs),
        i + ser_collection_items(xs).len() + 1 <= s.len(),
        s.subrange(i, i + ser_collection_items(xs).len() + 1) == ser_collection_items(xs) + seq![']'],
    ensures
        parse_collection_items(s, i, fuel) == Some((xs, i + ser_collection_items(xs).len() + 1)),
    decreases xs.len(),
{
    let w = ser_collection_items(xs);
    let a = ser_collection(xs[0]);
    if xs.len() == 1 {
        assert(w == a);
        assert(w + seq![']'] =~= a + seq![']'] + Seq::<char>::empty());
        lemma_concat_window(s, i, Seq::empty(), a, seq![']']);
        lemma_collection_roundtrip(s, i, xs[0], fuel);
        let j = i + a.len();
        lemma_concat_window(s, i, a, seq![']'], Seq::empty());
        assert(s.subrange(j, j + 1)[0] == ']');
        assert(s[j] == ']');
        assert(expect(s, j, seq![',']) is None) by {
            if expect(s, j, seq![',']) is Some {
                assert(s.subrange(j, j + 1) == seq![',']);
                assert(s[j] == ',');
            }
        }
        assert(expect(s, j, seq![']']) == Some(j + 1));
        assert(seq![xs[0]] =~= xs);
    } else {
        let rest = ser_collection_items(xs.drop_first());
        assert(w == a + seq![','] + rest);
        assert(w + seq![']'] =~= Seq::empty() + a + (seq![','] + rest + seq![']']));
        lemma_concat_window(s, i, Seq::empty(), a, seq![','] + rest + seq![']']);
        lemma_collection_roundtrip(s, i, xs[0], fuel);
        let j = i + a.len();
        assert(w + seq![']'] =~= a + seq![','] + (rest + seq![']']));
        lemma_concat_window(s, i, a, seq![','], rest + seq![']']);
        assert(expect(s, j, seq![',']) == Some(j + 1));
        assert(w + seq![']'] =~= (a + seq![',']) + (rest + seq![']']) + Seq::<char>::empty());
        lemma_concat_window(s, i, a + seq![','], rest + seq![']'], Seq::empty());
        assert(s.subrange(j + 1, j + 1 + rest.len() + 1) =~= rest + seq![']']);
        lemma_collection_items_roundtrip(s, j + 1, xs.drop_first(), (fuel - 1) as nat);
        assert(seq![xs[0]] + xs.drop_first() =~= xs);
    }
}

/// Reading a written collection list (whatever follows it) yields the list.
#[verifier::rlimit(100)]
proof fn lemma_collection_list_roundtrip(s: Seq<char>, i: int, xs: Seq<crate::model::CollectionModel>, fuel: nat)
    requires
        0 <= i,
        fuel >= db_collection_list(xs),
        i + ser_collection_list(xs).len() <= s.len(),
        s.subrange(i, i + ser_collection_list(xs).len()) == ser_collection_list(xs),
    ensures
        parse_collection_list(s, i, fuel) == Some((xs, i + ser_collection_list(xs).len())),
    decreases 0int,
{
    let w = ser_collection_list(xs);
    if xs.len() == 0 {
        assert(w =~= seq!['['] + seq![']'] + Seq::<char>::empty());
        lemma_concat_window(s, i, seq!['['], seq![']'], Seq::empty());
        assert(s.subrange(i, i + 1) =~= seq!['[']) by {
            assert(s.subrange(i, i + 2)[0] == '[');
            assert(s.subrange(i, i + 1)[0] == s.subrange(i, i + 2)[0]);
        }
        assert(expect(s, i, seq!['[']) == Some(i + 1));
        assert(expect(s, i + 1, seq![']']) == Some(i + 2));
    } else {
        let items = ser_collection_items(xs);
        assert(w =~= seq!['['] + items + seq![']']);
        lemma_concat_window(s, i, seq!['['], items, seq![']']);
        assert(expect(s, i, seq!['[']) == Some(i + 1));
        assert(w =~= seq!['['] + (items + seq![']']) + Seq::<char>::empty());
        lemma_concat_window(s, i, seq!['['], items + seq![']'], Seq::empty());
        assert(s.subrange(i + 1, i + 1 + items.len() + 1) =~= items + seq![']']);
        assert(expect(s, i + 1, seq![']']) is None) by {
            assert(ser_collection(xs[0])[0] == '{');
            assert(items[0] == '{');
            assert(s[i + 1] == (items + seq![']'])[0]);
            if expect(s, i + 1, seq![']']) is Some {
                assert(s.subrange(i + 1, i + 2) == seq![']']);
                assert(s[i + 1] == ']');
            }
        }
        lemma_collection_items_roundtrip(s, i + 1, xs, fuel);
    }
}


/// Reading a written environment (whatever follows it) yields it back.
#[verifier::rlimit(100)]
proof fn lemma_environment_roundtrip(s: Seq<char>, i: int, x: crate::model::EnvironmentModel, fuel: nat)
    requires
        0 <= i,
        fuel >= db_environment(x),
        i + ser_environment(x).len() <= s.len(),
        s.subrange(i, i + ser_environment(x).len()) == ser_environment(x),
    ensures
        parse_environment(s, i, fuel) == Some((x, i + ser_environment(x).len())),
{
    let p0 = lit_env_name();
    let p1 = ser_string(x.name);
    let p2 = lit_variables();
    let p3 = ser_pair_list(x.variables);
    let p4 = seq!['}'];
    let o0 = i;
    let o1 = o0 + p0.len();
    let o2 = o1 + p1.len();
    let o3 = o2 + p2.len();
    let o4 = o3 + p3.len();
    let o5 = o4 + p4.len();
    assert(o5 == i + ser_environment(x).len() &&
        s.subrange(o0, o1) == p0 &&
        s.subrange(o1, o2) == p1 &&
        s.subrange(o2, o3) == p2 &&
        s.subrange(o3, o4) == p3 &&
        s.subrange(o4, o5) == p4) by {
        let w = ser_environment(x);
        let t4 = p4;
        let t3 = p3 + t4;
        let t2 = p2 + t3;
        let t1 = p1 + t2;
        let t0 = p0 + t1;
        assert(w == t0);
        lemma_split2(s, o0, p0, t1);
        lemma_split2(s, o1, p1, t2);
        lemma_split2(s, o2, p2, t3);
        lemma_split2(s, o3, p3, t4);
        assert(s.subrange(o4, o5) == p4);
    }
    assert(expect(s, o0, lit_env_name()) == Some(o1));
    lemma_string_roundtrip(s, o1, x.name);
    assert(expect(s, o2, lit_variables()) == Some(o3));
    lemma_pair_list_roundtrip(s, o3, x.variables, fuel);
    assert(expect(s, o4, seq!['}']) == Some(o5));
    assert(parse_environment(s, i, fuel) == Some((x, o5))) by {
        assert(crate::model::EnvironmentModel { name: x.name, variables: x.variables } =~= x);
    }
}


/// Reading written environment-list elements (closing bracket included) yields
/// the elements.
#[verifier::rlimit(100)]
proof fn lemma_environment_items_roundtrip(s: Seq<char>, i: int, xs: Seq<crate::model::EnvironmentModel>, fuel: nat)
    requires
        0 <= i,
        xs.len() > 0,
        fuel >= db_environment_items(xs),
        i + ser_environment_items(xs).len() + 1 <= s.len(),
        s.subrange(i, i + ser_environment_items(xs).len() + 1) == ser_environment_items(xs) + seq![']'],
    ensures
        parse_environment_items(s, i, fuel) == Some((xs, i + ser_environment_items(xs).len() + 1)),
    decreases xs.len(),
{
    let w = ser_environment_items(xs);
    let a = ser_environment(xs[0]);
    if xs.len() == 1 {
        assert(w == a);
        assert(w + seq![']'] =~= a + seq![']'] + Seq::<char>::empty());
        lemma_concat_window(s, i, Seq::empty(), a, seq![']']);
        lemma_environment_roundtrip(s, i, xs[0], fuel);
        let j = i + a.len();
        lemma_concat_window(s, i, a, seq![']'], Seq::empty());
        assert(s.subrange(j, j + 1)[0] == ']');
        assert(s[j] == ']');
        assert(expect(s, j, seq![',']) is None) by {
            if expect(s, j, seq![',']) is Some {
                assert(s.subrange(j, j + 1) == seq![',']);
                assert(s[j] == ',');
            }
        }
        assert(expect(s, j, seq![']']) == Some(j + 1));
        assert(seq![xs[0]] =~= xs);
    } else {
        let rest = ser_environment_items(xs.drop_first());
        assert(w == a + seq![','] + rest);
        assert(w + seq![']'] =~= Seq::empty() + a + (seq![','] + rest + seq![']']));
        lemma_concat_window(s, i, Seq::empty(), a, seq![','] + rest + seq![']']);
        lemma_environment_roundtrip(s, i, xs[0], fuel);
        let j = i + a.len();
        assert(w + seq![']'] =~= a + seq![','] + (rest + seq![']']));
        lemma_concat_window(s, i, a, seq![','], rest + seq![']']);
        assert(expect(s, j, seq![',']) == Some(j + 1));
        assert(w + seq![']'] =~= (a + seq![',']) + (rest + seq![']']) + Seq::<char>::empty());
        lemma_concat_window(s, i, a + seq![','], rest + seq![']'], Seq::empty());
        assert(s.subrange(j + 1, j + 1 + rest.len() + 1) =~= rest + seq![']']);
        lemma_environment_items_roundtrip(s, j + 1, xs.drop_first(), (fuel - 1) as nat);
        assert(seq![xs[0]] + xs.drop_first() =~= xs);
    }
}

/// Reading a written environment list (whatever follows it) yields the list.
#[verifier::rlimit(100)]
proof fn lemma_environment_list_roundtrip(s: Seq<char>, i: int, xs: Seq<crate::model::EnvironmentModel>, fuel: nat)
    requires
        0 <= i,
        fuel >= db_environment_list(xs),
        i + ser_environment_list(xs).len() <= s.len(),
        s.subrange(i, i + ser_environment_list(xs).len()) == ser_environment_list(xs),
    ensures
        parse_environment_list(s, i, fuel) == Some((xs, i + ser_environment_list(xs).len())),
    decreases 0int,
{
    let w = ser_environment_list(xs);
    if xs.len() == 0 {
        assert(w =~= seq!['['] + seq![']'] + Seq::<char>::empty());
        lemma_concat_window(s, i, seq!['['], seq![']'], Seq::empty());
        assert(s.subrange(i, i + 1) =~= seq!['[']) by {
            assert(s.subrange(i, i + 2)[0] == '[');
            assert(s.subrange(i, i + 1)[0] == s.subrange(i, i + 2)[0]);
        }
        assert(expect(s, i, seq!['[']) == Some(i + 1));
        assert(expect(s, i + 1, seq![']']) == Some(i + 2));
    } else {
        let items = ser_environment_items(xs);
        assert(w =~= seq!['['] + items + seq![']']);
        lemma_concat_window(s, i, seq!['['], items, seq![']']);
        assert(expect(s, i, seq!['[']) == Some(i + 1));
        assert(w =~= seq!['['] + (items + seq![']']) + Seq::<char>::empty());
        lemma_concat_window(s, i, seq!['['], items + seq![']'], Seq::empty());
        assert(s.subrange(i + 1, i + 1 + items.len() + 1) =~= items + seq![']']);
        assert(expect(s, i + 1, seq![']']) is None) by {
            assert(ser_environment(xs[0])[0] == '{');
            assert(items[0] == '{');
            assert(s[i + 1] == (items + seq![']'])[0]);
            if expect(s, i + 1, seq![']']) is Some {
                assert(s.subrange(i + 1, i + 2) == seq![']']);
                assert(s[i + 1] == ']');
            }
        }
        lemma_environment_items_roundtrip(s, i + 1, xs, fuel);
    }
}


/// Reading a written storage (whatever follows it) yields it back.
#[verifier::rlimit(100)]
proof fn lemma_storage_roundtrip(s: Seq<char>, i: int, x: crate::model::StorageModel, fuel: nat)
    requires
        0 <= i,
        fuel >= db_storage(x),
        i + ser_storage(x).len() <= s.len(),
        s.subrange(i, i + ser_storage(x).len()) == ser_storage(x),
    ensures
        parse_storage(s, i, fuel) == Some((x, i + ser_storage(x).len())),
{
    let p0 = lit_collections();
    let p1 = ser_collection_list(x.collections);
    let p2 = lit_environments();
    let p3 = ser_environment_list(x.environments);
    let p4 = seq!['}'];
    let o0 = i;
    let o1 = o0 + p0.len();
    let o2 = o1 + p1.len();
    let o3 = o2 + p2.len();
    let o4 = o3 + p3.len();
    let o5 = o4 + p4.len();
    assert(o5 == i + ser_storage(x).len() &&
        s.subrange(o0, o1) == p0 &&
        s.subrange(o1, o2) == p1 &&
        s.subrange(o2, o3) == p2 &&
        s.subrange(o3, o4) == p3 &&
        s.subrange(o4, o5) == p4) by {
        let w = ser_storage(x);
        let t4 = p4;
        let t3 = p3 + t4;
        let t2 = p2 + t3;
        let t1 = p1 + t2;
        let t0 = p0 + t1;
        assert(w == t0);
        lemma_split2(s, o0, p0, t1);
        lemma_split2(s, o1, p1, t2);
        lemma_split2(s, o2, p2, t3);
        lemma_split2(s, o3, p3, t4);
        assert(s.subrange(o4, o5) == p4);
    }
    assert(expect(s, o0, lit_collections()) == Some(o1));
    lemma_collection_list_roundtrip(s, o1, x.collections, fuel);
    assert(expect(s, o2, lit_environments()) == Some(o3));
    lemma_environment_list_roundtrip(s, o3, x.environments, fuel);
    assert(expect(s, o4, seq!['}']) == Some(o5));
    assert(parse_storage(s, i, fuel) == Some((x, o5))) by {
        assert(crate::model::StorageModel { collections: x.collections, environments: x.environments } =~= x);
    }
}

/// Parsing fuel is covered by the written length: pair lists.
proof fn lemma_db_pair_items_bound(ps: Seq<(Seq<char>, Seq<char>)>)
    requires
        ps.len() > 0,
    ensures
        db_pair_items(ps) <= ser_pair_items(ps).len() + 1,
    decreases ps.len(),
{
    if ps.len() > 1 {
        lemma_db_pair_items_bound(ps.drop_first());
    }
}

proof fn lemma_db_pair_list_bound(ps: Seq<(Seq<char>, Seq<char>)>)
    ensures
        db_pair_list(ps) <= ser_pair_list(ps).len(),
{
    if ps.len() > 0 {
        lemma_db_pair_items_bound(ps);
    }
}

/// Parsing fuel is covered by the written length: entry lists.
proof fn lemma_db_entry_items_bound(es: Seq<crate::model::FormEntryModel>)
    requires
        es.len() > 0,
    ensures
        db_entry_items(es) <= ser_entry_items(es).len() + 1,
    decreases es.len(),
{
    if es.len() > 1 {
        lemma_db_entry_items_bound(es.drop_first());
        assert(ser_entry(es[0]).len() >= 1) by {
            match es[0] {
                crate::model::FormEntryModel::Text { key, value } => {},
                crate::model::FormEntryModel::File { key, file_path, file_name } => {},
            }
        }
    }
}

proof fn lemma_db_entry_list_bound(es: Seq<crate::model::FormEntryModel>)
    ensures
        db_entry_list(es) <= ser_entry_list(es).len(),
{
    if es.len() > 0 {
        lemma_db_entry_items_bound(es);
    }
}

/// Parsing fuel is covered by the written length: requests.
proof fn lemma_db_request_bound(r: crate::model::RequestModel)
    ensures
        db_request(r) <= ser_request(r).len(),
{
    reveal(ser_request);
    lemma_db_pair_list_bound(r.headers);
    lemma_db_entry_list_bound(r.form_data);
    lemma_db_pair_list_bound(r.url_encoded_data);
    lemma_db_pair_list_bound(r.query_params);
}

proof fn lemma_db_request_items_bound(rs: Seq<crate::model::RequestModel>)
    requires
        rs.len() > 0,
    ensures
        db_request_items(rs) <= ser_request_items(rs).len() + 1,
    decreases rs.len(),
{
    lemma_db_request_bound(rs[0]);
    if rs.len() > 1 {
        lemma_db_request_items_bound(rs.drop_first());
        assert(ser_request(rs[0]).len() >= 1) by {
            reveal(ser_request);
        }
    }
}

proof fn lemma_db_request_list_bound(rs: Seq<crate::model::RequestModel>)
    ensures
        db_request_list(rs) <= ser_request_list(rs).len(),
{
    if rs.len() > 0 {
        lemma_db_request_items_bound(rs);
    }
}

/// Parsing fuel is covered by the written length: folders, their lists, and
/// so the whole subtree.
proof fn lemma_db_folder_bound(f: crate::model::FolderModel)
    ensures
        db_folder(f) <= ser_folder(f).len(),
    decreases f, 2int,
{
    lemma_db_request_list_bound(f.requests);
    lemma_db_folder_list_bound(f.folders);
}

proof fn lemma_db_folder_list_bound(fs: Seq<crate::model::FolderModel>)
    ensures
        db_folder_list(fs) <= ser_folder_list(fs).len(),
    decreases fs, 1int,
{
    if fs.len() > 0 {
        lemma_db_folder_items_bound(fs);
    }
}

proof fn lemma_db_folder_items_bound(fs: Seq<crate::model::FolderModel>)
    requires
        fs.len() > 0,
    ensures
        db_folder_items(fs) <= ser_folder_items(fs).len() + 1,
    decreases fs, 0int,
{
    lemma_db_folder_bound(fs[0]);
    if fs.len() > 1 {
        lemma_db_folder_items_bound(fs.drop_first());
        assert(ser_folder(fs[0]).len() >= 1);
    }
}

/// Parsing fuel is covered by the written length: collections.
proof fn lemma_db_collection_bound(c: crate::model::CollectionModel)
    ensures
        db_collection(c) <= ser_collection(c).len(),
{
    lemma_db_folder_bound(c.root_folder);
}

proof fn lemma_db_collection_items_bound(cs: Seq<crate::model::CollectionModel>)
    requires
        cs.len() > 0,
    ensures
        db_collection_items(cs) <= ser_collection_items(cs).len() + 1,
    decreases cs.len(),
{
    lemma_db_collection_bound(cs[0]);
    if cs.len() > 1 {
        lemma_db_collection_items_bound(cs.drop_first());
        assert(ser_collection(cs[0]).len() >= 1);
    }
}

proof fn lemma_db_collection_list_bound(cs: Seq<crate::model::CollectionModel>)
    ensures
        db_collection_list(cs) <= ser_collection_list(cs).len(),
{
    if cs.len() > 0 {
        lemma_db_collection_items_bound(cs);
    }
}

/// Parsing fuel is covered by the written length: environments.
proof fn lemma_db_environment_bound(e: crate::model::EnvironmentModel)
    ensures
        db_environment(e) <= ser_environment(e).len(),
{
    lemma_db_pair_list_bound(e.variables);
}

proof fn lemma_db_environment_items_bound(es: Seq<crate::model::EnvironmentModel>)
    requires
        es.len() > 0,
    ensures
        db_environment_items(es) <= ser_environment_items(es).len() + 1,
    decreases es.len(),
{
    lemma_db_environment_bound(es[0]);
    if es.len() > 1 {
        lemma_db_environment_items_bound(es.drop_first());
        assert(ser_environment(es[0]).len() >= 1);
    }
}

proof fn lemma_db_environment_list_bound(es: Seq<crate::model::EnvironmentModel>)
    ensures
        db_environment_list(es) <= ser_environment_list(es).len(),
{
    if es.len() > 0 {
        lemma_db_environment_items_bound(es);
    }
}

/// Parsing fuel is covered by the written length: the whole document.
proof fn lemma_db_storage_bound(m: crate::model::StorageModel)
    ensures
        db_storage(m) <= ser_storage(m).len(),
{
    lemma_db_collection_list_bound(m.collections);
    lemma_db_environment_list_bound(m.environments);
}

/// Persistence round trip: reading back a written workspace document
/// reproduces the model exactly — identities, names, ordering and every
/// body-kind field included.
pub proof fn lemma_storage_round_trip(m: crate::model::StorageModel)
    ensures
        spec_parse_document(ser_storage(m)) == Some(m),
{
    let s = ser_storage(m);
    lemma_db_storage_bound(m);
    assert(s.subrange(0, s.len() as int) =~= s);
    lemma_storage_roundtrip(s, 0, m, s.len());
}

/// Export round trip: reading back a written collection document reproduces
/// the collection exactly.
pub proof fn lemma_collection_round_trip(c: crate::model::CollectionModel)
    ensures
        spec_parse_collection_document(ser_collection(c)) == Some(c),
{
    let s = ser_collection(c);
    lemma_db_collection_bound(c);
    assert(s.subrange(0, s.len() as int) =~= s);
    lemma_collection_roundtrip(s, 0, c, s.len());
}



/// Append the characters of `l` onto `out`.
fn write_lit(out: &mut Vec<char>, l: &str)
    ensures
        final(out)@ == old(out)@ + l@,
{
    let ghost base = old(out)@;
    let cs = crate::text::chars_of(l);
    let mut i: usize = 0;
    while i < cs.len()
        invariant
            cs@ == l@,
            i <= cs@.len(),
            out@ == base + l@.take(i as int),
        decreases cs@.len() - i,
    {
        out.push(cs[i]);
        i = i + 1;
        proof {
            assert(out@ =~= base + l@.take(i as int));
        }
    }
    proof {
        assert(l@.take(l@.len() as int) =~= l@);
    }
}

/// Write one pair.
#[verifier::rlimit(100)]
fn write_pair(out: &mut Vec<char>, p: &(String, String))
    ensures
        final(out)@ == old(out)@ + ser_pair(p.deep_view()),
{
    let ghost base = old(out)@;
    write_lit(out, "[");
    write_string(out, p.0.as_str());
    write_lit(out, ",");
    write_string(out, p.1.as_str());
    write_lit(out, "]");
    proof {
        reveal_strlit("[");
        reveal_strlit(",");
        reveal_strlit("]");
        assert("["@ =~= seq!['[']);
        assert(","@ =~= seq![',']);
        assert("]"@ =~= seq![']']);
        assert(out@ =~= base + ser_pair(p.deep_view()));
    }
}

/// Write the elements of a non-empty pair list.
fn write_pair_items(out: &mut Vec<char>, ps: &Vec<(String, String)>, idx: usize)
    requires
        idx < ps@.len(),
    ensures
        final(out)@ == old(out)@ + ser_pair_items(ps.deep_view().skip(idx as int)),
    decreases ps@.len() - idx,
{
    let ghost base = old(out)@;
    let ghost pv = ps.deep_view();
    proof {
        assert(pv.skip(idx as int)[0] == pv[idx as int]);
        assert(pv[idx as int] == ps@[idx as int].deep_view());
    }
    write_pair(out, &ps[idx]);
    proof {
        assert(ps@.len() == ps.len());
    }
    if idx + 1 < ps.len() {
        write_lit(out, ",");
        write_pair_items(out, ps, idx + 1);
        proof {
            reveal_strlit(",");
            assert(","@ =~= seq![',']);
            assert(pv.skip(idx as int).drop_first() =~= pv.skip(idx as int + 1));
            assert(out@ =~= base + ser_pair_items(pv.skip(idx as int)));
        }
    } else {
        proof {
            assert(pv.skip(idx as int).len() == 1);
        }
    }
}

/// Write a pair list.
fn write_pair_list(out: &mut Vec<char>, ps: &Vec<(String, String)>)
    ensures
        final(out)@ == old(out)@ + ser_pair_list(ps.deep_view()),
{
    let ghost base = old(out)@;
    if ps.len() == 0 {
        write_lit(out, "[]");
        proof {
            reveal_strlit("[]");
            assert("[]"@ =~= seq!['[', ']']);
        }
    } else {
        write_lit(out, "[");
        write_pair_items(out, ps, 0);
        write_lit(out, "]");
        proof {
            reveal_strlit("[");
            reveal_strlit("]");
            assert("["@ =~= seq!['[']);
            assert("]"@ =~= seq![']']);
            assert(ps.deep_view().skip(0) =~= ps.deep_view());
            assert(out@ =~= base + ser_pair_list(ps.deep_view()));
        }
    }
}

/// Write one form-data entry.
#[verifier::rlimit(100)]
fn write_entry(out: &mut Vec<char>, e: &crate::model::FormDataEntry)
    ensures
        final(out)@ == old(out)@ + ser_entry(e.deep_view()),
{
    let ghost base = old(out)@;
    match e {
        crate::model::FormDataEntry::Text { key, value } => {
            write_lit(out, "{\"Text\":{\"key\":");
            write_string(out, key.as_str());
            write_lit(out, ",\"value\":");
            write_string(out, value.as_str());
            write_lit(out, "}}");
            proof {
                reveal_strlit("{\"Text\":{\"key\":");
                reveal_strlit(",\"value\":");
                reveal_strlit("}}");
                assert("{\"Text\":{\"key\":"@ =~= lit_text_open());
                assert(",\"value\":"@ =~= lit_value());
                assert("}}"@ =~= seq!['}', '}']);
                assert(out@ =~= base + ser_entry(e.deep_view()));
            }
        },
        crate::model::FormDataEntry::File { key, file_path, file_name } => {
            write_lit(out, "{\"File\":{\"key\":");
            write_string(out, key.as_str());
            write_lit(out, ",\"file_path\":");
            write_string(out, file_path.as_str());
            write_lit(out, ",\"file_name\":");
            write_string(out, file_name.as_str());
            write_lit(out, "}}");
            proof {
                reveal_strlit("{\"File\":{\"key\":");
                reveal_strlit(",\"file_path\":");
                reveal_strlit(",\"file_name\":");
                reveal_strlit("}}");
                assert("{\"File\":{\"key\":"@ =~= lit_file_open());
                assert(",\"file_path\":"@ =~= lit_file_path());
                assert(",\"file_name\":"@ =~= lit_file_name());
                assert("}}"@ =~= seq!['}', '}']);
                assert(out@ =~= base + ser_entry(e.deep_view()));
            }
        },
    }
}

/// Write the elements of a non-empty entry list.
fn write_entry_items(out: &mut Vec<char>, es: &Vec<crate::model::FormDataEntry>, idx: usize)
    requires
        idx < es@.len(),
    ensures
        final(out)@ == old(out)@ + ser_entry_items(es.deep_view().skip(idx as int)),
    decreases es@.len() - idx,
{
    let ghost base = old(out)@;
    let ghost ev = es.deep_view();
    proof {
        assert(ev.skip(idx as int)[0] == ev[idx as int]);
        assert(ev[idx as int] == es@[idx as int].deep_view());
    }
    write_entry(out, &es[idx]);
    proof {
        assert(es@.len() == es.len());
    }
    if idx + 1 < es.len() {
        write_lit(out, ",");
        write_entry_items(out, es, idx + 1);
        proof {
            reveal_strlit(",");
            assert(","@ =~= seq![',']);
            assert(ev.skip(idx as int).drop_first() =~= ev.skip(idx as int + 1));
            assert(out@ =~= base + ser_entry_items(ev.skip(idx as int)));
        }
    } else {
        proof {
            assert(ev.skip(idx as int).len() == 1);
        }
    }
}

/// Write an entry list.
fn write_entry_list(out: &mut Vec<char>, es: &Vec<crate::model::FormDataEntry>)
    ensures
        final(out)@ == old(out)@ + ser_entry_list(es.deep_view()),
{
    let ghost base = old(out)@;
    if es.len() == 0 {
        write_lit(out, "[]");
        proof {
            reveal_strlit("[]");
            assert("[]"@ =~= seq!['[', ']']);
        }
    } else {
        write_lit(out, "[");
        write_entry_items(out, es, 0);
        write_lit(out, "]");
        proof {
            reveal_strlit("[");
            reveal_strlit("]");
            assert("["@ =~= seq!['[']);
            assert("]"@ =~= seq![']']);
            assert(es.deep_view().skip(0) =~= es.deep_view());
            assert(out@ =~= base + ser_entry_list(es.deep_view()));
        }
    }
}


/// The views of the literal fragments the writer uses.
#[verifier::rlimit(100)]
proof fn lemma_lit_views()
    ensures
        "{\"id\":"@ == lit_id(),
        ",\"name\":"@ == lit_name(),
        ",\"method\":"@ == lit_method(),
        ",\"url\":"@ == lit_url(),
        ",\"headers\":"@ == lit_headers(),
        ",\"body\":"@ == lit_body(),
        ",\"body_type\":"@ == lit_body_type(),
        ",\"form_data\":"@ == lit_form_data(),
        ",\"url_encoded_data\":"@ == lit_url_encoded(),
        ",\"query_params\":"@ == lit_query_params(),
        "}"@ == seq!['}'],
        "None"@ == body_type_name(crate::model::BodyType::NoBody),
        "Raw"@ == body_type_name(crate::model::BodyType::Raw),
        "Json"@ == body_type_name(crate::model::BodyType::Json),
        "FormData"@ == body_type_name(crate::model::BodyType::FormData),
        "UrlEncoded"@ == body_type_name(crate::model::BodyType::UrlEncoded),
{
    reveal_strlit("{\"id\":");
    reveal_strlit(",\"name\":");
    reveal_strlit(",\"method\":");
    reveal_strlit(",\"url\":");
    reveal_strlit(",\"headers\":");
    reveal_strlit(",\"body\":");
    reveal_strlit(",\"body_type\":");
    reveal_strlit(",\"form_data\":");
    reveal_strlit(",\"url_encoded_data\":");
    reveal_strlit(",\"query_params\":");
    reveal_strlit("}");
    reveal_strlit("None");
    reveal_strlit("Raw");
    reveal_strlit("Json");
    reveal_strlit("FormData");
    reveal_strlit("UrlEncoded");
    assert("{\"id\":"@ =~= lit_id());
    assert(",\"name\":"@ =~= lit_name());
    assert(",\"method\":"@ =~= lit_method());
    assert(",\"url\":"@ =~= lit_url());
    assert(",\"headers\":"@ =~= lit_headers());
    assert(",\"body\":"@ =~= lit_body());
    assert(",\"body_type\":"@ =~= lit_body_type());
    assert(",\"form_data\":"@ =~= lit_form_data());
    assert(",\"url_encoded_data\":"@ =~= lit_url_encoded());
    assert(",\"query_params\":"@ =~= lit_query_params());
    assert("}"@ =~= seq!['}']);
    assert("None"@ =~= body_type_name(crate::model::BodyType::NoBody));
    assert("Raw"@ =~= body_type_name(crate::model::BodyType::Raw));
    assert("Json"@ =~= body_type_name(crate::model::BodyType::Json));
    assert("FormData"@ =~= body_type_name(crate::model::BodyType::FormData));
    assert("UrlEncoded"@ =~= body_type_name(crate::model::BodyType::UrlEncoded));
}

/// Write the later fields of a request object.
#[verifier::rlimit(100)]
fn write_request_tail(out: &mut Vec<char>, r: &crate::model::HttpRequest)
    ensures
        final(out)@ == old(out)@ + ser_request_tail(r.deep_view()),
{
    let ghost base = old(out)@;
    write_lit(out, ",\"body\":");
    write_string(out, r.body.as_str());
    write_lit(out, ",\"body_type\":");
    match r.body_type {
        crate::model::BodyType::NoBody => write_string(out, "None"),
        crate::model::BodyType::Raw => write_string(out, "Raw"),
        crate::model::BodyType::Json => write_string(out, "Json"),
        crate::model::BodyType::FormData => write_string(out, "FormData"),
        crate::model::BodyType::UrlEncoded => write_string(out, "UrlEncoded"),
    }
    write_lit(out, ",\"form_data\":");
    write_entry_list(out, &r.form_data);
    write_lit(out, ",\"url_encoded_data\":");
    write_pair_list(out, &r.url_encoded_data);
    write_lit(out, ",\"query_params\":");
    write_pair_list(out, &r.query_params);
    write_lit(out, "}");
    proof {
        lemma_lit_views();
        assert(out@ =~= base + ser_request_tail(r.deep_view()));
    }
}

/// Write one request object.
#[verifier::rlimit(100)]
fn write_request(out: &mut Vec<char>, r: &crate::model::HttpRequest)
    ensures
        final(out)@ == old(out)@ + ser_request(r.deep_view()),
{
    let ghost base = old(out)@;
    write_lit(out, "{\"id\":");
    write_string(out, r.id.as_str());
    write_lit(out, ",\"name\":");
    write_string(out, r.name.as_str());
    write_lit(out, ",\"method\":");
    write_string(out, r.method.as_str());
    write_lit(out, ",\"url\":");
    write_string(out, r.url.as_str());
    write_lit(out, ",\"headers\":");
    write_pair_list(out, &r.headers);
    write_request_tail(out, r);
    proof {
        lemma_lit_views();
        reveal(ser_request);
        assert(out@ =~= base + ser_request(r.deep_view()));
    }
}

/// Write the elements of a non-empty request list.
fn write_request_items(out: &mut Vec<char>, rs: &Vec<crate::model::HttpRequest>, idx: usize)
    requires
        idx < rs@.len(),
    ensures
        final(out)@ == old(out)@ + ser_request_items(rs.deep_view().skip(idx as int)),
    decreases rs@.len() - idx,
{
    let ghost base = old(out)@;
    let ghost rv = rs.deep_view();
    proof {
        assert(rv.skip(idx as int)[0] == rv[idx as int]);
        assert(rv[idx as int] == rs@[idx as int].deep_view());
    }
    write_request(out, &rs[idx]);
    proof {
        assert(rs@.len() == rs.len());
    }
    if idx + 1 < rs.len() {
        write_lit(out, ",");
        write_request_items(out, rs, idx + 1);
        proof {
            reveal_strlit(",");
            assert(","@ =~= seq![',']);
            assert(rv.skip(idx as int).drop_first() =~= rv.skip(idx as int + 1));
            assert(out@ =~= base + ser_request_items(rv.skip(idx as int)));
        }
    } else {
        proof {
            assert(rv.skip(idx as int).len() == 1);
        }
    }
}

/// Write a request list.
fn write_request_list(out: &mut Vec<char>, rs: &Vec<crate::model::HttpRequest>)
    ensures
        final(out)@ == old(out)@ + ser_request_list(rs.deep_view()),
{
    let ghost base = old(out)@;
    if rs.len() == 0 {
        write_lit(out, "[]");
        proof {
            reveal_strlit("[]");
            assert("[]"@ =~= seq!['[', ']']);
        }
    } else {
        write_lit(out, "[");
        write_request_items(out, rs, 0);
        write_lit(out, "]");
        proof {
            reveal_strlit("[");
            reveal_strlit("]");
            assert("["@ =~= seq!['[']);
            assert("]"@ =~= seq![']']);
            assert(rs.deep_view().skip(0) =~= rs.deep_view());
            assert(out@ =~= base + ser_request_list(rs.deep_view()));
        }
    }
}

/// Write one folder object, its subtree included.
#[verifier::rlimit(100)]
fn write_folder(out: &mut Vec<char>, f: &crate::model::Folder)
    ensures
        final(out)@ == old(out)@ + ser_folder(f.deep_view()),
    decreases *f, 2int,
{
    let ghost base = old(out)@;
    write_lit(out, "{\"id\":");
    write_string(out, f.id.as_str());
    write_lit(out, ",\"name\":");
    write_string(out, f.name.as_str());
    write_lit(out, ",\"requests\":");
    write_request_list(out, &f.requests);
    write_lit(out, ",\"folders\":");
    write_folder_list(out, &f.folders);
    write_lit(out, "}");
    proof {
        reveal_strlit("{\"id\":");
        reveal_strlit(",\"name\":");
        reveal_strlit(",\"requests\":");
        reveal_strlit(",\"folders\":");
        reveal_strlit("}");
        assert("{\"id\":"@ =~= lit_id());
        assert(",\"name\":"@ =~= lit_name());
        assert(",\"requests\":"@ =~= lit_requests());
        assert(",\"folders\":"@ =~= lit_folders());
        assert("}"@ =~= seq!['}']);
        assert(f.deep_view().folders =~= f.folders.deep_view());
        assert(out@ =~= base + ser_folder(f.deep_view()));
    }
}

/// Write the elements of a non-empty folder list.
fn write_folder_items(out: &mut Vec<char>, fs: &Vec<crate::model::Folder>, idx: usize)
    requires
        idx < fs@.len(),
    ensures
        final(out)@ == old(out)@ + ser_folder_items(fs.deep_view().skip(idx as int)),
    decreases *fs, 0int, fs@.len() - idx,
{
    let ghost base = old(out)@;
    let ghost fv = fs.deep_view();
    proof {
        assert(fv.skip(idx as int)[0] == fv[idx as int]);
        assert(fv[idx as int] == fs@[idx as int].deep_view());
    }
    write_folder(out, &fs[idx]);
    proof {
        assert(fs@.len() == fs.len());
    }
    if idx + 1 < fs.len() {
        write_lit(out, ",");
        write_folder_items(out, fs, idx + 1);
        proof {
            reveal_strlit(",");
            assert(","@ =~= seq![',']);
            assert(fv.skip(idx as int).drop_first() =~= fv.skip(idx as int + 1));
            assert(out@ =~= base + ser_folder_items(fv.skip(idx as int)));
        }
    } else {
        proof {
            assert(fv.skip(idx as int).len() == 1);
        }
    }
}

/// Write a folder list.
fn write_folder_list(out: &mut Vec<char>, fs: &Vec<crate::model::Folder>)
    ensures
        final(out)@ == old(out)@ + ser_folder_list(fs.deep_view()),
    decreases *fs, 1int,
{
    let ghost base = old(out)@;
    if fs.len() == 0 {
        write_lit(out, "[]");
        proof {
            reveal_strlit("[]");
            assert("[]"@ =~= seq!['[', ']']);
        }
    } else {
        write_lit(out, "[");
        write_folder_items(out, fs, 0);
        write_lit(out, "]");
        proof {
            reveal_strlit("[");
            reveal_strlit("]");
            assert("["@ =~= seq!['[']);
            assert("]"@ =~= seq![']']);
            assert(fs.deep_view().skip(0) =~= fs.deep_view());
            assert(out@ =~= base + ser_folder_list(fs.deep_view()));
        }
    }
}

/// Write one collection object.
#[verifier::rlimit(100)]
fn write_collection(out: &mut Vec<char>, c: &crate::model::Collection)
    ensures
        final(out)@ == old(out)@ + ser_collection(c.deep_view()),
{
    let ghost base = old(out)@;
    write_lit(out, "{\"id\":");
    write_string(out, c.id.as_str());
    write_lit(out, ",\"name\":");
    write_string(out, c.name.as_str());
    write_lit(out, ",\"root_folder\":");
    write_folder(out, &c.root_folder);
    write_lit(out, "}");
    proof {
        reveal_strlit("{\"id\":");
        reveal_strlit(",\"name\":");
        reveal_strlit(",\"root_folder\":");
        reveal_strlit("}");
        assert("{\"id\":"@ =~= lit_id());
        assert(",\"name\":"@ =~= lit_name());
        assert(",\"root_folder\":"@ =~= lit_root_folder());
        assert("}"@ =~= seq!['}']);
        assert(out@ =~= base + ser_collection(c.deep_view()));
    }
}

/// Write the elements of a non-empty collection list.
fn write_collection_items(out: &mut Vec<char>, cs: &Vec<crate::model::Collection>, idx: usize)
    requires
        idx < cs@.len(),
    ensures
        final(out)@ == old(out)@ + ser_collection_items(cs.deep_view().skip(idx as int)),
    decreases cs@.len() - idx,
{
    let ghost base = old(out)@;
    let ghost cv = cs.deep_view();
    proof {
        assert(cv.skip(idx as int)[0] == cv[idx as int]);
        assert(cv[idx as int] == cs@[idx as int].deep_view());
    }
    write_collection(out, &cs[idx]);
    proof {
        assert(cs@.len() == cs.len());
    }
    if idx + 1 < cs.len() {
        write_lit(out, ",");
        write_collection_items(out, cs, idx + 1);
        proof {
            reveal_strlit(",");
            assert(","@ =~= seq![',']);
            assert(cv.skip(idx as int).drop_first() =~= cv.skip(idx as int + 1));
            assert(out@ =~= base + ser_collection_items(cv.skip(idx as int)));
        }
    } else {
        proof {
            assert(cv.skip(idx as int).len() == 1);
        }
    }
}

/// Write a collection list.
fn write_collection_list(out: &mut Vec<char>, cs: &Vec<crate::model::Collection>)
    ensures
        final(out)@ == old(out)@ + ser_collection_list(cs.deep_view()),
{
    let ghost base = old(out)@;
    if cs.len() == 0 {
        write_lit(out, "[]");
        proof {
            reveal_strlit("[]");
            assert("[]"@ =~= seq!['[', ']']);
        }
    } else {
        write_lit(out, "[");
        write_collection_items(out, cs, 0);
        write_lit(out, "]");
        proof {
            reveal_strlit("[");
            reveal_strlit("]");
            assert("["@ =~= seq!['[']);
            assert("]"@ =~= seq![']']);
            assert(cs.deep_view().skip(0) =~= cs.deep_view());
            assert(out@ =~= base + ser_collection_list(cs.deep_view()));
        }
    }
}

/// Write one environment object.
#[verifier::rlimit(100)]
fn write_environment(out: &mut Vec<char>, e: &crate::model::Environment)
    ensures
        final(out)@ == old(out)@ + ser_environment(e.deep_view()),
{
    let ghost base = old(out)@;
    write_lit(out, "{\"name\":");
    write_string(out, e.name.as_str());
    write_lit(out, ",\"variables\":");
    write_pair_list(out, &e.variables);
    write_lit(out, "}");
    proof {
        reveal_strlit("{\"name\":");
        reveal_strlit(",\"variables\":");
        reveal_strlit("}");
        assert("{\"name\":"@ =~= lit_env_name());
        assert(",\"variables\":"@ =~= lit_variables());
        assert("}"@ =~= seq!['}']);
        assert(out@ =~= base + ser_environment(e.deep_view()));
    }
}

/// Write the elements of a non-empty environment list.
fn write_environment_items(out: &mut Vec<char>, es: &Vec<crate::model::Environment>, idx: usize)
    requires
        idx < es@.len(),
    ensures
        final(out)@ == old(out)@ + ser_environment_items(es.deep_view().skip(idx as int)),
    decreases es@.len() - idx,
{
    let ghost base = old(out)@;
    let ghost ev = es.deep_view();
    proof {
        assert(ev.skip(idx as int)[0] == ev[idx as int]);
        assert(ev[idx as int] == es@[idx as int].deep_view());
    }
    write_environment(out, &es[idx]);
    proof {
        assert(es@.len() == es.len());
    }
    if idx + 1 < es.len() {
        write_lit(out, ",");
        write_environment_items(out, es, idx + 1);
        proof {
            reveal_strlit(",");
            assert(","@ =~= seq![',']);
            assert(ev.skip(idx as int).drop_first() =~= ev.skip(idx as int + 1));
            assert(out@ =~= base + ser_environment_items(ev.skip(idx as int)));
        }
    } else {
        proof {
            assert(ev.skip(idx as int).len() == 1);
        }
    }
}

/// Write an environment list.
fn write_environment_list(out: &mut Vec<char>, es: &Vec<crate::model::Environment>)
    ensures
        final(out)@ == old(out)@ + ser_environment_list(es.deep_view()),
{
    let ghost base = old(out)@;
    if es.len() == 0 {
        write_lit(out, "[]");
        proof {
            reveal_strlit("[]");
            assert("[]"@ =~= seq!['[', ']']);
        }
    } else {
        write_lit(out, "[");
        write_environment_items(out, es, 0);
        write_lit(out, "]");
        proof {
            reveal_strlit("[");
            reveal_strlit("]");
            assert("["@ =~= seq!['[']);
            assert("]"@ =~= seq![']']);
            assert(es.deep_view().skip(0) =~= es.deep_view());
            assert(out@ =~= base + ser_environment_list(es.deep_view()));
        }
    }
}

/// The canonical JSON text of a workspace's durable subset.
#[verifier::rlimit(100)]
pub fn workspace_to_json(storage: &crate::model::AppStorage) -> (r: String)
    ensures
        r@ == ser_storage(storage.deep_view()),
{
    let mut out: Vec<char> = Vec::new();
    write_lit(&mut out, "{\"collections\":");
    write_collection_list(&mut out, &storage.collections);
    write_lit(&mut out, ",\"environments\":");
    write_environment_list(&mut out, &storage.environments);
    write_lit(&mut out, "}");
    proof {
        reveal_strlit("{\"collections\":");
        reveal_strlit(",\"environments\":");
        reveal_strlit("}");
        assert("{\"collections\":"@ =~= lit_collections());
        assert(",\"environments\":"@ =~= lit_environments());
        assert("}"@ =~= seq!['}']);
        assert(out@ =~= ser_storage(storage.deep_view()));
    }
    crate::text::string_from_chars(&out)
}

/// The canonical JSON text of a single collection.
pub fn collection_to_json(c: &crate::model::Collection) -> (r: String)
    ensures
        r@ == ser_collection(c.deep_view()),
{
    let mut out: Vec<char> = Vec::new();
    write_collection(&mut out, c);
    crate::text::string_from_chars(&out)
}


/// Scan one pair.
#[verifier::rlimit(100)]
fn scan_pair(s: &Vec<char>, i: usize) -> (r: Option<((String, String), usize)>)
    ensures
        match r {
            Some((p, j)) => parse_pair(s@, i as int) == Some((p.deep_view(), j as int)) && j
                <= s@.len(),
            None => parse_pair(s@, i as int) is None,
        },
{
    proof {
        reveal_strlit("[");
        reveal_strlit(",");
        reveal_strlit("]");
        assert("["@ =~= seq!['[']);
        assert(","@ =~= seq![',']);
        assert("]"@ =~= seq![']']);
    }
    match scan_lit(s, i, "[") {
        Some(j1) => match scan_string(s, j1) {
            Some((k, j2)) => match scan_lit(s, j2, ",") {
                Some(j3) => match scan_string(s, j3) {
                    Some((v, j4)) => match scan_lit(s, j4, "]") {
                        Some(j5) => {
                            let ks = crate::text::string_from_chars(&k);
                            let vs = crate::text::string_from_chars(&v);
                            Some(((ks, vs), j5))
                        },
                        None => None,
                    },
                    None => None,
                },
                None => None,
            },
            None => None,
        },
        None => None,
    }
}


/// Scan the elements of a non-empty pair list.
#[verifier::rlimit(100)]
fn scan_pair_items(s: &Vec<char>, i: usize, fuel: usize) -> (r: Option<(Vec<(String, String)>, usize)>)
    ensures
        match r {
            Some((v, j)) => parse_pair_items(s@, i as int, fuel as nat) == Some((v.deep_view(), j as int))
                && j <= s@.len(),
            None => parse_pair_items(s@, i as int, fuel as nat) is None,
        },
    decreases fuel, 30int,
{
    if fuel == 0 {
        return None;
    }
    match scan_pair(s, i) {
        Some((e, j)) => {
            match scan_lit(s, j, ",") {
                Some(j2) => {
                    proof {
                        reveal_strlit(",");
                        assert(","@ =~= seq![',']);
                    }
                    match scan_pair_items(s, j2, fuel - 1) {
                        Some((rest, j3)) => {
                            let mut v: Vec<(String, String)> = Vec::new();
                            v.push(e);
                            let mut rest = rest;
                            v.append(&mut rest);
                            proof {
                                assert(v.deep_view() =~= seq![v@[0].deep_view()]
                                    + parse_pair_items(s@, j2 as int, (fuel - 1) as nat).unwrap().0);
                            }
                            Some((v, j3))
                        },
                        None => None,
                    }
                },
                None => {
                    proof {
                        reveal_strlit(",");
                        assert(","@ =~= seq![',']);
                    }
                    match scan_lit(s, j, "]") {
                        Some(j2) => {
                            proof {
                                reveal_strlit("]");
                                assert("]"@ =~= seq![']']);
                            }
                            let mut v: Vec<(String, String)> = Vec::new();
                            v.push(e);
                            proof {
                                assert(v.deep_view() =~= seq![v@[0].deep_view()]);
                            }
                            Some((v, j2))
                        },
                        None => {
                            proof {
                                reveal_strlit("]");
                                assert("]"@ =~= seq![']']);
                            }
                            None
                        },
                    }
                },
            }
        },
        None => None,
    }
}

/// Scan a pair list.
fn scan_pair_list(s: &Vec<char>, i: usize, fuel: usize) -> (r: Option<(Vec<(String, String)>, usize)>)
    ensures
        match r {
            Some((v, j)) => parse_pair_list(s@, i as int, fuel as nat) == Some((v.deep_view(), j as int))
                && j <= s@.len(),
            None => parse_pair_list(s@, i as int, fuel as nat) is None,
        },
    decreases fuel, 31int,
{
    proof {
        reveal_strlit("[");
        reveal_strlit("]");
        assert("["@ =~= seq!['[']);
        assert("]"@ =~= seq![']']);
    }
    match scan_lit(s, i, "[") {
        Some(j1) => {
            match scan_lit(s, j1, "]") {
                Some(j2) => {
                    let v: Vec<(String, String)> = Vec::new();
                    proof {
                        assert(v.deep_view() =~= Seq::<(String, String)>::empty().map(
                            |q: int, x: (String, String)| x.deep_view(),
                        ));
                        assert(v.deep_view().len() == 0);
                    }
                    Some((v, j2))
                },
                None => scan_pair_items(s, j1, fuel),
            }
        },
        None => None,
    }
}


/// Scan a body-kind tag.
fn scan_body_type(s: &Vec<char>, i: usize) -> (r: Option<(crate::model::BodyType, usize)>)
    ensures
        match r {
            Some((bt, j)) => parse_body_type(s@, i as int) == Some((bt, j as int)) && j <= s@.len(),
            None => parse_body_type(s@, i as int) is None,
        },
{
    proof {
        lemma_lit_views();
    }
    match scan_string(s, i) {
        Some((t, j)) => {
            if crate::text::chars_eq_str(&t, "None") {
                Some((crate::model::BodyType::NoBody, j))
            } else if crate::text::chars_eq_str(&t, "Raw") {
                Some((crate::model::BodyType::Raw, j))
            } else if crate::text::chars_eq_str(&t, "Json") {
                Some((crate::model::BodyType::Json, j))
            } else if crate::text::chars_eq_str(&t, "FormData") {
                Some((crate::model::BodyType::FormData, j))
            } else if crate::text::chars_eq_str(&t, "UrlEncoded") {
                Some((crate::model::BodyType::UrlEncoded, j))
            } else {
                None
            }
        },
        None => None,
    }
}

/// Scan one form-data entry.
#[verifier::rlimit(100)]
fn scan_entry(s: &Vec<char>, i: usize) -> (r: Option<(crate::model::FormDataEntry, usize)>)
    ensures
        match r {
            Some((e, j)) => parse_entry(s@, i as int) == Some((e.deep_view(), j as int)) && j
                <= s@.len(),
            None => parse_entry(s@, i as int) is None,
        },
{
    proof {
        reveal_strlit("{\"Text\":{\"key\":");
        reveal_strlit(",\"value\":");
        reveal_strlit("{\"File\":{\"key\":");
        reveal_strlit(",\"file_path\":");
        reveal_strlit(",\"file_name\":");
        reveal_strlit("}}");
        assert("{\"Text\":{\"key\":"@ =~= lit_text_open());
        assert(",\"value\":"@ =~= lit_value());
        assert("{\"File\":{\"key\":"@ =~= lit_file_open());
        assert(",\"file_path\":"@ =~= lit_file_path());
        assert(",\"file_name\":"@ =~= lit_file_name());
        assert("}}"@ =~= seq!['}', '}']);
    }
    match scan_lit(s, i, "{\"Text\":{\"key\":") {
        Some(j1) => match scan_string(s, j1) {
            Some((key, j2)) => match scan_lit(s, j2, ",\"value\":") {
                Some(j3) => match scan_string(s, j3) {
                    Some((value, j4)) => match scan_lit(s, j4, "}}") {
                        Some(j5) => Some(
                            (
                                crate::model::FormDataEntry::Text {
                                    key: crate::text::string_from_chars(&key),
                                    value: crate::text::string_from_chars(&value),
                                },
                                j5,
                            ),
                        ),
                        None => None,
                    },
                    None => None,
                },
                None => None,
            },
            None => None,
        },
        None => match scan_lit(s, i, "{\"File\":{\"key\":") {
            Some(j1) => match scan_string(s, j1) {
                Some((key, j2)) => match scan_lit(s, j2, ",\"file_path\":") {
                    Some(j3) => match scan_string(s, j3) {
                        Some((file_path, j4)) => match scan_lit(s, j4, ",\"file_name\":") {
                            Some(j5) => match scan_string(s, j5) {
                                Some((file_name, j6)) => match scan_lit(s, j6, "}}") {
                                    Some(j7) => Some(
                                        (
                                            crate::model::FormDataEntry::File {
                                                key: crate::text::string_from_chars(&key),
                                                file_path: crate::text::string_from_chars(
                                                    &file_path,
                                                ),
                                                file_name: crate::text::string_from_chars(
                                                    &file_name,
                                                ),
                                            },
                                            j7,
                                        ),
                                    ),
                                    None => None,
                                },
                                None => None,
                            },
                            None => None,
                        },
                        None => None,
                    },
                    None => None,
                },
                None => None,
            },
            None => None,
        },
    }
}


/// Scan the elements of a non-empty entry list.
#[verifier::rlimit(100)]
fn scan_entry_items(s: &Vec<char>, i: usize, fuel: usize) -> (r: Option<(Vec<crate::model::FormDataEntry>, usize)>)
    ensures
        match r {
            Some((v, j)) => parse_entry_items(s@, i as int, fuel as nat) == Some((v.deep_view(), j as int))
                && j <= s@.len(),
            None => parse_entry_items(s@, i as int, fuel as nat) is None,
        },
    decreases fuel, 30int,
{
    if fuel == 0 {
        return None;
    }
    match scan_entry(s, i) {
        Some((e, j)) => {
            match scan_lit(s, j, ",") {
                Some(j2) => {
                    proof {
                        reveal_strlit(",");
                        assert(","@ =~= seq![',']);
                    }
                    match scan_entry_items(s, j2, fuel - 1) {
                        Some((rest, j3)) => {
                            let mut v: Vec<crate::model::FormDataEntry> = Vec::new();
                            v.push(e);
                            let mut rest = rest;
                            v.append(&mut rest);
                            proof {
                                assert(v.deep_view() =~= seq![v@[0].deep_view()]
                                    + parse_entry_items(s@, j2 as int, (fuel - 1) as nat).unwrap().0);
                            }
                            Some((v, j3))
                        },
                        None => None,
                    }
                },
                None => {
                    proof {
                        reveal_strlit(",");
                        assert(","@ =~= seq![',']);
                    }
                    match scan_lit(s, j, "]") {
                        Some(j2) => {
                            proof {
                                reveal_strlit("]");
                                assert("]"@ =~= seq![']']);
                            }
                            let mut v: Vec<crate::model::FormDataEntry> = Vec::new();
                            v.push(e);
                            proof {
                                assert(v.deep_view() =~= seq![v@[0].deep_view()]);
                            }
                            Some((v, j2))
                        },
                        None => {
                            proof {
                                reveal_strlit("]");
                                assert("]"@ =~= seq![']']);
                            }
                            None
                        },
                    }
                },
            }
        },
        None => None,
    }
}

/// Scan a entry list.
fn scan_entry_list(s: &Vec<char>, i: usize, fuel: usize) -> (r: Option<(Vec<crate::model::FormDataEntry>, usize)>)
    ensures
        match r {
            Some((v, j)) => parse_entry_list(s@, i as int, fuel as nat) == Some((v.deep_view(), j as int))
                && j <= s@.len(),
            None => parse_entry_list(s@, i as int, fuel as nat) is None,
        },
    decreases fuel, 31int,
{
    proof {
        reveal_strlit("[");
        reveal_strlit("]");
        assert("["@ =~= seq!['[']);
        assert("]"@ =~= seq![']']);
    }
    match scan_lit(s, i, "[") {
        Some(j1) => {
            match scan_lit(s, j1, "]") {
                Some(j2) => {
                    let v: Vec<crate::model::FormDataEntry> = Vec::new();
                    proof {
                        assert(v.deep_view() =~= Seq::<crate::model::FormDataEntry>::empty().map(
                            |q: int, x: crate::model::FormDataEntry| x.deep_view(),
                        ));
                        assert(v.deep_view().len() == 0);
                    }
                    Some((v, j2))
                },
                None => scan_entry_items(s, j1, fuel),
            }
        },
        None => None,
    }
}


/// Scan one request object.
#[verifier::rlimit(100)]
fn scan_request(s: &Vec<char>, i: usize, fuel: usize) -> (r: Option<(crate::model::HttpRequest, usize)>)
    ensures
        match r {
            Some((x, j)) => parse_request(s@, i as int, fuel as nat) == Some(
                (x.deep_view(), j as int),
            ) && j <= s@.len(),
            None => parse_request(s@, i as int, fuel as nat) is None,
        },
    decreases fuel, 32int,
{
    proof {
        lemma_lit_views();
        reveal(parse_request);
    }
    let r1 = scan_lit(s, i, "{\"id\":");
    if r1.is_none() {
        return None;
    }
    let j1 = r1.unwrap();
    let r2 = scan_string(s, j1);
    if r2.is_none() {
        return None;
    }
    let (id, j2) = r2.unwrap();
    let r3 = scan_lit(s, j2, ",\"name\":");
    if r3.is_none() {
        return None;
    }
    let j3 = r3.unwrap();
    let r4 = scan_string(s, j3);
    if r4.is_none() {
        return None;
    }
    let (name, j4) = r4.unwrap();
    let r5 = scan_lit(s, j4, ",\"method\":");
    if r5.is_none() {
        return None;
    }
    let j5 = r5.unwrap();
    let r6 = scan_string(s, j5);
    if r6.is_none() {
        return None;
    }
    let (method, j6) = r6.unwrap();
    let r7 = scan_lit(s, j6, ",\"url\":");
    if r7.is_none() {
        return None;
    }
    let j7 = r7.unwrap();
    let r8 = scan_string(s, j7);
    if r8.is_none() {
        return None;
    }
    let (url, j8) = r8.unwrap();
    let r9 = scan_lit(s, j8, ",\"headers\":");
    if r9.is_none() {
        return None;
    }
    let j9 = r9.unwrap();
    let r10 = scan_pair_list(s, j9, fuel);
    if r10.is_none() {
        return None;
    }
    let (headers, j10) = r10.unwrap();
    let r11 = scan_lit(s, j10, ",\"body\":");
    if r11.is_none() {
        return None;
    }
    let j11 = r11.unwrap();
    let r12 = scan_string(s, j11);
    if r12.is_none() {
        return None;
    }
    let (body, j12) = r12.unwrap();
    let r13 = scan_lit(s, j12, ",\"body_type\":");
    if r13.is_none() {
        return None;
    }
    let j13 = r13.unwrap();
    let r14 = scan_body_type(s, j13);
    if r14.is_none() {
        return None;
    }
    let (body_type, j14) = r14.unwrap();
    let r15 = scan_lit(s, j14, ",\"form_data\":");
    if r15.is_none() {
        return None;
    }
    let j15 = r15.unwrap();
    let r16 = scan_entry_list(s, j15, fuel);
    if r16.is_none() {
        return None;
    }
    let (form_data, j16) = r16.unwrap();
    let r17 = scan_lit(s, j16, ",\"url_encoded_data\":");
    if r17.is_none() {
        return None;
    }
    let j17 = r17.unwrap();
    let r18 = scan_pair_list(s, j17, fuel);
    if r18.is_none() {
        return None;
    }
    let (url_encoded_data, j18) = r18.unwrap();
    let r19 = scan_lit(s, j18, ",\"query_params\":");
    if r19.is_none() {
        return None;
    }
    let j19 = r19.unwrap();
    let r20 = scan_pair_list(s, j19, fuel);
    if r20.is_none() {
        return None;
    }
    let (query_params, j20) = r20.unwrap();
    let r21 = scan_lit(s, j20, "}");
    if r21.is_none() {
        return None;
    }
    let j21 = r21.unwrap();
    let req = crate::model::HttpRequest {
        id: crate::text::string_from_chars(&id),
        name: crate::text::string_from_chars(&name),
        method: crate::text::string_from_chars(&method),
        url: crate::text::string_from_chars(&url),
        headers,
        body: crate::text::string_from_chars(&body),
        body_type,
        form_data,
        url_encoded_data,
        query_params,
    };
    proof {
        assert(req.deep_view() =~= parse_request(s@, i as int, fuel as nat).unwrap().0);
    }
    Some((req, j21))
}


/// Scan the elements of a non-empty request list.
#[verifier::rlimit(100)]
fn scan_request_items(s: &Vec<char>, i: usize, fuel: usize) -> (r: Option<(Vec<crate::model::HttpRequest>, usize)>)
    ensures
        match r {
            Some((v, j)) => parse_request_items(s@, i as int, fuel as nat) == Some((v.deep_view(), j as int))
                && j <= s@.len(),
            None => parse_request_items(s@, i as int, fuel as nat) is None,
        },
    decreases fuel, 30int,
{
    if fuel == 0 {
        return None;
    }
    match scan_request(s, i, fuel) {
        Some((e, j)) => {
            match scan_lit(s, j, ",") {
                Some(j2) => {
                    proof {
                        reveal_strlit(",");
                        assert(","@ =~= seq![',']);
                    }
                    match scan_request_items(s, j2, fuel - 1) {
                        Some((rest, j3)) => {
                            let mut v: Vec<crate::model::HttpRequest> = Vec::new();
                            v.push(e);
                            let mut rest = rest;
                            v.append(&mut rest);
                            proof {
                                assert(v.deep_view() =~= seq![v@[0].deep_view()]
                                    + parse_request_items(s@, j2 as int, (fuel - 1) as nat).unwrap().0);
                            }
                            Some((v, j3))
                        },
                        None => None,
                    }
                },
                None => {
                    proof {
                        reveal_strlit(",");
                        assert(","@ =~= seq![',']);
                    }
                    match scan_lit(s, j, "]") {
                        Some(j2) => {
                            proof {
                                reveal_strlit("]");
                                assert("]"@ =~= seq![']']);
                            }
                            let mut v: Vec<crate::model::HttpRequest> = Vec::new();
                            v.push(e);
                            proof {
                                assert(v.deep_view() =~= seq![v@[0].deep_view()]);
                            }
                            Some((v, j2))
                        },
                        None => {
                            proof {
                                reveal_strlit("]");
                                assert("]"@ =~= seq![']']);
                            }
                            None
                        },
                    }
                },
            }
        },
        None => None,
    }
}

/// Scan a request list.
fn scan_request_list(s: &Vec<char>, i: usize, fuel: usize) -> (r: Option<(Vec<crate::model::HttpRequest>, usize)>)
    ensures
        match r {
            Some((v, j)) => parse_request_list(s@, i as int, fuel as nat) == Some((v.deep_view(), j as int))
                && j <= s@.len(),
            None => parse_request_list(s@, i as int, fuel as nat) is None,
        },
    decreases fuel, 31int,
{
    proof {
        reveal_strlit("[");
        reveal_strlit("]");
        assert("["@ =~= seq!['[']);
        assert("]"@ =~= seq![']']);
    }
    match scan_lit(s, i, "[") {
        Some(j1) => {
            match scan_lit(s, j1, "]") {
                Some(j2) => {
                    let v: Vec<crate::model::HttpRequest> = Vec::new();
                    proof {
                        assert(v.deep_view() =~= Seq::<crate::model::HttpRequest>::empty().map(
                            |q: int, x: crate::model::HttpRequest| x.deep_view(),
                        ));
                        assert(v.deep_view().len() == 0);
                    }
                    Some((v, j2))
                },
                None => scan_request_items(s, j1, fuel),
            }
        },
        None => None,
    }
}


/// Scan one folder object, its subtree included.
#[verifier::rlimit(100)]
fn scan_folder(s: &Vec<char>, i: usize, fuel: usize) -> (r: Option<(crate::model::Folder, usize)>)
    ensures
        match r {
            Some((x, j)) => parse_folder(s@, i as int, fuel as nat) == Some(
                (x.deep_view(), j as int),
            ) && j <= s@.len(),
            None => parse_folder(s@, i as int, fuel as nat) is None,
        },
    decreases fuel, 43int,
{
    proof {
        lemma_lit_views();
        reveal_strlit(",\"requests\":");
        reveal_strlit(",\"folders\":");
        assert(",\"requests\":"@ =~= lit_requests());
        assert(",\"folders\":"@ =~= lit_folders());
    }
    match scan_lit(s, i, "{\"id\":") {
        Some(j1) => match scan_string(s, j1) {
            Some((id, j2)) => match scan_lit(s, j2, ",\"name\":") {
                Some(j3) => match scan_string(s, j3) {
                    Some((name, j4)) => match scan_lit(s, j4, ",\"requests\":") {
                        Some(j5) => match scan_request_list(s, j5, fuel) {
                            Some((requests, j6)) => match scan_lit(s, j6, ",\"folders\":") {
                                Some(j7) => match scan_folder_list(s, j7, fuel) {
                                    Some((folders, j8)) => match scan_lit(s, j8, "}") {
                                        Some(j9) => {
                                            let f = crate::model::Folder {
                                                id: crate::text::string_from_chars(&id),
                                                name: crate::text::string_from_chars(&name),
                                                requests,
                                                folders,
                                            };
                                            proof {
                                                assert(f.deep_view().folders
                                                    =~= f.folders.deep_view());
                                                assert(f.deep_view() =~= parse_folder(
                                                    s@,
                                                    i as int,
                                                    fuel as nat,
                                                ).unwrap().0);
                                            }
                                            Some((f, j9))
                                        },
                                        None => None,
                                    },
                                    None => None,
                                },
                                None => None,
                            },
                            None => None,
                        },
                        None => None,
                    },
                    None => None,
                },
                None => None,
            },
            None => None,
        },
        None => None,
    }
}

/// Scan the elements of a non-empty folder list.
#[verifier::rlimit(100)]
fn scan_folder_items(s: &Vec<char>, i: usize, fuel: usize) -> (r: Option<
    (Vec<crate::model::Folder>, usize),
>)
    ensures
        match r {
            Some((v, j)) => parse_folder_items(s@, i as int, fuel as nat) == Some(
                (v.deep_view(), j as int),
            ) && j <= s@.len(),
            None => parse_folder_items(s@, i as int, fuel as nat) is None,
        },
    decreases fuel, 41int,
{
    if fuel == 0 {
        return None;
    }
    match scan_folder(s, i, fuel - 1) {
        Some((e, j)) => {
            match scan_lit(s, j, ",") {
                Some(j2) => {
                    proof {
                        reveal_strlit(",");
                        assert(","@ =~= seq![',']);
                    }
                    match scan_folder_items(s, j2, fuel - 1) {
                        Some((rest, j3)) => {
                            let mut v: Vec<crate::model::Folder> = Vec::new();
                            v.push(e);
                            let mut rest = rest;
                            v.append(&mut rest);
                            proof {
                                assert(v.deep_view() =~= seq![v@[0].deep_view()]
                                    + parse_folder_items(
                                    s@,
                                    j2 as int,
                                    (fuel - 1) as nat,
                                ).unwrap().0);
                            }
                            Some((v, j3))
                        },
                        None => None,
                    }
                },
                None => {
                    proof {
                        reveal_strlit(",");
                        assert(","@ =~= seq![',']);
                    }
                    match scan_lit(s, j, "]") {
                        Some(j2) => {
                            proof {
                                reveal_strlit("]");
                                assert("]"@ =~= seq![']']);
                            }
                            let mut v: Vec<crate::model::Folder> = Vec::new();
                            v.push(e);
                            proof {
                                assert(v.deep_view() =~= seq![v@[0].deep_view()]);
                            }
                            Some((v, j2))
                        },
                        None => {
                            proof {
                                reveal_strlit("]");
                                assert("]"@ =~= seq![']']);
                            }
                            None
                        },
                    }
                },
            }
        },
        None => None,
    }
}

/// Scan a folder list.
#[verifier::rlimit(100)]
fn scan_folder_list(s: &Vec<char>, i: usize, fuel: usize) -> (r: Option<
    (Vec<crate::model::Folder>, usize),
>)
    ensures
        match r {
            Some((v, j)) => parse_folder_list(s@, i as int, fuel as nat) == Some(
                (v.deep_view(), j as int),
            ) && j <= s@.len(),
            None => parse_folder_list(s@, i as int, fuel as nat) is None,
        },
    decreases fuel, 42int,
{
    proof {
        reveal_strlit("[");
        reveal_strlit("]");
        assert("["@ =~= seq!['[']);
        assert("]"@ =~= seq![']']);
    }
    match scan_lit(s, i, "[") {
        Some(j1) => {
            match scan_lit(s, j1, "]") {
                Some(j2) => {
                    let v: Vec<crate::model::Folder> = Vec::new();
                    proof {
                        assert(v.deep_view().len() == 0);
                        assert(v.deep_view() =~= Seq::<crate::model::FolderModel>::empty());
                    }
                    Some((v, j2))
                },
                None => scan_folder_items(s, j1, fuel),
            }
        },
        None => None,
    }
}

/// Scan one collection object.
#[verifier::rlimit(100)]
fn scan_collection(s: &Vec<char>, i: usize, fuel: usize) -> (r: Option<
    (crate::model::Collection, usize),
>)
    ensures
        match r {
            Some((x, j)) => parse_collection(s@, i as int, fuel as nat) == Some(
                (x.deep_view(), j as int),
            ) && j <= s@.len(),
            None => parse_collection(s@, i as int, fuel as nat) is None,
        },
    decreases fuel, 44int,
{
    proof {
        lemma_lit_views();
        reveal_strlit(",\"root_folder\":");
        assert(",\"root_folder\":"@ =~= lit_root_folder());
    }
    match scan_lit(s, i, "{\"id\":") {
        Some(j1) => match scan_string(s, j1) {
            Some((id, j2)) => match scan_lit(s, j2, ",\"name\":") {
                Some(j3) => match scan_string(s, j3) {
                    Some((name, j4)) => match scan_lit(s, j4, ",\"root_folder\":") {
                        Some(j5) => match scan_folder(s, j5, fuel) {
                            Some((root_folder, j6)) => match scan_lit(s, j6, "}") {
                                Some(j7) => {
                                    let c = crate::model::Collection {
                                        id: crate::text::string_from_chars(&id),
                                        name: crate::text::string_from_chars(&name),
                                        root_folder,
                                    };
                                    proof {
                                        assert(c.deep_view() =~= parse_collection(
                                            s@,
                                            i as int,
                                            fuel as nat,
                                        ).unwrap().0);
                                    }
                                    Some((c, j7))
                                },
                                None => None,
                            },
                            None => None,
                        },
                        None => None,
                    },
                    None => None,
                },
                None => None,
            },
            None => None,
        },
        None => None,
    }
}


/// Scan the elements of a non-empty collection list.
#[verifier::rlimit(100)]
fn scan_collection_items(s: &Vec<char>, i: usize, fuel: usize) -> (r: Option<(Vec<crate::model::Collection>, usize)>)
    ensures
        match r {
            Some((v, j)) => parse_collection_items(s@, i as int, fuel as nat) == Some((v.deep_view(), j as int))
                && j <= s@.len(),
            None => parse_collection_items(s@, i as int, fuel as nat) is None,
        },
    decreases fuel, 30int,
{
    if fuel == 0 {
        return None;
    }
    match scan_collection(s, i, fuel) {
        Some((e, j)) => {
            match scan_lit(s, j, ",") {
                Some(j2) => {
                    proof {
                        reveal_strlit(",");
                        assert(","@ =~= seq![',']);
                    }
                    match scan_collection_items(s, j2, fuel - 1) {
                        Some((rest, j3)) => {
                            let mut v: Vec<crate::model::Collection> = Vec::new();
                            v.push(e);
                            let mut rest = rest;
                            v.append(&mut rest);
                            proof {
                                assert(v.deep_view() =~= seq![v@[0].deep_view()]
                                    + parse_collection_items(s@, j2 as int, (fuel - 1) as nat).unwrap().0);
                            }
                            Some((v, j3))
                        },
                        None => None,
                    }
                },
                None => {
                    proof {
                        reveal_strlit(",");
                        assert(","@ =~= seq![',']);
                    }
                    match scan_lit(s, j, "]") {
                        Some(j2) => {
                            proof {
                                reveal_strlit("]");
                                assert("]"@ =~= seq![']']);
                            }
                            let mut v: Vec<crate::model::Collection> = Vec::new();
                            v.push(e);
                            proof {
                                assert(v.deep_view() =~= seq![v@[0].deep_view()]);
                            }
                            Some((v, j2))
                        },
                        None => {
                            proof {
                                reveal_strlit("]");
                                assert("]"@ =~= seq![']']);
                            }
                            None
                        },
                    }
                },
            }
        },
        None => None,
    }
}

/// Scan a collection list.
fn scan_collection_list(s: &Vec<char>, i: usize, fuel: usize) -> (r: Option<(Vec<crate::model::Collection>, usize)>)
    ensures
        match r {
            Some((v, j)) => parse_collection_list(s@, i as int, fuel as nat) == Some((v.deep_view(), j as int))
                && j <= s@.len(),
            None => parse_collection_list(s@, i as int, fuel as nat) is None,
        },
    decreases fuel, 31int,
{
    proof {
        reveal_strlit("[");
        reveal_strlit("]");
        assert("["@ =~= seq!['[']);
        assert("]"@ =~= seq![']']);
    }
    match scan_lit(s, i, "[") {
        Some(j1) => {
            match scan_lit(s, j1, "]") {
                Some(j2) => {
                    let v: Vec<crate::model::Collection> = Vec::new();
                    proof {
                        assert(v.deep_view() =~= Seq::<crate::model::Collection>::empty().map(
                            |q: int, x: crate::model::Collection| x.deep_view(),
                        ));
                        assert(v.deep_view().len() == 0);
                    }
                    Some((v, j2))
                },
                None => scan_collection_items(s, j1, fuel),
            }
        },
        None => None,
    }
}


/// Scan one environment object.
#[verifier::rlimit(100)]
fn scan_environment(s: &Vec<char>, i: usize, fuel: usize) -> (r: Option<
    (crate::model::Environment, usize),
>)
    ensures
        match r {
            Some((x, j)) => parse_environment(s@, i as int, fuel as nat) == Some(
                (x.deep_view(), j as int),
            ) && j <= s@.len(),
            None => parse_environment(s@, i as int, fuel as nat) is None,
        },
    decreases fuel, 45int,
{
    proof {
        reveal_strlit("{\"name\":");
        reveal_strlit(",\"variables\":");
        reveal_strlit("}");
        assert("{\"name\":"@ =~= lit_env_name());
        assert(",\"variables\":"@ =~= lit_variables());
        assert("}"@ =~= seq!['}']);
    }
    match scan_lit(s, i, "{\"name\":") {
        Some(j1) => match scan_string(s, j1) {
            Some((name, j2)) => match scan_lit(s, j2, ",\"variables\":") {
                Some(j3) => match scan_pair_list(s, j3, fuel) {
                    Some((variables, j4)) => match scan_lit(s, j4, "}") {
                        Some(j5) => {
                            let e = crate::model::Environment {
                                name: crate::text::string_from_chars(&name),
                                variables,
                            };
                            proof {
                                assert(e.deep_view() =~= parse_environment(
                                    s@,
                                    i as int,
                                    fuel as nat,
                                ).unwrap().0);
                            }
                            Some((e, j5))
                        },
                        None => None,
                    },
                    None => None,
                },
                None => None,
            },
            None => None,
        },
        None => None,
    }
}


/// Scan the elements of a non-empty environment list.
#[verifier::rlimit(100)]
fn scan_environment_items(s: &Vec<char>, i: usize, fuel: usize) -> (r: Option<(Vec<crate::model::Environment>, usize)>)
    ensures
        match r {
            Some((v, j)) => parse_environment_items(s@, i as int, fuel as nat) == Some((v.deep_view(), j as int))
                && j <= s@.len(),
            None => parse_environment_items(s@, i as int, fuel as nat) is None,
        },
    decreases fuel, 30int,
{
    if fuel == 0 {
        return None;
    }
    match scan_environment(s, i, fuel) {
        Some((e, j)) => {
            match scan_lit(s, j, ",") {
                Some(j2) => {
                    proof {
                        reveal_strlit(",");
                        assert(","@ =~= seq![',']);
                    }
                    match scan_environment_items(s, j2, fuel - 1) {
                        Some((rest, j3)) => {
                            let mut v: Vec<crate::model::Environment> = Vec::new();
                            v.push(e);
                            let mut rest = rest;
                            v.append(&mut rest);
                            proof {
                                assert(v.deep_view() =~= seq![v@[0].deep_view()]
                                    + parse_environment_items(s@, j2 as int, (fuel - 1) as nat).unwrap().0);
                            }
                            Some((v, j3))
                        },
                        None => None,
                    }
                },
                None => {
                    proof {
                        reveal_strlit(",");
                        assert(","@ =~= seq![',']);
                    }
                    match scan_lit(s, j, "]") {
                        Some(j2) => {
                            proof {
                                reveal_strlit("]");
                                assert("]"@ =~= seq![']']);
                            }
                            let mut v: Vec<crate::model::Environment> = Vec::new();
                            v.push(e);
                            proof {
                                assert(v.deep_view() =~= seq![v@[0].deep_view()]);
                            }
                            Some((v, j2))
                        },
                        None => {
                            proof {
                                reveal_strlit("]");
                                assert("]"@ =~= seq![']']);
                            }
                            None
                        },
                    }
                },
            }
        },
        None => None,
    }
}

/// Scan a environment list.
fn scan_environment_list(s: &Vec<char>, i: usize, fuel: usize) -> (r: Option<(Vec<crate::model::Environment>, usize)>)
    ensures
        match r {
            Some((v, j)) => parse_environment_list(s@, i as int, fuel as nat) == Some((v.deep_view(), j as int))
                && j <= s@.len(),
            None => parse_environment_list(s@, i as int, fuel as nat) is None,
        },
    decreases fuel, 31int,
{
    proof {
        reveal_strlit("[");
        reveal_strlit("]");
        assert("["@ =~= seq!['[']);
        assert("]"@ =~= seq![']']);
    }
    match scan_lit(s, i, "[") {
        Some(j1) => {
            match scan_lit(s, j1, "]") {
                Some(j2) => {
                    let v: Vec<crate::model::Environment> = Vec::new();
                    proof {
                        assert(v.deep_view() =~= Seq::<crate::model::Environment>::empty().map(
                            |q: int, x: crate::model::Environment| x.deep_view(),
                        ));
                        assert(v.deep_view().len() == 0);
                    }
                    Some((v, j2))
                },
                None => scan_environment_items(s, j1, fuel),
            }
        },
        None => None,
    }
}


/// Read a workspace document: exactly one canonical document, or nothing.
#[verifier::rlimit(100)]
pub fn workspace_from_json(text: &str) -> (r: Option<crate::model::AppStorage>)
    ensures
        match r {
            Some(st) => spec_parse_document(text@) == Some(st.deep_view()),
            None => spec_parse_document(text@) is None,
        },
{
    let cs = crate::text::chars_of(text);
    let fuel = cs.len();
    proof {
        reveal_strlit("{\"collections\":");
        reveal_strlit(",\"environments\":");
        reveal_strlit("}");
        assert("{\"collections\":"@ =~= lit_collections());
        assert(",\"environments\":"@ =~= lit_environments());
        assert("}"@ =~= seq!['}']);
    }
    match scan_lit(&cs, 0, "{\"collections\":") {
        Some(j1) => match scan_collection_list(&cs, j1, fuel) {
            Some((collections, j2)) => match scan_lit(&cs, j2, ",\"environments\":") {
                Some(j3) => match scan_environment_list(&cs, j3, fuel) {
                    Some((environments, j4)) => match scan_lit(&cs, j4, "}") {
                        Some(j5) => {
                            if j5 == cs.len() {
                                let st = crate::model::AppStorage { collections, environments };
                                proof {
                                    assert(st.deep_view() =~= parse_storage(
                                        text@,
                                        0,
                                        text@.len(),
                                    ).unwrap().0);
                                }
                                Some(st)
                            } else {
                                None
                            }
                        },
                        None => None,
                    },
                    None => None,
                },
                None => None,
            },
            None => None,
        },
        None => None,
    }
}

/// Read a collection export. As with a workspace document, only the
/// canonical text of this module's own writer is accepted, as exactly one
/// collection object.
pub fn collection_from_json(text: &str) -> (r: Option<crate::model::Collection>)
    ensures
        match r {
            Some(c) => spec_parse_collection_document(text@) == Some(c.deep_view()),
            None => spec_parse_collection_document(text@) is None,
        },
{
    let cs = crate::text::chars_of(text);
    let fuel = cs.len();
    match scan_collection(&cs, 0, fuel) {
        Some((c, j)) => {
            if j == cs.len() {
                Some(c)
            } else {
                None
            }
        },
        None => None,
    }
}

} // verus!
