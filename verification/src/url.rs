//! Query-string construction: percent-encoding of keys and values (through
//! the `urlencoding` crate, against an exact byte-level specification), and
//! appending `?k=v&k=v` fragments to a resolved URL.

use vstd::prelude::*;
use vstd::utf8::encode_utf8;

verus! {

broadcast use vstd::std_specs::vec::group_vec_axioms;

/// The bytes percent-encoding leaves as they are: ASCII alphanumerics and
/// `-`, `.`, `_`, `~`.
pub open spec fn is_unreserved_byte(b: u8) -> bool {
    (48 <= b && b <= 57) || (65 <= b && b <= 90) || (97 <= b && b <= 122) || b == 45 || b == 46
        || b == 95 || b == 126
}

/// The uppercase hexadecimal digit for a value below sixteen.
pub open spec fn hex_digit(n: u8) -> char
    recommends
        n < 16,
{
    if n < 10 {
        (((48 + n) as u8) as char)
    } else {
        (((55 + n) as u8) as char)
    }
}

/// One byte's percent-encoding: itself if unreserved, else `%XY`.
pub open spec fn encode_byte(b: u8) -> Seq<char> {
    if is_unreserved_byte(b) {
        seq![b as char]
    } else {
        seq!['%', hex_digit(b / 16), hex_digit(b % 16)]
    }
}

/// The percent-encoding of a byte sequence.
pub open spec fn encode_bytes(bs: Seq<u8>) -> Seq<char>
    decreases bs.len(),
{
    if bs.len() == 0 {
        Seq::empty()
    } else {
        encode_byte(bs[0]) + encode_bytes(bs.drop_first())
    }
}

/// The percent-encoding of a string: each of its UTF-8 bytes encoded.
pub open spec fn url_encoded(s: Seq<char>) -> Seq<char> {
    encode_bytes(encode_utf8(s))
}

/// Relies on `urlencoding::encode`: percent-encodes every UTF-8 byte of the
/// input except ASCII alphanumerics and `-`, `.`, `_`, `~`, as `%` followed
/// by two uppercase hexadecimal digits.
#[verifier::external_body]
pub(crate) fn encode_component(s: &str) -> (r: String)
    ensures
        r@ == url_encoded(s@),
{
    urlencoding::encode(s).into_owned()
}

/// The `k=v` fragments of the query string: one per pair, key and value
/// percent-encoded independently, in order.
pub open spec fn encoded_parts(pairs: Seq<(Seq<char>, Seq<char>)>) -> Seq<Seq<char>> {
    pairs.map(|i: int, p: (Seq<char>, Seq<char>)| url_encoded(p.0) + seq!['='] + url_encoded(p.1))
}

/// Fragments joined with `&`.
pub open spec fn join_amp(parts: Seq<Seq<char>>) -> Seq<char>
    decreases parts.len(),
{
    if parts.len() == 0 {
        Seq::empty()
    } else if parts.len() == 1 {
        parts[0]
    } else {
        parts[0] + seq!['&'] + join_amp(parts.drop_first())
    }
}

proof fn lemma_join_amp_push(parts: Seq<Seq<char>>, x: Seq<char>)
    ensures
        join_amp(parts.push(x)) == if parts.len() == 0 {
            x
        } else {
            join_amp(parts) + seq!['&'] + x
        },
    decreases parts.len(),
{
    if parts.len() == 0 {
        assert(parts.push(x)[0] == x);
    } else {
        assert(parts.push(x).drop_first() =~= parts.drop_first().push(x));
        lemma_join_amp_push(parts.drop_first(), x);
        if parts.len() == 1 {
            assert(join_amp(parts) == parts[0]);
        } else {
            assert(join_amp(parts) == parts[0] + seq!['&'] + join_amp(parts.drop_first()));
            assert(parts[0] + seq!['&'] + (join_amp(parts.drop_first()) + seq!['&'] + x) =~= (
            parts[0] + seq!['&'] + join_amp(parts.drop_first())) + seq!['&'] + x);
        }
    }
}

/// Whether `c` occurs in `s`.
pub open spec fn contains_char(s: Seq<char>, c: char) -> bool {
    exists|i: int| 0 <= i < s.len() && s[i] == c
}

/// The URL with the query fragment appended: untouched when there are no
/// pairs, else joined on with `?`, or with `&` when the URL already has a
/// query component.
pub open spec fn with_query(url: Seq<char>, pairs: Seq<(Seq<char>, Seq<char>)>) -> Seq<char> {
    let parts = encoded_parts(pairs);
    if parts.len() == 0 {
        url
    } else if contains_char(url, '?') {
        url + seq!['&'] + join_amp(parts)
    } else {
        url + seq!['?'] + join_amp(parts)
    }
}

fn str_contains_char(s: &str, c: char) -> (r: bool)
    ensures
        r == contains_char(s@, c),
{
    let n = s.unicode_len();
    let mut i: usize = 0;
    while i < n
        invariant
            n == s@.len(),
            i <= n,
            forall|j: int| 0 <= j < i ==> s@[j] != c,
        decreases n - i,
    {
        if s.get_char(i) == c {
            return true;
        }
        i = i + 1;
    }
    false
}

/// Append the query parameters to `url`: each key and value percent-encoded,
/// joined with `=` and `&`, prefixed with `?` (or `&` when the URL already
/// holds one).
pub fn append_query_params(url: &str, pairs: &Vec<(String, String)>) -> (r: String)
    ensures
        r@ == with_query(url@, pairs.deep_view()),
{
    let ghost pv = pairs.deep_view();
    let mut joined = String::new();
    let ghost parts = encoded_parts(pv);
    let mut i: usize = 0;
    proof {
        assert(pv.skip(0) =~= pv);
    }
    while i < pairs.len()
        invariant
            pv == pairs.deep_view(),
            pv.len() == pairs@.len(),
            i <= pairs@.len(),
            parts == encoded_parts(pv),
            joined@ == join_amp(encoded_parts(pv.take(i as int))),
        decreases pairs@.len() - i,
    {
        let ghost seen = encoded_parts(pv.take(i as int));
        proof {
            assert(pv[i as int] == (pairs@[i as int].0@, pairs@[i as int].1@));
            assert(seen.len() == i);
        }
        let enc_k = encode_component(pairs[i].0.as_str());
        let enc_v = encode_component(pairs[i].1.as_str());
        let ghost part = url_encoded(pv[i as int].0) + seq!['='] + url_encoded(pv[i as int].1);
        if i > 0 {
            joined.append("&");
        }
        joined.append(enc_k.as_str());
        joined.append("=");
        joined.append(enc_v.as_str());
        proof {
            reveal_strlit("&");
            reveal_strlit("=");
            assert("&"@ =~= seq!['&']);
            assert("="@ =~= seq!['=']);
            assert(encoded_parts(pv.take(i as int + 1)) =~= seen.push(part));
            lemma_join_amp_push(seen, part);
            if i == 0 {
                assert(joined@ =~= part);
            } else {
                assert(joined@ =~= join_amp(seen) + seq!['&'] + part);
            }
        }
        i = i + 1;
    }
    proof {
        assert(pv.take(i as int) =~= pv);
        assert(encoded_parts(pv).len() == pv.len());
    }
    if pairs.len() == 0 {
        let cs = crate::text::chars_of(url);
        return crate::text::string_from_chars(&cs);
    }
    let cs = crate::text::chars_of(url);
    let mut r = crate::text::string_from_chars(&cs);
    if str_contains_char(url, '?') {
        r.append("&");
        proof {
            reveal_strlit("&");
            assert("&"@ =~= seq!['&']);
        }
    } else {
        r.append("?");
        proof {
            reveal_strlit("?");
            assert("?"@ =~= seq!['?']);
        }
    }
    r.append(joined.as_str());
    r
}

} // verus!
