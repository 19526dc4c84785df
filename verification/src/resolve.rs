//! Environment-variable resolution: every occurrence of the literal form
//! `{{name}}` is replaced by the variable's value, one whole-string pass per
//! variable, in the environment's order. Earlier replacement text is not
//! re-scanned within its own pass, and unknown placeholders stay verbatim.

use vstd::prelude::*;
use crate::model::Environment;
use crate::text::string_from_chars;

verus! {

broadcast use vstd::std_specs::vec::group_vec_axioms;

/// Left-to-right, non-overlapping replacement of `pat` by `to` in `s`
/// (`str::replace`). An empty pattern replaces nothing here; the resolver
/// only ever uses patterns of at least four characters.
pub open spec fn replace_all(s: Seq<char>, pat: Seq<char>, to: Seq<char>) -> Seq<char>
    decreases s.len(),
{
    if pat.len() == 0 || s.len() < pat.len() {
        s
    } else if s.take(pat.len() as int) == pat {
        to + replace_all(s.skip(pat.len() as int), pat, to)
    } else {
        seq![s[0]] + replace_all(s.skip(1), pat, to)
    }
}

/// `pat` occurs in `s` at position `i`.
pub open spec fn contains_at(s: Seq<char>, i: int, pat: Seq<char>) -> bool {
    0 <= i && i + pat.len() <= s.len() && s.subrange(i, i + pat.len()) == pat
}

/// `pat` occurs somewhere in `s`.
pub open spec fn contains_seq(s: Seq<char>, pat: Seq<char>) -> bool {
    exists|i: int| contains_at(s, i, pat)
}

/// Replacing a pattern that does not occur changes nothing.
pub proof fn lemma_replace_absent(s: Seq<char>, pat: Seq<char>, to: Seq<char>)
    requires
        pat.len() > 0,
        !contains_seq(s, pat),
    ensures
        replace_all(s, pat, to) == s,
    decreases s.len(),
{
    if s.len() < pat.len() {
    } else {
        if s.take(pat.len() as int) == pat {
            assert(s.subrange(0, pat.len() as int) =~= s.take(pat.len() as int));
            assert(contains_at(s, 0, pat));
            assert(false);
        }
        assert(!contains_seq(s.skip(1), pat)) by {
            if contains_seq(s.skip(1), pat) {
                let i = choose|i: int| contains_at(s.skip(1), i, pat);
                assert(s.subrange(i + 1, i + 1 + pat.len()) =~= s.skip(1).subrange(
                    i,
                    i + pat.len(),
                ));
                assert(contains_at(s, i + 1, pat));
            }
        }
        lemma_replace_absent(s.skip(1), pat, to);
        assert(seq![s[0]] + s.skip(1) =~= s);
    }
}

/// The placeholder form of a variable name: `{{name}}`.
pub open spec fn placeholder(k: Seq<char>) -> Seq<char> {
    seq!['{', '{'] + k + seq!['}', '}']
}

/// The string after substituting the variables of `vars`, in order, one
/// whole-string replacement pass per variable.
pub open spec fn resolve_with(s: Seq<char>, vars: Seq<(Seq<char>, Seq<char>)>) -> Seq<char>
    decreases vars.len(),
{
    if vars.len() == 0 {
        s
    } else {
        resolve_with(replace_all(s, placeholder(vars[0].0), vars[0].1), vars.skip(1))
    }
}

/// `s` holds a `{{`, and a `}}` no earlier than where that placeholder's
/// name would end: the shape every placeholder occurrence produces.
pub open spec fn has_placeholder(s: Seq<char>) -> bool {
    exists|i: int, j: int|
        #![trigger s[i], s[j]]
        0 <= i && i + 2 <= j && j + 2 <= s.len() && s[i] == '{' && s[i + 1] == '{' && s[j] == '}'
            && s[j + 1] == '}'
}

/// An occurrence of any variable's placeholder exhibits the placeholder shape.
proof fn lemma_occurrence_shape(s: Seq<char>, k: Seq<char>)
    requires
        contains_seq(s, placeholder(k)),
    ensures
        has_placeholder(s),
{
    let ph = placeholder(k);
    let m = k.len() as int;
    let i = choose|i: int| contains_at(s, i, ph);
    let sub = s.subrange(i, i + ph.len());
    assert(s[i] == sub[0] && sub[0] == ph[0]);
    assert(s[i + 1] == sub[1] && sub[1] == ph[1]);
    let j = i + 2 + m;
    assert(s[j] == sub[2 + m] && sub[2 + m] == ph[2 + m]);
    assert(s[j + 1] == sub[3 + m] && sub[3 + m] == ph[3 + m]);
    assert(ph[0] == '{' && ph[1] == '{');
    assert(ph[2 + m] == '}' && ph[3 + m] == '}');
    assert(0 <= i && i + 2 <= j && j + 2 <= s.len());
}

/// Resolution is the identity on strings without the placeholder shape,
/// whatever the environment holds.
pub proof fn lemma_resolve_unmatched(s: Seq<char>, vars: Seq<(Seq<char>, Seq<char>)>)
    requires
        !has_placeholder(s),
    ensures
        resolve_with(s, vars) == s,
    decreases vars.len(),
{
    if vars.len() > 0 {
        let k = vars[0].0;
        if contains_seq(s, placeholder(k)) {
            lemma_occurrence_shape(s, k);
        }
        assert(placeholder(k).len() == k.len() + 4);
        lemma_replace_absent(s, placeholder(k), vars[0].1);
        lemma_resolve_unmatched(s, vars.skip(1));
    }
}

/// A placeholder whose name no variable carries resolves to itself: the
/// literal `{{missing}}` passes through any environment lacking `missing`.
pub proof fn lemma_unresolved_passthrough(vars: Seq<(Seq<char>, Seq<char>)>)
    requires
        forall|j: int| 0 <= j < vars.len() ==> #[trigger] vars[j].0 != "missing"@,
    ensures
        resolve_with("{{missing}}"@, vars) == "{{missing}}"@,
    decreases vars.len(),
{
    reveal_strlit("{{missing}}");
    reveal_strlit("missing");
    let t = "{{missing}}"@;
    assert(t.len() == 11);
    if vars.len() > 0 {
        let k = vars[0].0;
        let ph = placeholder(k);
        assert(ph.len() == k.len() + 4);
        assert(!contains_seq(t, ph)) by {
            if contains_seq(t, ph) {
                let i = choose|i: int| contains_at(t, i, ph);
                let sub = t.subrange(i, i + ph.len());
                assert(t[i] == sub[0] && sub[0] == ph[0] && ph[0] == '{');
                assert(t[i + 1] == sub[1] && sub[1] == ph[1] && ph[1] == '{');
                // '{' stands only at positions 0 and 1 of `t`
                assert(i + 4 <= 11);
                if i != 0 {
                    assert(t[i + 1] != '{');
                    assert(false);
                }
                // the name ends where a '}' stands; letters occupy 2..=8
                let m = k.len() as int;
                assert(m <= 7);
                assert(t[2 + m] == sub[2 + m] && sub[2 + m] == ph[2 + m] && ph[2 + m] == '}');
                if m < 7 {
                    assert(t[2 + m] != '}');
                    assert(false);
                }
                // so the name is exactly the seven letters: "missing"
                assert(k =~= "missing"@) by {
                    assert(forall|q: int|
                        0 <= q < 7 ==> k[q] == ph[q + 2] && ph[q + 2] == sub[q + 2] && sub[q + 2]
                            == t[q + 2]);
                }
                assert(vars[0].0 != "missing"@);
                assert(false);
            }
        }
        lemma_replace_absent(t, ph, vars[0].1);
        lemma_unresolved_passthrough(vars.skip(1));
    }
}

/// The characters of `pat` stand in `s` at position `i`.
fn window_matches(s: &Vec<char>, i: usize, pat: &Vec<char>) -> (r: bool)
    requires
        i + pat@.len() <= s@.len(),
    ensures
        r == (s@.subrange(i as int, i as int + pat@.len()) == pat@),
{
    let mut j: usize = 0;
    while j < pat.len()
        invariant
            i + pat@.len() <= s@.len(),
            j <= pat@.len(),
            forall|q: int| 0 <= q < j ==> s@[i + q] == pat@[q],
        decreases pat@.len() - j,
    {
        proof {
            assert(s@.len() == s.len());
        }
        if s[i + j] != pat[j] {
            proof {
                assert(s@.subrange(i as int, i as int + pat@.len())[j as int] == s@[i + j]);
            }
            return false;
        }
        j = j + 1;
    }
    proof {
        assert(s@.subrange(i as int, i as int + pat@.len()) =~= pat@);
    }
    true
}

/// One replacement pass: every occurrence of `pat` in `s` becomes `to`,
/// left to right, without re-scanning replacement text.
pub fn replace_all_chars(s: &Vec<char>, pat: &Vec<char>, to: &Vec<char>) -> (r: Vec<char>)
    ensures
        r@ == replace_all(s@, pat@, to@),
{
    let mut out: Vec<char> = Vec::new();
    let mut i: usize = 0;
    if pat.len() == 0 {
        while i < s.len()
            invariant
                i <= s@.len(),
                out@ == s@.take(i as int),
            decreases s@.len() - i,
        {
            out.push(s[i]);
            i = i + 1;
            proof {
                assert(out@ =~= s@.take(i as int));
            }
        }
        proof {
            assert(out@ =~= s@);
        }
        return out;
    }
    proof {
        assert(s@.skip(0) =~= s@);
    }
    while i < s.len()
        invariant
            pat@.len() > 0,
            i <= s@.len(),
            replace_all(s@, pat@, to@) == out@ + replace_all(s@.skip(i as int), pat@, to@),
        decreases s@.len() - i,
    {
        let ghost pre = out@;
        let ghost rest = s@.skip(i as int);
        if pat.len() <= s.len() - i && window_matches(s, i, pat) {
            proof {
                assert(rest.take(pat@.len() as int) =~= s@.subrange(
                    i as int,
                    i as int + pat@.len(),
                ));
                assert(rest.skip(pat@.len() as int) =~= s@.skip(i as int + pat@.len() as int));
            }
            let mut j: usize = 0;
            while j < to.len()
                invariant
                    j <= to@.len(),
                    out@ == pre + to@.take(j as int),
                decreases to@.len() - j,
            {
                out.push(to[j]);
                j = j + 1;
                proof {
                    assert(out@ =~= pre + to@.take(j as int));
                }
            }
            i = i + pat.len();
            proof {
                assert(to@.take(to@.len() as int) =~= to@);
                assert(pre + to@ + replace_all(s@.skip(i as int), pat@, to@) =~= pre + (to@
                    + replace_all(s@.skip(i as int), pat@, to@)));
            }
        } else {
            proof {
                if pat.len() <= s.len() - i {
                    assert(rest.take(pat@.len() as int) =~= s@.subrange(
                        i as int,
                        i as int + pat@.len(),
                    ));
                }
                assert(rest[0] == s@[i as int]);
                assert(rest.skip(1) =~= s@.skip(i as int + 1));
            }
            out.push(s[i]);
            i = i + 1;
            proof {
                assert(pre + seq![s@[i - 1]] =~= out@);
                assert(pre + (seq![s@[i - 1]] + replace_all(s@.skip(i as int), pat@, to@)) =~= out@
                    + replace_all(s@.skip(i as int), pat@, to@));
            }
        }
    }
    proof {
        assert(s@.skip(i as int) =~= Seq::<char>::empty());
        assert(out@ + Seq::<char>::empty() =~= out@);
    }
    out
}

/// The placeholder characters `{{name}}` for a variable name.
pub fn placeholder_chars(key: &str) -> (r: Vec<char>)
    ensures
        r@ == placeholder(key@),
{
    let mut r: Vec<char> = Vec::new();
    r.push('{');
    r.push('{');
    let ks = crate::text::chars_of(key);
    let mut i: usize = 0;
    while i < ks.len()
        invariant
            ks@ == key@,
            i <= ks@.len(),
            r@ == seq!['{', '{'] + key@.take(i as int),
        decreases ks@.len() - i,
    {
        r.push(ks[i]);
        i = i + 1;
        proof {
            assert(r@ =~= seq!['{', '{'] + key@.take(i as int));
        }
    }
    r.push('}');
    r.push('}');
    proof {
        assert(key@.take(key@.len() as int) =~= key@);
        assert(r@ =~= placeholder(key@));
    }
    r
}

/// Substitute every variable of `env` (in order) into `input`; with no
/// active environment the input passes through unchanged.
pub fn resolve_value(input: &str, env: Option<&Environment>) -> (r: String)
    ensures
        match env {
            Some(e) => r@ == resolve_with(input@, e.deep_view().variables),
            None => r@ == input@,
        },
{
    match env {
        None => {
            let cs = crate::text::chars_of(input);
            string_from_chars(&cs)
        },
        Some(e) => {
            let mut cur = crate::text::chars_of(input);
            let mut i: usize = 0;
            let ghost vars = e.deep_view().variables;
            proof {
                assert(vars.skip(0) =~= vars);
            }
            while i < e.variables.len()
                invariant
                    vars == e.deep_view().variables,
                    vars.len() == e.variables@.len(),
                    i <= vars.len(),
                    resolve_with(input@, vars) == resolve_with(cur@, vars.skip(i as int)),
                decreases vars.len() - i,
            {
                proof {
                    assert(vars[i as int] == (e.variables@[i as int].0@, e.variables@[i as int].1@));
                    assert(vars.skip(i as int)[0] == vars[i as int]);
                    assert(vars.skip(i as int).skip(1) =~= vars.skip(i as int + 1));
                }
                let pat = placeholder_chars(e.variables[i].0.as_str());
                let to = crate::text::chars_of(e.variables[i].1.as_str());
                cur = replace_all_chars(&cur, &pat, &to);
                i = i + 1;
            }
            proof {
                assert(vars.skip(i as int) =~= Seq::<(Seq<char>, Seq<char>)>::empty());
            }
            string_from_chars(&cur)
        },
    }
}

} // verus!
