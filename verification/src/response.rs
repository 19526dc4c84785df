//! Response shaping: a transport outcome becomes the response the pane shows.
//! Success keeps the numeric status and reason (falling back to `Unknown`),
//! folds the received headers into a name→value map where later duplicates
//! overwrite earlier ones, and computes the body and header byte sizes; a
//! transport failure becomes a synthetic response with status `0`, reason
//! `Error`, an empty header map and the failure description as its body.

use vstd::prelude::*;
use vstd::utf8::encode_utf8;

verus! {

broadcast use vstd::std_specs::vec::group_vec_axioms;

/// A shaped response.
pub struct HttpResponse {
    pub status: u16,
    pub status_text: String,
    /// One entry per distinct header name; later received values win.
    pub headers: Vec<(String, String)>,
    pub body: String,
    /// Wall-clock milliseconds from just before construction to completion.
    pub time: u128,
    pub body_size: usize,
    pub headers_size: usize,
}

/// Model of a shaped response; headers as the name→value map.
#[verifier::ext_equal]
pub struct ResponseModel {
    pub status: u16,
    pub status_text: Seq<char>,
    pub headers: Map<Seq<char>, Seq<char>>,
    pub body: Seq<char>,
    pub time: u128,
    pub body_size: usize,
    pub headers_size: usize,
}

/// The name→value map a pair list folds to: later pairs overwrite earlier.
pub open spec fn map_of_pairs(ps: Seq<(Seq<char>, Seq<char>)>) -> Map<Seq<char>, Seq<char>>
    decreases ps.len(),
{
    if ps.len() == 0 {
        Map::empty()
    } else {
        map_of_pairs(ps.drop_last()).insert(ps.last().0, ps.last().1)
    }
}

impl DeepView for HttpResponse {
    type V = ResponseModel;

    open spec fn deep_view(&self) -> ResponseModel {
        ResponseModel {
            status: self.status,
            status_text: self.status_text@,
            headers: map_of_pairs(self.headers.deep_view()),
            body: self.body@,
            time: self.time,
            body_size: self.body_size,
            headers_size: self.headers_size,
        }
    }
}

/// No two pairs share a name.
pub open spec fn unique_keys(ps: Seq<(Seq<char>, Seq<char>)>) -> bool {
    forall|i: int, j: int|
        0 <= i < j < ps.len() ==> (#[trigger] ps[i]).0 != (#[trigger] ps[j]).0
}

/// The byte size of the received headers: name and value lengths plus a
/// fixed four-byte overhead per header for the separators, over every
/// received header (duplicates included), as an unbounded sum.
pub open spec fn spec_headers_size(ps: Seq<(Seq<char>, Seq<char>)>) -> nat
    decreases ps.len(),
{
    if ps.len() == 0 {
        0
    } else {
        spec_headers_size(ps.drop_last()) + encode_utf8(ps.last().0).len() + encode_utf8(
            ps.last().1,
        ).len() + 4
    }
}

/// The sum clamped to what a machine word holds.
pub open spec fn clamped(n: nat) -> usize {
    if n <= usize::MAX as nat {
        n as usize
    } else {
        usize::MAX
    }
}

proof fn lemma_map_of_pairs_update(ps: Seq<(Seq<char>, Seq<char>)>, k: int, v: Seq<char>)
    requires
        unique_keys(ps),
        0 <= k < ps.len(),
    ensures
        map_of_pairs(ps.update(k, (ps[k].0, v))) == map_of_pairs(ps).insert(ps[k].0, v),
    decreases ps.len(),
{
    let upd = ps.update(k, (ps[k].0, v));
    if k == ps.len() - 1 {
        assert(upd.drop_last() =~= ps.drop_last());
        assert(upd.last() == (ps[k].0, v));
        assert(map_of_pairs(ps.drop_last()).insert(ps[k].0, ps[k].1).insert(ps[k].0, v)
            =~= map_of_pairs(ps.drop_last()).insert(ps[k].0, v));
    } else {
        assert(upd.drop_last() =~= ps.drop_last().update(k, (ps[k].0, v)));
        assert(ps.drop_last()[k] == ps[k]);
        lemma_map_of_pairs_update(ps.drop_last(), k, v);
        assert(upd.last() == ps.last());
        // the two inserted names differ, so the inserts commute
        assert(ps[k].0 != ps.last().0);
        assert(map_of_pairs(ps.drop_last()).insert(ps[k].0, v).insert(ps.last().0, ps.last().1)
            =~= map_of_pairs(ps.drop_last()).insert(ps.last().0, ps.last().1).insert(ps[k].0, v));
    }
}

/// The position of `key` among the pairs, if present.
fn find_key(r: &Vec<(String, String)>, key: &str) -> (idx: Option<usize>)
    ensures
        match idx {
            Some(j) => (j as int) < r.deep_view().len() && r.deep_view()[j as int].0 == key@,
            None => forall|q: int|
                0 <= q < r.deep_view().len() ==> (#[trigger] r.deep_view()[q]).0 != key@,
        },
{
    let mut j: usize = 0;
    while j < r.len()
        invariant
            j <= r@.len(),
            forall|q: int| 0 <= q < j ==> (#[trigger] r.deep_view()[q]).0 != key@,
        decreases r@.len() - j,
    {
        proof {
            assert(r.deep_view()[j as int] == (r@[j as int].0@, r@[j as int].1@));
        }
        if crate::text::str_eq(r[j].0.as_str(), key) {
            return Some(j);
        }
        j = j + 1;
    }
    None
}

/// Fold the received headers into one entry per name, later values winning,
/// first appearance deciding the position.
pub fn dedup_headers(pairs: &Vec<(String, String)>) -> (r: Vec<(String, String)>)
    ensures
        unique_keys(r.deep_view()),
        map_of_pairs(r.deep_view()) == map_of_pairs(pairs.deep_view()),
{
    let ghost pv = pairs.deep_view();
    let mut r: Vec<(String, String)> = Vec::new();
    let mut i: usize = 0;
    while i < pairs.len()
        invariant
            pv == pairs.deep_view(),
            pv.len() == pairs@.len(),
            i <= pairs@.len(),
            unique_keys(r.deep_view()),
            map_of_pairs(r.deep_view()) == map_of_pairs(pv.take(i as int)),
        decreases pairs@.len() - i,
    {
        let ghost before = r.deep_view();
        proof {
            assert(pv.take(i as int + 1).drop_last() =~= pv.take(i as int));
            assert(pv.take(i as int + 1).last() == pv[i as int]);
            assert(pv[i as int] == (pairs@[i as int].0@, pairs@[i as int].1@));
        }
        match find_key(&r, pairs[i].0.as_str()) {
            Some(j) => {
                let slot = &mut r[j];
                slot.1 = pairs[i].1.clone();
                proof {
                    assert(r.deep_view() =~= before.update(
                        j as int,
                        (before[j as int].0, pairs@[i as int].1@),
                    ));
                    lemma_map_of_pairs_update(before, j as int, pairs@[i as int].1@);
                    assert(before[j as int].0 == pv[i as int].0);
                    assert(unique_keys(r.deep_view()));
                }
            },
            None => {
                r.push((pairs[i].0.clone(), pairs[i].1.clone()));
                proof {
                    assert(r.deep_view() =~= before.push(pv[i as int]));
                    assert(r.deep_view().drop_last() =~= before);
                    assert(unique_keys(r.deep_view()));
                }
            },
        }
        i = i + 1;
    }
    proof {
        assert(pv.take(i as int) =~= pv);
    }
    r
}

/// The received headers' byte size, clamped at the machine limit.
pub fn headers_size_of(pairs: &Vec<(String, String)>) -> (r: usize)
    ensures
        r == clamped(spec_headers_size(pairs.deep_view())),
{
    let ghost pv = pairs.deep_view();
    let mut acc: usize = 0;
    let mut i: usize = 0;
    while i < pairs.len()
        invariant
            pv == pairs.deep_view(),
            pv.len() == pairs@.len(),
            i <= pairs@.len(),
            acc == clamped(spec_headers_size(pv.take(i as int))),
        decreases pairs@.len() - i,
    {
        proof {
            assert(pv.take(i as int + 1).drop_last() =~= pv.take(i as int));
            assert(pv.take(i as int + 1).last() == pv[i as int]);
            assert(pv[i as int] == (pairs@[i as int].0@, pairs@[i as int].1@));
        }
        let klen = pairs[i].0.as_str().as_bytes().len();
        let vlen = pairs[i].1.as_str().as_bytes().len();
        acc = acc.saturating_add(klen).saturating_add(vlen).saturating_add(4);
        i = i + 1;
    }
    proof {
        assert(pv.take(i as int) =~= pv);
    }
    acc
}

/// The reason text: the transport's canonical phrase, or `Unknown`.
pub open spec fn spec_reason(t: Option<Seq<char>>) -> Seq<char> {
    match t {
        Some(s) => s,
        None => "Unknown"@,
    }
}

/// Shape a transport-level success: keep status and reason, fold the
/// received headers (later duplicates overwrite earlier), carry the decoded
/// body, record the elapsed time and the computed sizes.
pub fn shape_success(
    status: u16,
    reason: Option<String>,
    headers: &Vec<(String, String)>,
    body: String,
    time: u128,
) -> (r: HttpResponse)
    ensures
        r.deep_view().status == status,
        r.deep_view().status_text == spec_reason(
            match reason {
                Some(s) => Some(s@),
                None => None,
            },
        ),
        r.deep_view().headers == map_of_pairs(headers.deep_view()),
        unique_keys(r.headers.deep_view()),
        r.deep_view().body == body@,
        r.deep_view().time == time,
        r.deep_view().body_size == clamped(encode_utf8(body@).len() as nat),
        r.deep_view().headers_size == clamped(spec_headers_size(headers.deep_view())),
{
    let status_text = match reason {
        Some(s) => s,
        None => String::from_str("Unknown"),
    };
    let body_size = body.as_str().as_bytes().len();
    let headers_size = headers_size_of(headers);
    let deduped = dedup_headers(headers);
    proof {
        assert(encode_utf8(body@).len() <= usize::MAX as nat);
    }
    HttpResponse { status, status_text, headers: deduped, body, time, body_size, headers_size }
}

/// The failure description the executor reports for a transport error.
pub open spec fn spec_failure_desc(cause: Seq<char>) -> Seq<char> {
    "Request failed: "@ + cause
}

/// The description of a transport failure, naming the underlying cause.
pub fn failure_message(cause: &str) -> (r: String)
    ensures
        r@ == spec_failure_desc(cause@),
{
    let mut r = String::from_str("Request failed: ");
    r.append(cause);
    r
}

/// The synthetic response a transport failure is shown as.
pub open spec fn spec_error_response(desc: Seq<char>) -> ResponseModel {
    ResponseModel {
        status: 0,
        status_text: "Error"@,
        headers: Map::empty(),
        body: desc,
        time: 0,
        body_size: clamped(encode_utf8(desc).len() as nat),
        headers_size: 0,
    }
}

/// Shape a transport failure: status `0`, reason `Error`, no headers, the
/// failure description as the body.
pub fn shape_error(desc: String) -> (r: HttpResponse)
    ensures
        r.deep_view() == spec_error_response(desc@),
{
    let body_size = desc.as_str().as_bytes().len();
    let r = HttpResponse {
        status: 0,
        status_text: String::from_str("Error"),
        headers: Vec::new(),
        body: desc,
        time: 0,
        body_size,
        headers_size: 0,
    };
    proof {
        assert(r.headers.deep_view() =~= Seq::<(Seq<char>, Seq<char>)>::empty());
        assert(encode_utf8(r.body@).len() <= usize::MAX as nat);
        assert(r.deep_view() =~= spec_error_response(r.body@));
    }
    r
}

/// A transport failure always shows as a response with status `0`, a
/// non-empty body describing the cause, and an empty header map.
pub proof fn lemma_error_response_shape(cause: Seq<char>)
    ensures
        spec_error_response(spec_failure_desc(cause)).status == 0,
        spec_error_response(spec_failure_desc(cause)).headers == Map::<Seq<char>, Seq<char>>::empty(),
        spec_error_response(spec_failure_desc(cause)).body.len() > 0,
{
    reveal_strlit("Request failed: ");
    assert(spec_failure_desc(cause).len() == 16 + cause.len());
}

} // verus!
