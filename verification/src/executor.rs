//! Request construction: an immutable request snapshot plus the active
//! environment become a wire-ready plan — resolved URL with the query string
//! appended, the wire method, the headers to attach, and the body to send.
//! The caller performs the network call and the multipart file reads; the
//! decisions (what is kept, dropped, resolved or omitted) are all here.

use vstd::prelude::*;
use crate::model::{BodyType, Environment, EnvironmentModel, FormDataEntry, FormEntryModel,
    HttpRequest, RequestModel};
use crate::resolve::{resolve_value, resolve_with};
use crate::text::{is_blank, spec_is_blank};
use crate::url::{append_query_params, with_query};

verus! {

broadcast use vstd::std_specs::vec::group_vec_axioms;

/// The seven wire methods.
#[derive(Debug, Clone, Copy, PartialEq, Eq, Structural)]
pub enum Method {
    Get,
    Post,
    Put,
    Delete,
    Patch,
    Head,
    Options,
}

/// The wire method a method tag selects; anything unrecognized (or empty)
/// defaults to GET.
pub open spec fn spec_method_of(s: Seq<char>) -> Method {
    if s == "GET"@ {
        Method::Get
    } else if s == "POST"@ {
        Method::Post
    } else if s == "PUT"@ {
        Method::Put
    } else if s == "DELETE"@ {
        Method::Delete
    } else if s == "PATCH"@ {
        Method::Patch
    } else if s == "HEAD"@ {
        Method::Head
    } else if s == "OPTIONS"@ {
        Method::Options
    } else {
        Method::Get
    }
}

/// Select the wire method from a request's method tag.
pub fn method_of(s: &str) -> (m: Method)
    ensures
        m == spec_method_of(s@),
{
    if crate::text::str_eq(s, "GET") {
        Method::Get
    } else if crate::text::str_eq(s, "POST") {
        Method::Post
    } else if crate::text::str_eq(s, "PUT") {
        Method::Put
    } else if crate::text::str_eq(s, "DELETE") {
        Method::Delete
    } else if crate::text::str_eq(s, "PATCH") {
        Method::Patch
    } else if crate::text::str_eq(s, "HEAD") {
        Method::Head
    } else if crate::text::str_eq(s, "OPTIONS") {
        Method::Options
    } else {
        Method::Get
    }
}

impl Method {
    /// The method's wire name.
    pub fn wire_name(&self) -> (r: &'static str)
        ensures
            r@ == match self {
                Method::Get => "GET"@,
                Method::Post => "POST"@,
                Method::Put => "PUT"@,
                Method::Delete => "DELETE"@,
                Method::Patch => "PATCH"@,
                Method::Head => "HEAD"@,
                Method::Options => "OPTIONS"@,
            },
    {
        match self {
            Method::Get => "GET",
            Method::Post => "POST",
            Method::Put => "PUT",
            Method::Delete => "DELETE",
            Method::Patch => "PATCH",
            Method::Head => "HEAD",
            Method::Options => "OPTIONS",
        }
    }
}

/// The variables of the active environment; none means no substitutions.
pub open spec fn vars_of(env: Option<EnvironmentModel>) -> Seq<(Seq<char>, Seq<char>)> {
    match env {
        Some(e) => e.variables,
        None => Seq::empty(),
    }
}

/// Pairs with both components resolved.
pub open spec fn resolved_pairs(
    ps: Seq<(Seq<char>, Seq<char>)>,
    vars: Seq<(Seq<char>, Seq<char>)>,
) -> Seq<(Seq<char>, Seq<char>)> {
    ps.map(|i: int, p: (Seq<char>, Seq<char>)| (resolve_with(p.0, vars), resolve_with(p.1, vars)))
}

/// Pairs with only the value resolved: header names are never substituted.
pub open spec fn resolved_values(
    ps: Seq<(Seq<char>, Seq<char>)>,
    vars: Seq<(Seq<char>, Seq<char>)>,
) -> Seq<(Seq<char>, Seq<char>)> {
    ps.map(|i: int, p: (Seq<char>, Seq<char>)| (p.0, resolve_with(p.1, vars)))
}

/// The pairs whose key is not blank.
pub open spec fn nonblank_keys(ps: Seq<(Seq<char>, Seq<char>)>) -> Seq<(Seq<char>, Seq<char>)> {
    ps.filter(|p: (Seq<char>, Seq<char>)| !spec_is_blank(p.0))
}

/// The headers that are sent: name and value both non-blank.
pub open spec fn kept_headers(ps: Seq<(Seq<char>, Seq<char>)>) -> Seq<(Seq<char>, Seq<char>)> {
    ps.filter(|p: (Seq<char>, Seq<char>)| !spec_is_blank(p.0) && !spec_is_blank(p.1))
}

/// One part of a multipart body, file bytes already in hand.
pub enum PartPlan {
    Text { key: String, value: String },
    File { key: String, data: Vec<u8>, file_name: String },
}

/// Model of a multipart part.
pub enum PartModel {
    Text { key: Seq<char>, value: Seq<char> },
    File { key: Seq<char>, data: Seq<u8>, file_name: Seq<char> },
}

impl DeepView for PartPlan {
    type V = PartModel;

    open spec fn deep_view(&self) -> PartModel {
        match self {
            PartPlan::Text { key, value } => PartModel::Text { key: key@, value: value@ },
            PartPlan::File { key, data, file_name } => PartModel::File {
                key: key@,
                data: data@,
                file_name: file_name@,
            },
        }
    }
}

/// The parts a multipart body holds, given each entry's file-read outcome:
/// a text entry with a non-blank key contributes a text part; a file entry
/// with a non-blank key and path whose read succeeded contributes a file
/// part named by its stored display filename; every other entry — blank
/// key, blank path, or unreadable file — is silently omitted.
pub open spec fn multipart_parts(
    entries: Seq<FormEntryModel>,
    reads: Seq<Option<Seq<u8>>>,
) -> Seq<PartModel>
    recommends
        entries.len() == reads.len(),
    decreases entries.len(),
{
    if entries.len() == 0 {
        Seq::empty()
    } else {
        let rest = multipart_parts(entries.drop_last(), reads.drop_last());
        match entries.last() {
            FormEntryModel::Text { key, value } => if !spec_is_blank(key) {
                rest.push(PartModel::Text { key, value })
            } else {
                rest
            },
            FormEntryModel::File { key, file_path, file_name } => match reads.last() {
                Some(data) => if !spec_is_blank(key) && !spec_is_blank(file_path) {
                    rest.push(PartModel::File { key, data, file_name })
                } else {
                    rest
                },
                None => rest,
            },
        }
    }
}

/// Assemble the multipart parts from the form entries and the per-entry
/// file-read outcomes (`None` where no read was attempted or it failed).
pub fn build_multipart_parts(entries: &Vec<FormDataEntry>, reads: Vec<Option<Vec<u8>>>) -> (r: Vec<
    PartPlan,
>)
    requires
        entries@.len() == reads@.len(),
    ensures
        r.deep_view() == multipart_parts(entries.deep_view(), reads.deep_view()),
{
    let ghost ev = entries.deep_view();
    let ghost rv = reads.deep_view();
    let mut reads = reads;
    let mut parts: Vec<PartPlan> = Vec::new();
    let mut i: usize = 0;
    while i < entries.len()
        invariant
            ev == entries.deep_view(),
            ev.len() == entries@.len(),
            rv.len() == entries@.len(),
            reads@.len() == entries@.len(),
            i <= entries@.len(),
            forall|j: int| i <= j < reads@.len() ==> reads@[j].deep_view() == rv[j],
            parts.deep_view() == multipart_parts(ev.take(i as int), rv.take(i as int)),
        decreases entries@.len() - i,
    {
        let ghost before = parts.deep_view();
        proof {
            assert(ev.take(i as int + 1).drop_last() =~= ev.take(i as int));
            assert(rv.take(i as int + 1).drop_last() =~= rv.take(i as int));
            assert(ev.take(i as int + 1).last() == ev[i as int]);
            assert(rv.take(i as int + 1).last() == rv[i as int]);
            assert(ev[i as int] == entries@[i as int].deep_view());
            assert(reads@[i as int].deep_view() == rv[i as int]);
        }
        match &entries[i] {
            FormDataEntry::Text { key, value } => {
                if !is_blank(key.as_str()) {
                    parts.push(PartPlan::Text { key: key.clone(), value: value.clone() });
                    proof {
                        assert(parts.deep_view() =~= before.push(
                            PartModel::Text { key: key@, value: value@ },
                        ));
                    }
                }
            },
            FormDataEntry::File { key, file_path, file_name } => {
                if !is_blank(key.as_str()) && !is_blank(file_path.as_str()) {
                    let slot = &mut reads[i];
                    let taken = slot.take();
                    match taken {
                        Some(data) => {
                            parts.push(
                                PartPlan::File {
                                    key: key.clone(),
                                    data,
                                    file_name: file_name.clone(),
                                },
                            );
                            proof {
                                assert(rv[i as int] == Some(data@));
                                assert(parts.deep_view() =~= before.push(
                                    PartModel::File { key: key@, data: data@, file_name: file_name@ },
                                ));
                            }
                        },
                        None => {},
                    }
                }
            },
        }
        i = i + 1;
        proof {
            assert(parts.deep_view() =~= multipart_parts(ev.take(i as int), rv.take(i as int)));
        }
    }
    proof {
        assert(ev.take(i as int) =~= ev);
        assert(rv.take(i as int) =~= rv);
    }
    parts
}

/// The body that goes on the wire.
pub enum BodyPlan {
    /// No entity body.
    Empty,
    /// The resolved body text, sent verbatim.
    Raw { text: String },
    /// A multipart form; the file entries' bytes are read at send time.
    Multipart { entries: Vec<FormDataEntry> },
    /// Pairs form-encoded as the entity body.
    FormUrlEncoded { pairs: Vec<(String, String)> },
}

/// Model of a planned body.
pub enum BodyModel {
    Empty,
    Raw { text: Seq<char> },
    Multipart { entries: Seq<FormEntryModel> },
    FormUrlEncoded { pairs: Seq<(Seq<char>, Seq<char>)> },
}

impl DeepView for BodyPlan {
    type V = BodyModel;

    open spec fn deep_view(&self) -> BodyModel {
        match self {
            BodyPlan::Empty => BodyModel::Empty,
            BodyPlan::Raw { text } => BodyModel::Raw { text: text@ },
            BodyPlan::Multipart { entries } => BodyModel::Multipart {
                entries: entries.deep_view(),
            },
            BodyPlan::FormUrlEncoded { pairs } => BodyModel::FormUrlEncoded {
                pairs: pairs.deep_view(),
            },
        }
    }
}

/// A wire-ready request: what the transport is asked to send.
pub struct RequestPlan {
    pub url: String,
    pub method: Method,
    pub headers: Vec<(String, String)>,
    pub body: BodyPlan,
}

/// The final URL: the resolved URL template with the resolved non-blank
/// query parameters appended (filtered on the raw key, before resolution).
pub open spec fn planned_url(req: RequestModel, vars: Seq<(Seq<char>, Seq<char>)>) -> Seq<char> {
    with_query(resolve_with(req.url, vars), resolved_pairs(nonblank_keys(req.query_params), vars))
}

/// The headers that are attached, for every body kind: values resolved,
/// then blank names and blank values dropped.
pub open spec fn planned_headers(req: RequestModel, vars: Seq<(Seq<char>, Seq<char>)>) -> Seq<
    (Seq<char>, Seq<char>),
> {
    kept_headers(resolved_values(req.headers, vars))
}

/// The planned body: multipart for a non-empty form-data list, form-encoded
/// pairs (raw key non-blank) for a non-empty url-encoded list, nothing for
/// the bare body kind, and otherwise the resolved body text when non-blank.
pub open spec fn planned_body(req: RequestModel, vars: Seq<(Seq<char>, Seq<char>)>) -> BodyModel {
    if req.body_type == BodyType::FormData && req.form_data.len() > 0 {
        BodyModel::Multipart { entries: req.form_data }
    } else if req.body_type == BodyType::UrlEncoded && req.url_encoded_data.len() > 0 {
        BodyModel::FormUrlEncoded { pairs: nonblank_keys(req.url_encoded_data) }
    } else if req.body_type == BodyType::NoBody {
        BodyModel::Empty
    } else {
        let b = resolve_with(req.body, vars);
        if spec_is_blank(b) {
            BodyModel::Empty
        } else {
            BodyModel::Raw { text: b }
        }
    }
}

/// Resolve both components of each pair.
fn resolve_pairs(ps: &Vec<(String, String)>, env: Option<&Environment>) -> (r: Vec<
    (String, String),
>)
    ensures
        r.deep_view() == resolved_pairs(
            ps.deep_view(),
            vars_of(match env {
                Some(e) => Some(e.deep_view()),
                None => None,
            }),
        ),
{
    let ghost pv = ps.deep_view();
    let ghost vars = vars_of(
        match env {
            Some(e) => Some(e.deep_view()),
            None => None,
        },
    );
    let mut r: Vec<(String, String)> = Vec::new();
    let mut i: usize = 0;
    while i < ps.len()
        invariant
            pv == ps.deep_view(),
            pv.len() == ps@.len(),
            i <= ps@.len(),
            vars == vars_of(
                match env {
                    Some(e) => Some(e.deep_view()),
                    None => None,
                },
            ),
            r.deep_view() == resolved_pairs(pv.take(i as int), vars),
        decreases ps@.len() - i,
    {
        proof {
            assert(pv[i as int] == (ps@[i as int].0@, ps@[i as int].1@));
        }
        let ghost before = r.deep_view();
        let k = resolve_value(ps[i].0.as_str(), env);
        let v = resolve_value(ps[i].1.as_str(), env);
        let ghost kk = k@;
        let ghost vv = v@;
        r.push((k, v));
        i = i + 1;
        proof {
            assert(before.len() == i - 1);
            assert(r@.len() == i);
            assert(r@[i - 1].deep_view() == (kk, vv));
            assert(r.deep_view() =~= before.push((kk, vv)));
            assert(resolved_pairs(pv.take(i as int), vars) =~= before.push((kk, vv)));
        }
    }
    proof {
        assert(pv.take(i as int) =~= pv);
    }
    r
}

/// Resolve the value of each pair, leaving the name untouched.
fn resolve_pair_values(ps: &Vec<(String, String)>, env: Option<&Environment>) -> (r: Vec<
    (String, String),
>)
    ensures
        r.deep_view() == resolved_values(
            ps.deep_view(),
            vars_of(match env {
                Some(e) => Some(e.deep_view()),
                None => None,
            }),
        ),
{
    let ghost pv = ps.deep_view();
    let ghost vars = vars_of(
        match env {
            Some(e) => Some(e.deep_view()),
            None => None,
        },
    );
    let mut r: Vec<(String, String)> = Vec::new();
    let mut i: usize = 0;
    while i < ps.len()
        invariant
            pv == ps.deep_view(),
            pv.len() == ps@.len(),
            i <= ps@.len(),
            vars == vars_of(
                match env {
                    Some(e) => Some(e.deep_view()),
                    None => None,
                },
            ),
            r.deep_view() == resolved_values(pv.take(i as int), vars),
        decreases ps@.len() - i,
    {
        proof {
            assert(pv[i as int] == (ps@[i as int].0@, ps@[i as int].1@));
        }
        let ghost before = r.deep_view();
        let v = resolve_value(ps[i].1.as_str(), env);
        let ghost vv = v@;
        r.push((ps[i].0.clone(), v));
        i = i + 1;
        proof {
            assert(before.len() == i - 1);
            assert(r@.len() == i);
            assert(r@[i - 1].deep_view() == (pv[i - 1].0, vv));
            assert(r.deep_view() =~= before.push((pv[i - 1].0, vv)));
            assert(resolved_values(pv.take(i as int), vars) =~= before.push((pv[i - 1].0, vv)));
        }
    }
    proof {
        assert(pv.take(i as int) =~= pv);
    }
    r
}

/// Keep the pairs whose key is non-blank.
fn filter_nonblank_keys(ps: &Vec<(String, String)>) -> (r: Vec<(String, String)>)
    ensures
        r.deep_view() == nonblank_keys(ps.deep_view()),
{
    let ghost pv = ps.deep_view();
    let mut r: Vec<(String, String)> = Vec::new();
    let mut i: usize = 0;
    while i < ps.len()
        invariant
            pv == ps.deep_view(),
            pv.len() == ps@.len(),
            i <= ps@.len(),
            r.deep_view() == nonblank_keys(pv.take(i as int)),
        decreases ps@.len() - i,
    {
        let ghost before = r.deep_view();
        proof {
            reveal(Seq::filter);
            assert(pv.take(i as int + 1).drop_last() =~= pv.take(i as int));
            assert(pv.take(i as int + 1).last() == pv[i as int]);
            assert(pv[i as int] == (ps@[i as int].0@, ps@[i as int].1@));
        }
        if !is_blank(ps[i].0.as_str()) {
            r.push((ps[i].0.clone(), ps[i].1.clone()));
            proof {
                assert(r.deep_view() =~= before.push(pv[i as int]));
            }
        }
        i = i + 1;
    }
    proof {
        assert(pv.take(i as int) =~= pv);
    }
    r
}

/// Keep the pairs whose key and value are both non-blank.
fn filter_headers(ps: &Vec<(String, String)>) -> (r: Vec<(String, String)>)
    ensures
        r.deep_view() == kept_headers(ps.deep_view()),
{
    let ghost pv = ps.deep_view();
    let mut r: Vec<(String, String)> = Vec::new();
    let mut i: usize = 0;
    while i < ps.len()
        invariant
            pv == ps.deep_view(),
            pv.len() == ps@.len(),
            i <= ps@.len(),
            r.deep_view() == kept_headers(pv.take(i as int)),
        decreases ps@.len() - i,
    {
        let ghost before = r.deep_view();
        proof {
            reveal(Seq::filter);
            assert(pv.take(i as int + 1).drop_last() =~= pv.take(i as int));
            assert(pv.take(i as int + 1).last() == pv[i as int]);
            assert(pv[i as int] == (ps@[i as int].0@, ps@[i as int].1@));
        }
        if !is_blank(ps[i].0.as_str()) && !is_blank(ps[i].1.as_str()) {
            r.push((ps[i].0.clone(), ps[i].1.clone()));
            proof {
                assert(r.deep_view() =~= before.push(pv[i as int]));
            }
        }
        i = i + 1;
    }
    proof {
        assert(pv.take(i as int) =~= pv);
    }
    r
}

/// An owned copy of form entries, model-for-model.
pub(crate) fn copy_entries(v: &Vec<FormDataEntry>) -> (r: Vec<FormDataEntry>)
    ensures
        r.deep_view() == v.deep_view(),
{
    let ghost ev = v.deep_view();
    let mut r: Vec<FormDataEntry> = Vec::new();
    let mut i: usize = 0;
    while i < v.len()
        invariant
            ev == v.deep_view(),
            ev.len() == v@.len(),
            i <= v@.len(),
            r.deep_view() == ev.take(i as int),
        decreases v@.len() - i,
    {
        let ghost before = r.deep_view();
        proof {
            assert(ev[i as int] == v@[i as int].deep_view());
        }
        match &v[i] {
            FormDataEntry::Text { key, value } => {
                r.push(FormDataEntry::Text { key: key.clone(), value: value.clone() });
            },
            FormDataEntry::File { key, file_path, file_name } => {
                r.push(
                    FormDataEntry::File {
                        key: key.clone(),
                        file_path: file_path.clone(),
                        file_name: file_name.clone(),
                    },
                );
            },
        }
        i = i + 1;
        proof {
            assert(before.len() == i - 1);
            assert(r@.len() == i);
            assert(r@[i - 1].deep_view() == ev[i - 1]);
            assert(r.deep_view() =~= ev.take(i as int));
        }
    }
    proof {
        assert(ev.take(i as int) =~= ev);
    }
    r
}

/// Build the wire-ready plan for a request snapshot under the active
/// environment: URL with query appended, wire method, attached headers and
/// the body — every field pinned to the request model.
pub fn plan_request(req: &HttpRequest, env: Option<&Environment>) -> (plan: RequestPlan)
    ensures
        ({
            let rm = req.deep_view();
            let vars = vars_of(match env {
                Some(e) => Some(e.deep_view()),
                None => None,
            });
            &&& plan.url@ == planned_url(rm, vars)
            &&& plan.method == spec_method_of(rm.method)
            &&& plan.headers.deep_view() == planned_headers(rm, vars)
            &&& plan.body.deep_view() == planned_body(rm, vars)
        }),
{
    let ghost rm = req.deep_view();
    let ghost vars = vars_of(
        match env {
            Some(e) => Some(e.deep_view()),
            None => None,
        },
    );
    let resolved_url = resolve_value(req.url.as_str(), env);
    let query = filter_nonblank_keys(&req.query_params);
    let resolved_query = resolve_pairs(&query, env);
    let url = append_query_params(resolved_url.as_str(), &resolved_query);
    let method = method_of(req.method.as_str());
    let resolved_headers = resolve_pair_values(&req.headers, env);
    let headers = filter_headers(&resolved_headers);
    let body = match req.body_type {
        BodyType::FormData => {
            if req.form_data.len() > 0 {
                BodyPlan::Multipart { entries: copy_entries(&req.form_data) }
            } else {
                let text = resolve_value(req.body.as_str(), env);
                if !is_blank(text.as_str()) {
                    BodyPlan::Raw { text }
                } else {
                    BodyPlan::Empty
                }
            }
        },
        BodyType::UrlEncoded => {
            if req.url_encoded_data.len() > 0 {
                BodyPlan::FormUrlEncoded { pairs: filter_nonblank_keys(&req.url_encoded_data) }
            } else {
                let text = resolve_value(req.body.as_str(), env);
                if !is_blank(text.as_str()) {
                    BodyPlan::Raw { text }
                } else {
                    BodyPlan::Empty
                }
            }
        },
        BodyType::NoBody => BodyPlan::Empty,
        _ => {
            let text = resolve_value(req.body.as_str(), env);
            if !is_blank(text.as_str()) {
                BodyPlan::Raw { text }
            } else {
                BodyPlan::Empty
            }
        },
    };
    RequestPlan { url, method, headers, body }
}

} // verus!
