//! The dispatch cascade. Deciding what answers a request is one pure
//! reading of the state: exact dynamic match, then template match, then
//! the matched endpoint's own upstream, then the default upstream, then an
//! example from the loaded document, then 404. Completing a dispatch
//! builds the reply and appends exactly one trace entry. When the decision
//! asks for forwarding, the caller performs the outbound call between the
//! two steps and hands its outcome in.

use vstd::prelude::*;
use vstd::string::{StrSliceExecFns, StringExecFns};
use crate::json::{parsed_json, parse_json_bytes};
use crate::model::{
    clone_headers, coerce_status, parse_method, spec_coerce_status, spec_parse_method, str_eq,
    DynamicEndpoint, EndpointModel, HttpReply, Method, ReplyBody, RequestLog,
};
use crate::openapi::{
    doc_dispatch_lookup, spec_dispatch_example, spec_doc_operation, ApiOperationModel,
};
use crate::store::{spec_lookup_template, store_map, AppState};
use crate::text::{upper_seq, upper_string};
use crate::forward::UpstreamResponse;

verus! {

/// One request as the dispatcher sees it: the method as received, the
/// concrete path, the inbound headers, the raw query string, and the raw
/// body bytes.
pub struct RequestData {
    pub method: String,
    pub path: String,
    pub headers: Vec<(String, String)>,
    pub query: String,
    pub body: Vec<u8>,
}

/// What the cascade decided for a request.
pub enum DispatchDecision {
    /// An endpoint is registered under exactly (method, path) and answers
    /// from its canned data.
    ExactDynamic { path: String, endpoint: DynamicEndpoint },
    /// An endpoint's stored path matches the concrete path as a template
    /// and answers from its canned data.
    TemplateDynamic { template: String, endpoint: DynamicEndpoint },
    /// A matched endpoint carries its own upstream URL: forward there.
    /// `fallback_tag` is the match tag recorded when forwarding fails.
    PerEndpointProxy { proxy_url: String, fallback_tag: String },
    /// Nothing matched and a default upstream is set: forward there.
    DefaultProxy { proxy_url: String },
    /// Nothing matched, no default upstream, but the loaded document
    /// defines an operation for the request: serve its example, if any.
    SpecExample { example: Option<serde_json::Value> },
    /// The cascade is exhausted.
    NotFound,
}

/// The mathematical shape of a decision.
pub ghost enum DecisionModel {
    ExactDynamic { path: Seq<char>, endpoint: EndpointModel },
    TemplateDynamic { template: Seq<char>, endpoint: EndpointModel },
    PerEndpointProxy { proxy_url: Seq<char>, fallback_tag: Seq<char> },
    DefaultProxy { proxy_url: Seq<char> },
    SpecExample { example: Option<serde_json::Value> },
    NotFound,
}

impl View for DispatchDecision {
    type V = DecisionModel;

    open spec fn view(&self) -> DecisionModel {
        match self {
            DispatchDecision::ExactDynamic { path, endpoint } => DecisionModel::ExactDynamic {
                path: path@,
                endpoint: endpoint@,
            },
            DispatchDecision::TemplateDynamic { template, endpoint } =>
                DecisionModel::TemplateDynamic { template: template@, endpoint: endpoint@ },
            DispatchDecision::PerEndpointProxy { proxy_url, fallback_tag } =>
                DecisionModel::PerEndpointProxy {
                proxy_url: proxy_url@,
                fallback_tag: fallback_tag@,
            },
            DispatchDecision::DefaultProxy { proxy_url } => DecisionModel::DefaultProxy {
                proxy_url: proxy_url@,
            },
            DispatchDecision::SpecExample { example } => DecisionModel::SpecExample {
                example: *example,
            },
            DispatchDecision::NotFound => DecisionModel::NotFound,
        }
    }
}

/// Whether a decision asks the caller for one outbound call.
pub open spec fn decision_forwards(d: DecisionModel) -> bool {
    d is PerEndpointProxy || d is DefaultProxy
}

/// The whole cascade, as a value: what dispatch decides on a state for a
/// request method (as received) and path.
pub open spec fn spec_decide(st: AppState, method: Seq<char>, path: Seq<char>) -> DecisionModel {
    let pm = spec_parse_method(method);
    let exact: Option<EndpointModel> = match pm {
        Some(m) => if store_map(st.dynamic@).contains_key((m, path)) {
            Some(store_map(st.dynamic@)[(m, path)])
        } else {
            None
        },
        None => None,
    };
    match exact {
        Some(ep) => match ep.proxy_url {
            Some(u) => DecisionModel::PerEndpointProxy { proxy_url: u, fallback_tag: path },
            None => DecisionModel::ExactDynamic { path, endpoint: ep },
        },
        None => {
            let tm: Option<(Seq<char>, EndpointModel)> = match pm {
                Some(m) => spec_lookup_template(st.dynamic@, m, path),
                None => None,
            };
            match tm {
                Some(te) => match te.1.proxy_url {
                    Some(u) => DecisionModel::PerEndpointProxy {
                        proxy_url: u,
                        fallback_tag: te.0 + " (template)"@,
                    },
                    None => DecisionModel::TemplateDynamic { template: te.0, endpoint: te.1 },
                },
                None => match st.default_proxy_url {
                    Some(u) => DecisionModel::DefaultProxy { proxy_url: u@ },
                    None => {
                        let op: Option<ApiOperationModel> = match (pm, st.spec) {
                            (Some(m), Some(d)) => spec_doc_operation(d@.paths, m, path),
                            _ => None,
                        };
                        match op {
                            Some(o) => DecisionModel::SpecExample {
                                example: spec_dispatch_example(o.responses),
                            },
                            None => DecisionModel::NotFound,
                        }
                    },
                },
            }
        },
    }
}

/// Decide what answers a request: the first applicable arm of the cascade.
pub fn dispatch(st: &AppState, method: &str, path: &str) -> (d: DispatchDecision)
    requires
        st.wf(),
    ensures
        d@ == spec_decide(*st, method@, path@),
{
    let pm = parse_method(method);
    if let Some(m) = pm {
        if let Some(ep) = st.lookup_exact(m, path) {
            let DynamicEndpoint { response, status, headers, proxy_url } = ep;
            match proxy_url {
                Some(u) => {
                    return DispatchDecision::PerEndpointProxy {
                        proxy_url: u,
                        fallback_tag: path.to_owned(),
                    };
                },
                None => {
                    return DispatchDecision::ExactDynamic {
                        path: path.to_owned(),
                        endpoint: DynamicEndpoint { response, status, headers, proxy_url: None },
                    };
                },
            }
        }
        if let Some((tpl, ep)) = st.lookup_template(m, path) {
            let DynamicEndpoint { response, status, headers, proxy_url } = ep;
            match proxy_url {
                Some(u) => {
                    return DispatchDecision::PerEndpointProxy {
                        proxy_url: u,
                        fallback_tag: tpl.concat(" (template)"),
                    };
                },
                None => {
                    return DispatchDecision::TemplateDynamic {
                        template: tpl,
                        endpoint: DynamicEndpoint { response, status, headers, proxy_url: None },
                    };
                },
            }
        }
    }
    if let Some(u) = &st.default_proxy_url {
        return DispatchDecision::DefaultProxy { proxy_url: u.clone() };
    }
    if let Some(m) = pm {
        if let Some(doc) = &st.spec {
            if let Some(ex) = doc_dispatch_lookup(doc, m, path) {
                return DispatchDecision::SpecExample { example: ex };
            }
        }
    }
    DispatchDecision::NotFound
}

/// One header list is the other with `name: value` written in: the first
/// pair of that exact name is replaced, or the pair is appended when the
/// name is absent.
pub open spec fn spec_upsert_header(
    s: Seq<(Seq<char>, Seq<char>)>,
    n: Seq<char>,
    v: Seq<char>,
) -> Seq<(Seq<char>, Seq<char>)>
    decreases s.len(),
{
    if s.len() == 0 {
        seq![(n, v)]
    } else if s[0].0 == n {
        seq![(n, v)] + s.skip(1)
    } else {
        seq![s[0]] + spec_upsert_header(s.skip(1), n, v)
    }
}

/// The headers of a canned reply: the endpoint's own headers, if any, with
/// `content-type: application/json` written in.
pub open spec fn spec_mock_headers(h: Option<Seq<(Seq<char>, Seq<char>)>>) -> Seq<
    (Seq<char>, Seq<char>),
> {
    spec_upsert_header(
        match h {
            Some(s) => s,
            None => Seq::empty(),
        },
        "content-type"@,
        "application/json"@,
    )
}

proof fn lemma_upsert_found(s: Seq<(Seq<char>, Seq<char>)>, i: int, n: Seq<char>, v: Seq<char>)
    requires
        0 <= i < s.len(),
        forall|j: int| 0 <= j < i ==> (#[trigger] s[j]).0 != n,
        s[i].0 == n,
    ensures
        spec_upsert_header(s, n, v) == s.update(i, (n, v)),
    decreases i,
{
    if i == 0 {
        assert(spec_upsert_header(s, n, v) =~= s.update(0, (n, v)));
    } else {
        assert(s.skip(1)[i - 1].0 == n);
        assert forall|j: int| 0 <= j < i - 1 implies (#[trigger] s.skip(1)[j]).0 != n by {
            assert(s.skip(1)[j] == s[j + 1]);
        }
        lemma_upsert_found(s.skip(1), i - 1, n, v);
        assert(spec_upsert_header(s, n, v) =~= s.update(i, (n, v)));
    }
}

proof fn lemma_upsert_missing(s: Seq<(Seq<char>, Seq<char>)>, n: Seq<char>, v: Seq<char>)
    requires
        forall|j: int| 0 <= j < s.len() ==> (#[trigger] s[j]).0 != n,
    ensures
        spec_upsert_header(s, n, v) == s.push((n, v)),
    decreases s.len(),
{
    if s.len() == 0 {
        assert(spec_upsert_header(s, n, v) =~= s.push((n, v)));
    } else {
        assert forall|j: int| 0 <= j < s.skip(1).len() implies (#[trigger] s.skip(1)[j]).0
            != n by {
            assert(s.skip(1)[j] == s[j + 1]);
        }
        lemma_upsert_missing(s.skip(1), n, v);
        assert(spec_upsert_header(s, n, v) =~= s.push((n, v)));
    }
}

/// Write `name: value` into a header list: replace the first pair of that
/// exact name, or append.
pub fn upsert_header(h: &mut Vec<(String, String)>, name: String, value: String)
    ensures
        final(h).deep_view() == spec_upsert_header(old(h).deep_view(), name@, value@),
{
    let n = h.len();
    let mut i: usize = 0;
    while i < n
        invariant
            h == old(h),
            n == h@.len(),
            i <= n,
            forall|j: int| 0 <= j < i ==> (#[trigger] h.deep_view()[j]).0 != name@,
        decreases n - i,
    {
        let hit = str_eq(h[i].0.as_str(), name.as_str());
        proof {
            assert(h.deep_view()[i as int] == (h@[i as int].0@, h@[i as int].1@));
        }
        if hit {
            proof {
                lemma_upsert_found(h.deep_view(), i as int, name@, value@);
            }
            let ghost olddeep = h.deep_view();
            h[i] = (name, value);
            proof {
                assert(h.deep_view() =~~= olddeep.update(i as int, (name@, value@)));
            }
            return;
        }
        i = i + 1;
    }
    proof {
        lemma_upsert_missing(h.deep_view(), name@, value@);
    }
    let ghost olddeep = h.deep_view();
    h.push((name, value));
    proof {
        assert(h.deep_view() =~~= olddeep.push((name@, value@)));
    }
}

/// The headers of a canned reply.
fn mock_response_headers(h: &Option<Vec<(String, String)>>) -> (r: Vec<(String, String)>)
    ensures
        r.deep_view() == spec_mock_headers(
            match h {
                Some(v) => Some(v.deep_view()),
                None => None,
            },
        ),
{
    let mut out: Vec<(String, String)> = match h {
        Some(v) => clone_headers(v),
        None => Vec::new(),
    };
    proof {
        assert(out.deep_view() =~~= match h {
            Some(v) => v.deep_view(),
            None => Seq::<(Seq<char>, Seq<char>)>::empty(),
        });
    }
    upsert_header(&mut out, String::from_str("content-type"), String::from_str(
        "application/json",
    ));
    out
}

/// The fields of a trace entry that echo the request itself.
pub open spec fn log_matches_request(
    entry: RequestLog,
    req: RequestData,
    ts: Seq<char>,
) -> bool {
    &&& entry.method@ == upper_seq(req.method@)
    &&& entry.path@ == req.path@
    &&& entry.request_headers@ == req.headers@
    &&& entry.query@ == req.query@
    &&& entry.request_body == parsed_json(req.body@)
    &&& entry.timestamp@ == ts
}

/// Complete one dispatch: build the reply the decision calls for and
/// append exactly one trace entry for the request. `outcome` is the result
/// of the outbound call, present exactly when the decision forwards; an
/// upstream failure becomes a 502 reply with a structured error body.
/// Stored statuses outside 100..=599 are coerced to 500; a canned reply
/// whose status is 204 carries no body, though the trace keeps the stored
/// response.
pub fn complete_dispatch(
    st: &mut AppState,
    req: RequestData,
    decision: DispatchDecision,
    outcome: Option<Result<UpstreamResponse, String>>,
    timestamp: String,
) -> (reply: HttpReply)
    requires
        old(st).wf(),
        decision_forwards(decision@) <==> outcome is Some,
    ensures
        final(st).wf(),
        final(st).dynamic == old(st).dynamic,
        final(st).removed_spec == old(st).removed_spec,
        final(st).spec == old(st).spec,
        final(st).default_proxy_url == old(st).default_proxy_url,
        final(st).logs@ == old(st).logs@.push(final(st).logs@.last()),
        log_matches_request(final(st).logs@.last(), req, timestamp@),
        final(st).logs@.last().status == reply.status,
        ({
            let entry = final(st).logs@.last();
            match decision {
                DispatchDecision::ExactDynamic { path: p, endpoint: ep } => {
                    &&& reply.status == spec_coerce_status(ep.status)
                    &&& reply.headers.deep_view() == spec_mock_headers(ep@.headers)
                    &&& reply.body == (if spec_coerce_status(ep.status) == 204 {
                        ReplyBody::Empty
                    } else {
                        ReplyBody::Json(ep.response)
                    })
                    &&& entry.response_body == ReplyBody::Json(ep.response)
                    &&& entry.response_headers.deep_view() == spec_mock_headers(ep@.headers)
                    &&& entry.matched_endpoint matches Some(t) && t@ == p@
                    &&& entry.proxied_to is None
                },
                DispatchDecision::TemplateDynamic { template: tpl, endpoint: ep } => {
                    &&& reply.status == spec_coerce_status(ep.status)
                    &&& reply.headers.deep_view() == spec_mock_headers(ep@.headers)
                    &&& reply.body == (if spec_coerce_status(ep.status) == 204 {
                        ReplyBody::Empty
                    } else {
                        ReplyBody::Json(ep.response)
                    })
                    &&& entry.response_body == ReplyBody::Json(ep.response)
                    &&& entry.response_headers.deep_view() == spec_mock_headers(ep@.headers)
                    &&& entry.matched_endpoint matches Some(t) && t@ == tpl@ + " (template)"@
                    &&& entry.proxied_to is None
                },
                DispatchDecision::PerEndpointProxy { proxy_url: u, fallback_tag: tag } => match
                    outcome {
                    Some(Ok(ur)) => {
                        &&& reply.status == spec_coerce_status(ur.status)
                        &&& reply.headers@ == ur.headers@
                        &&& reply.body == (match ur.body {
                            Some(v) => ReplyBody::Json(v),
                            None => ReplyBody::Empty,
                        })
                        &&& entry.response_body == reply.body
                        &&& entry.response_headers@ == ur.headers@
                        &&& entry.matched_endpoint matches Some(t) && t@ == "proxy to "@ + u@
                        &&& entry.proxied_to matches Some(t) && t@ == u@ + req.path@
                    },
                    Some(Err(msg)) => {
                        &&& reply.status == 502
                        &&& reply.headers@.len() == 0
                        &&& reply.body matches ReplyBody::ErrorMessage { error, details }
                            && error@ == "Proxy request failed"@ && details@ == msg@
                        &&& entry.response_body matches ReplyBody::ErrorMessage {
                            error,
                            details,
                        } && error@ == "Proxy request failed"@ && details@ == msg@
                        &&& entry.response_headers@.len() == 0
                        &&& entry.matched_endpoint matches Some(t) && t@ == tag@
                        &&& entry.proxied_to is None
                    },
                    None => false,
                },
                DispatchDecision::DefaultProxy { proxy_url: u } => match outcome {
                    Some(Ok(ur)) => {
                        &&& reply.status == spec_coerce_status(ur.status)
                        &&& reply.headers@ == ur.headers@
                        &&& reply.body == (match ur.body {
                            Some(v) => ReplyBody::Json(v),
                            None => ReplyBody::Empty,
                        })
                        &&& entry.response_body == reply.body
                        &&& entry.response_headers@ == ur.headers@
                        &&& entry.matched_endpoint matches Some(t) && t@ == "default proxy to "@
                            + u@
                        &&& entry.proxied_to matches Some(t) && t@ == u@ + req.path@
                    },
                    Some(Err(msg)) => {
                        &&& reply.status == 502
                        &&& reply.headers@.len() == 0
                        &&& reply.body matches ReplyBody::ErrorMessage { error, details }
                            && error@ == "Default proxy request failed"@ && details@ == msg@
                        &&& entry.response_body matches ReplyBody::ErrorMessage {
                            error,
                            details,
                        } && error@ == "Default proxy request failed"@ && details@ == msg@
                        &&& entry.response_headers@.len() == 0
                        &&& entry.matched_endpoint is None
                        &&& entry.proxied_to is None
                    },
                    None => false,
                },
                DispatchDecision::SpecExample { example } => match example {
                    Some(v) => {
                        &&& reply.status == 200
                        &&& reply.headers.deep_view() == seq![
                            ("content-type"@, "application/json"@),
                        ]
                        &&& reply.body == ReplyBody::Json(v)
                        &&& entry.response_body == ReplyBody::Json(v)
                        &&& entry.response_headers.deep_view() == seq![
                            ("content-type"@, "application/json"@),
                        ]
                        &&& entry.matched_endpoint matches Some(t) && t@ == "OpenAPI spec"@
                        &&& entry.proxied_to is None
                    },
                    None => {
                        &&& reply.status == 200
                        &&& reply.headers@.len() == 0
                        &&& reply.body == ReplyBody::Empty
                        &&& entry.response_body == ReplyBody::Empty
                        &&& entry.response_headers@.len() == 0
                        &&& entry.matched_endpoint is None
                        &&& entry.proxied_to is None
                    },
                },
                DispatchDecision::NotFound => {
                    &&& reply.status == 404
                    &&& reply.headers@.len() == 0
                    &&& reply.body == ReplyBody::Empty
                    &&& entry.response_body == ReplyBody::Empty
                    &&& entry.response_headers@.len() == 0
                    &&& entry.matched_endpoint is None
                    &&& entry.proxied_to is None
                },
            }
        }),
{
    let method_upper = upper_string(req.method.as_str());
    let request_body = parse_json_bytes(&req.body);
    let (status, reply_headers, reply_body, entry_body, entry_headers, matched, proxied):
        (
        u16,
        Vec<(String, String)>,
        ReplyBody,
        ReplyBody,
        Vec<(String, String)>,
        Option<String>,
        Option<String>,
    ) = match decision {
        DispatchDecision::ExactDynamic { path: p, endpoint: ep } => {
            let s = coerce_status(ep.status);
            let hs = mock_response_headers(&ep.headers);
            let hs2 = clone_headers(&hs);
            let body = if s == 204 {
                ReplyBody::Empty
            } else {
                ReplyBody::Json(ep.response.clone())
            };
            (s, hs, body, ReplyBody::Json(ep.response), hs2, Some(p), None)
        },
        DispatchDecision::TemplateDynamic { template: tpl, endpoint: ep } => {
            let s = coerce_status(ep.status);
            let hs = mock_response_headers(&ep.headers);
            let hs2 = clone_headers(&hs);
            let body = if s == 204 {
                ReplyBody::Empty
            } else {
                ReplyBody::Json(ep.response.clone())
            };
            let tag = tpl.concat(" (template)");
            (s, hs, body, ReplyBody::Json(ep.response), hs2, Some(tag), None)
        },
        DispatchDecision::PerEndpointProxy { proxy_url: u, fallback_tag: tag } => match outcome {
            Some(Ok(ur)) => {
                let s = coerce_status(ur.status);
                let hs2 = clone_headers(&ur.headers);
                let body = match &ur.body {
                    Some(v) => ReplyBody::Json(v.clone()),
                    None => ReplyBody::Empty,
                };
                let body2 = match ur.body {
                    Some(v) => ReplyBody::Json(v),
                    None => ReplyBody::Empty,
                };
                let t = String::from_str("proxy to ").concat(u.as_str());
                let pt = u.concat(req.path.as_str());
                (s, ur.headers, body2, body, hs2, Some(t), Some(pt))
            },
            Some(Err(msg)) => {
                let body = ReplyBody::ErrorMessage {
                    error: String::from_str("Proxy request failed"),
                    details: msg.clone(),
                };
                let body2 = ReplyBody::ErrorMessage {
                    error: String::from_str("Proxy request failed"),
                    details: msg,
                };
                (502, Vec::new(), body, body2, Vec::new(), Some(tag), None)
            },
            None => {
                proof {
                    assert(false);
                }
                (500, Vec::new(), ReplyBody::Empty, ReplyBody::Empty, Vec::new(), None, None)
            },
        },
        DispatchDecision::DefaultProxy { proxy_url: u } => match outcome {
            Some(Ok(ur)) => {
                let s = coerce_status(ur.status);
                let hs2 = clone_headers(&ur.headers);
                let body = match &ur.body {
                    Some(v) => ReplyBody::Json(v.clone()),
                    None => ReplyBody::Empty,
                };
                let body2 = match ur.body {
                    Some(v) => ReplyBody::Json(v),
                    None => ReplyBody::Empty,
                };
                let t = String::from_str("default proxy to ").concat(u.as_str());
                let pt = u.concat(req.path.as_str());
                (s, ur.headers, body2, body, hs2, Some(t), Some(pt))
            },
            Some(Err(msg)) => {
                let body = ReplyBody::ErrorMessage {
                    error: String::from_str("Default proxy request failed"),
                    details: msg.clone(),
                };
                let body2 = ReplyBody::ErrorMessage {
                    error: String::from_str("Default proxy request failed"),
                    details: msg,
                };
                (502, Vec::new(), body, body2, Vec::new(), None, None)
            },
            None => {
                proof {
                    assert(false);
                }
                (500, Vec::new(), ReplyBody::Empty, ReplyBody::Empty, Vec::new(), None, None)
            },
        },
        DispatchDecision::SpecExample { example } => match example {
            Some(v) => {
                let mut hs: Vec<(String, String)> = Vec::new();
                hs.push((String::from_str("content-type"), String::from_str(
                    "application/json",
                )));
                let hs2 = clone_headers(&hs);
                proof {
                    assert(hs.deep_view() =~~= seq![("content-type"@, "application/json"@)]);
                }
                (
                    200,
                    hs,
                    ReplyBody::Json(v.clone()),
                    ReplyBody::Json(v),
                    hs2,
                    Some(String::from_str("OpenAPI spec")),
                    None,
                )
            },
            None => (200, Vec::new(), ReplyBody::Empty, ReplyBody::Empty, Vec::new(), None, None),
        },
        DispatchDecision::NotFound => (
            404,
            Vec::new(),
            ReplyBody::Empty,
            ReplyBody::Empty,
            Vec::new(),
            None,
            None,
        ),
    };
    let entry = RequestLog {
        method: method_upper,
        path: req.path,
        request_headers: req.headers,
        query: req.query,
        request_body,
        status,
        response_body: entry_body,
        response_headers: entry_headers,
        timestamp,
        matched_endpoint: matched,
        proxied_to: proxied,
    };
    st.logs.push(entry);
    HttpReply { status, headers: reply_headers, body: reply_body }
}

} // verus!
