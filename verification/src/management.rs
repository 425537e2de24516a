//! The management surface: registering and removing endpoints, reading and
//! clearing the trace, and reading, setting and clearing the default proxy
//! URL. Each operation is one state change with an exact contract; the
//! HTTP framing of these calls lives outside the crate.

use vstd::prelude::*;
use crate::model::{
    spec_method_token, spec_parse_method, parse_method, DynamicEndpoint, EndpointModel,
    EndpointConfig, Method, ProxyConfig, RemoveConfig, RequestLog,
};
use crate::openapi::{spec_dispatch_example, spec_find_op, ApiPath, ApiPathModel};
use crate::store::AppState;
use crate::text::{trim_seq, trim_string, upper_seq, upper_string};

verus! {

/// Why a management request was refused.
#[derive(Debug)]
pub enum ManagementError {
    /// The request names a method outside GET, POST, PUT, PATCH, DELETE.
    UnknownMethod,
}

/// The endpoint a registration request describes, as stored: the method
/// read without regard to case, the status defaulted to 200.
pub open spec fn spec_config_endpoint(cfg: EndpointConfig) -> EndpointModel {
    EndpointModel {
        response: cfg.response,
        status: match cfg.status {
            Some(s) => s,
            None => 200,
        },
        headers: cfg.headers.deep_view(),
        proxy_url: match cfg.proxy_url {
            Some(u) => Some(u@),
            None => None,
        },
    }
}

/// Register the endpoint a management request describes: the method is
/// read without regard to case and must be one of the five known ones, the
/// status defaults to 200, and any endpoint under the same key is
/// replaced. On an unknown method nothing changes.
pub fn add_endpoint(st: &mut AppState, cfg: EndpointConfig) -> (r: Result<(), ManagementError>)
    requires
        old(st).wf(),
    ensures
        final(st).wf(),
        final(st).removed_spec == old(st).removed_spec,
        final(st).spec == old(st).spec,
        final(st).logs == old(st).logs,
        final(st).default_proxy_url == old(st).default_proxy_url,
        match spec_parse_method(cfg.method@) {
            Some(m) => r is Ok && final(st).dyn_map() == old(st).dyn_map().insert(
                (m, cfg.path@),
                spec_config_endpoint(cfg),
            ),
            None => r is Err && final(st).dynamic == old(st).dynamic,
        },
{
    match parse_method(cfg.method.as_str()) {
        Some(m) => {
            let status: u16 = match cfg.status {
                Some(s) => s,
                None => 200,
            };
            let ep = DynamicEndpoint {
                response: cfg.response,
                status,
                headers: cfg.headers,
                proxy_url: cfg.proxy_url,
            };
            let _prior = st.put_endpoint(m, cfg.path, ep);
            Ok(())
        },
        None => Err(ManagementError::UnknownMethod),
    }
}

/// Remove the key a management request names. When the dynamic registry
/// holds the key, its entry is erased. Otherwise the upper-cased key is
/// recorded in the suppression set, which hides a document-provided
/// endpoint from the configuration listing. The result says whether
/// anything observable changed; recording an already-recorded key reports
/// `false`.
pub fn remove_endpoint(st: &mut AppState, cfg: RemoveConfig) -> (removed: bool)
    requires
        old(st).wf(),
    ensures
        final(st).wf(),
        final(st).spec == old(st).spec,
        final(st).logs == old(st).logs,
        final(st).default_proxy_url == old(st).default_proxy_url,
        ({
            let dynamic_hit = match spec_parse_method(cfg.method@) {
                Some(m) => old(st).dyn_map().contains_key((m, cfg.path@)),
                None => false,
            };
            if dynamic_hit {
                let m = spec_parse_method(cfg.method@)->0;
                &&& removed
                &&& final(st).dyn_map() == old(st).dyn_map().remove((m, cfg.path@))
                &&& final(st).removed_spec == old(st).removed_spec
            } else {
                &&& final(st).dynamic == old(st).dynamic
                &&& final(st).removed() == old(st).removed().insert(
                    (upper_seq(cfg.method@), cfg.path@),
                )
                &&& removed == !old(st).removed().contains((upper_seq(cfg.method@), cfg.path@))
            }
        }),
{
    if let Some(m) = parse_method(cfg.method.as_str()) {
        if let Some(_gone) = st.remove_endpoint_entry(m, cfg.path.as_str()) {
            return true;
        }
        proof {
            assert(st.dyn_map() =~= old(st).dyn_map());
        }
    }
    let token = upper_string(cfg.method.as_str());
    st.removed_insert(token, cfg.path)
}

/// One row of the configuration listing.
pub enum ConfigEntry {
    /// An endpoint the loaded document provides and nothing suppresses:
    /// its raw request schema and its extracted response example.
    SpecEntry {
        method: Method,
        path: String,
        request_schema: Option<serde_json::Value>,
        response_example: Option<serde_json::Value>,
    },
    /// A registered dynamic endpoint with its stored data.
    DynamicEntry {
        method: Method,
        path: String,
        response: serde_json::Value,
        status: u16,
        headers: Option<Vec<(String, String)>>,
    },
}

#[verifier::ext_equal]
pub ghost enum ConfigModel {
    SpecEntry {
        method: Method,
        path: Seq<char>,
        request_schema: Option<serde_json::Value>,
        response_example: Option<serde_json::Value>,
    },
    DynamicEntry {
        method: Method,
        path: Seq<char>,
        response: serde_json::Value,
        status: u16,
        headers: Option<Seq<(Seq<char>, Seq<char>)>>,
    },
}

impl View for ConfigEntry {
    type V = ConfigModel;

    open spec fn view(&self) -> ConfigModel {
        match self {
            ConfigEntry::SpecEntry { method, path, request_schema, response_example } =>
                ConfigModel::SpecEntry {
                method: *method,
                path: path@,
                request_schema: *request_schema,
                response_example: *response_example,
            },
            ConfigEntry::DynamicEntry { method, path, response, status, headers } =>
                ConfigModel::DynamicEntry {
                method: *method,
                path: path@,
                response: *response,
                status: *status,
                headers: headers.deep_view(),
            },
        }
    }
}

impl DeepView for ConfigEntry {
    type V = ConfigModel;

    open spec fn deep_view(&self) -> ConfigModel {
        self.view()
    }
}

/// What the listing shows for one method of one document path: its entry,
/// unless the path has no such operation or the key is suppressed.
pub open spec fn spec_config_step(
    p: ApiPathModel,
    m: Method,
    removed: Set<(Seq<char>, Seq<char>)>,
) -> Seq<ConfigModel> {
    match spec_find_op(p.operations, m) {
        Some(op) => if !removed.contains((spec_method_token(m), p.template)) {
            seq![
                ConfigModel::SpecEntry {
                    method: m,
                    path: p.template,
                    request_schema: op.request_schema,
                    response_example: spec_dispatch_example(op.responses),
                },
            ]
        } else {
            Seq::empty()
        },
        None => Seq::empty(),
    }
}

/// One document path's rows, in the fixed method order.
pub open spec fn spec_config_path(p: ApiPathModel, removed: Set<(Seq<char>, Seq<char>)>) -> Seq<
    ConfigModel,
> {
    spec_config_step(p, Method::Get, removed) + spec_config_step(p, Method::Post, removed)
        + spec_config_step(p, Method::Put, removed) + spec_config_step(p, Method::Patch, removed)
        + spec_config_step(p, Method::Delete, removed)
}

/// The document-provided rows of the listing.
pub open spec fn spec_config_spec_entries(
    paths: Seq<ApiPathModel>,
    removed: Set<(Seq<char>, Seq<char>)>,
) -> Seq<ConfigModel>
    decreases paths.len(),
{
    if paths.len() == 0 {
        Seq::empty()
    } else {
        spec_config_path(paths[0], removed) + spec_config_spec_entries(paths.skip(1), removed)
    }
}

/// The dynamic rows of the listing, in registry order.
pub open spec fn spec_config_dynamic(entries: Seq<crate::model::StoreEntry>) -> Seq<ConfigModel>
    decreases entries.len(),
{
    if entries.len() == 0 {
        Seq::empty()
    } else {
        seq![
            ConfigModel::DynamicEntry {
                method: entries[0].method,
                path: entries[0].path@,
                response: entries[0].endpoint@.response,
                status: entries[0].endpoint@.status,
                headers: entries[0].endpoint@.headers,
            },
        ] + spec_config_dynamic(entries.skip(1))
    }
}

/// The whole listing: the document-provided rows that are not suppressed,
/// then every dynamic endpoint.
pub open spec fn spec_config(st: AppState) -> Seq<ConfigModel> {
    (match st.spec {
        Some(d) => spec_config_spec_entries(d@.paths, crate::store::removed_set(st.removed_spec@)),
        None => Seq::empty(),
    }) + spec_config_dynamic(st.dynamic@)
}

fn config_step(st: &AppState, p: &ApiPath, m: Method, out: &mut Vec<ConfigEntry>)
    ensures
        final(out).deep_view() == old(out).deep_view() + spec_config_step(p@, m, st.removed()),
{
    match crate::openapi::find_op(&p.operations, m) {
        Some(op) => {
            let token = crate::model::method_name(m);
            if !st.removed_contains(token.as_str(), p.template.as_str()) {
                let schema = match &op.request_schema {
                    Some(v) => Some(v.clone()),
                    None => None,
                };
                let ex = crate::openapi::dispatch_example(&op.responses);
                let ghost olddeep = out.deep_view();
                out.push(ConfigEntry::SpecEntry {
                    method: m,
                    path: p.template.clone(),
                    request_schema: schema,
                    response_example: ex,
                });
                proof {
                    assert(out.deep_view() =~~= olddeep + spec_config_step(p@, m, st.removed()));
                }
            } else {
                proof {
                    assert(out.deep_view() =~~= out.deep_view() + spec_config_step(
                        p@,
                        m,
                        st.removed(),
                    ));
                }
            }
        },
        None => {
            proof {
                assert(out.deep_view() =~~= out.deep_view() + spec_config_step(
                    p@,
                    m,
                    st.removed(),
                ));
            }
        },
    }
}

/// The configuration listing: the loaded document's operations that are
/// not suppressed, each with its raw request schema and extracted example,
/// followed by every registered dynamic endpoint with its stored data.
pub fn get_config(st: &AppState) -> (r: Vec<ConfigEntry>)
    requires
        st.wf(),
    ensures
        r.deep_view() == spec_config(*st),
{
    let mut out: Vec<ConfigEntry> = Vec::new();
    if let Some(doc) = &st.spec {
        let n = doc.paths.len();
        let mut i: usize = 0;
        proof {
            assert(doc@.paths.skip(0) =~= doc@.paths);
        }
        while i < n
            invariant
                st.wf(),
                st.spec matches Some(d) && d == doc,
                n == doc.paths@.len(),
                doc@.paths.len() == n,
                i <= n,
                spec_config_spec_entries(doc@.paths, st.removed()) == out.deep_view()
                    + spec_config_spec_entries(doc@.paths.skip(i as int), st.removed()),
            decreases n - i,
        {
            let ghost pre = doc@.paths.skip(i as int);
            let ghost l0 = out.deep_view();
            assert(pre[0] == doc@.paths[i as int]);
            let p = &doc.paths[i];
            config_step(st, p, Method::Get, &mut out);
            config_step(st, p, Method::Post, &mut out);
            config_step(st, p, Method::Put, &mut out);
            config_step(st, p, Method::Patch, &mut out);
            config_step(st, p, Method::Delete, &mut out);
            proof {
                assert(out.deep_view() =~= l0 + spec_config_path(p@, st.removed()));
                assert(pre.skip(1) =~= doc@.paths.skip(i as int + 1));
                assert(spec_config_spec_entries(doc@.paths, st.removed()) =~= out.deep_view()
                    + spec_config_spec_entries(doc@.paths.skip(i as int + 1), st.removed()));
            }
            i = i + 1;
        }
        proof {
            assert(doc@.paths.skip(n as int) =~= Seq::<ApiPathModel>::empty());
            assert(out.deep_view() =~= spec_config_spec_entries(doc@.paths, st.removed()));
        }
    }
    let ghost specpart = out.deep_view();
    let n = st.dynamic.len();
    let mut i: usize = 0;
    proof {
        assert(st.dynamic@.skip(0) =~= st.dynamic@);
    }
    while i < n
        invariant
            st.wf(),
            n == st.dynamic@.len(),
            i <= n,
            specpart + spec_config_dynamic(st.dynamic@) == out.deep_view()
                + spec_config_dynamic(st.dynamic@.skip(i as int)),
        decreases n - i,
    {
        let ghost pre = st.dynamic@.skip(i as int);
        let ghost l0 = out.deep_view();
        assert(pre[0] == st.dynamic@[i as int]);
        let entry = &st.dynamic[i];
        let ep = entry.endpoint.duplicate();
        let DynamicEndpoint { response, status, headers, proxy_url: _ } = ep;
        out.push(ConfigEntry::DynamicEntry {
            method: entry.method,
            path: entry.path.clone(),
            response,
            status,
            headers,
        });
        proof {
            assert(out.deep_view() =~~= l0 + seq![
                ConfigModel::DynamicEntry {
                    method: pre[0].method,
                    path: pre[0].path@,
                    response: pre[0].endpoint@.response,
                    status: pre[0].endpoint@.status,
                    headers: pre[0].endpoint@.headers,
                },
            ]);
            assert(pre.skip(1) =~= st.dynamic@.skip(i as int + 1));
            assert(specpart + spec_config_dynamic(st.dynamic@) =~= out.deep_view()
                + spec_config_dynamic(st.dynamic@.skip(i as int + 1)));
        }
        i = i + 1;
    }
    proof {
        assert(st.dynamic@.skip(n as int) =~= Seq::<crate::model::StoreEntry>::empty());
        assert(out.deep_view() =~= spec_config(*st));
    }
    out
}

/// The trace of handled requests, in order of handling.
pub fn get_logs(st: &AppState) -> (r: &Vec<RequestLog>)
    ensures
        r == &st.logs,
{
    &st.logs
}

/// Empty the trace.
pub fn clear_logs(st: &mut AppState)
    requires
        old(st).wf(),
    ensures
        final(st).wf(),
        final(st).logs@.len() == 0,
        final(st).dynamic == old(st).dynamic,
        final(st).removed_spec == old(st).removed_spec,
        final(st).spec == old(st).spec,
        final(st).default_proxy_url == old(st).default_proxy_url,
{
    st.logs.clear();
}

/// The default proxy URL, if one is set.
pub fn get_proxy(st: &AppState) -> (r: &Option<String>)
    ensures
        r == &st.default_proxy_url,
{
    &st.default_proxy_url
}

/// Set the default proxy URL from a management request: the URL is
/// trimmed of surrounding whitespace, and an empty or whitespace-only URL
/// clears the setting instead. The result is the setting as stored.
pub fn set_proxy(st: &mut AppState, cfg: ProxyConfig) -> (r: Option<String>)
    requires
        old(st).wf(),
    ensures
        final(st).wf(),
        final(st).dynamic == old(st).dynamic,
        final(st).removed_spec == old(st).removed_spec,
        final(st).spec == old(st).spec,
        final(st).logs == old(st).logs,
        trim_seq(cfg.url@).len() == 0 ==> final(st).default_proxy_url is None && r is None,
        trim_seq(cfg.url@).len() > 0 ==> (final(st).default_proxy_url matches Some(u) && u@
            == trim_seq(cfg.url@)) && (r matches Some(u) && u@ == trim_seq(cfg.url@)),
{
    let url = trim_string(cfg.url.as_str());
    if url.as_str().unicode_len() == 0 {
        proof {
            assert(url@.len() == 0);
        }
        st.default_proxy_url = None;
        None
    } else {
        let copy = url.clone();
        st.default_proxy_url = Some(url);
        Some(copy)
    }
}

/// Clear the default proxy URL.
pub fn delete_proxy(st: &mut AppState)
    requires
        old(st).wf(),
    ensures
        final(st).wf(),
        final(st).default_proxy_url is None,
        final(st).dynamic == old(st).dynamic,
        final(st).removed_spec == old(st).removed_spec,
        final(st).spec == old(st).spec,
        final(st).logs == old(st).logs,
{
    st.default_proxy_url = None;
}

} // verus!
