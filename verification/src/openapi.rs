//! Structured API documents: the parsed form a loaded document is handed
//! to this crate in, and the form export builds. Parsing JSON text into
//! this shape and serializing it back are the caller's business; every
//! decision over the shape is made and verified here.

use vstd::prelude::*;
use vstd::string::StringExecFns;
use crate::model::{DynamicEndpoint, EndpointModel, Method};
use crate::store::AppState;

verus! {

/// One response of an operation: its status code, its description, and
/// the JSON example of its `application/json` content, when both the
/// content and the example are present.
pub struct ApiResponse {
    pub status: u16,
    pub description: String,
    pub example: Option<serde_json::Value>,
}

/// The mathematical shape of a response.
#[verifier::ext_equal]
pub ghost struct ApiResponseModel {
    pub status: u16,
    pub description: Seq<char>,
    pub example: Option<serde_json::Value>,
}

impl View for ApiResponse {
    type V = ApiResponseModel;

    open spec fn view(&self) -> ApiResponseModel {
        ApiResponseModel {
            status: self.status,
            description: self.description@,
            example: self.example,
        }
    }
}

impl DeepView for ApiResponse {
    type V = ApiResponseModel;

    open spec fn deep_view(&self) -> ApiResponseModel {
        self.view()
    }
}

/// One operation of a path item.
pub struct ApiOperation {
    pub method: Method,
    pub summary: String,
    pub operation_id: String,
    pub has_request_body: bool,
    pub request_schema: Option<serde_json::Value>,
    pub responses: Vec<ApiResponse>,
}

#[verifier::ext_equal]
pub ghost struct ApiOperationModel {
    pub method: Method,
    pub summary: Seq<char>,
    pub operation_id: Seq<char>,
    pub has_request_body: bool,
    pub request_schema: Option<serde_json::Value>,
    pub responses: Seq<ApiResponseModel>,
}

impl View for ApiOperation {
    type V = ApiOperationModel;

    open spec fn view(&self) -> ApiOperationModel {
        ApiOperationModel {
            method: self.method,
            summary: self.summary@,
            operation_id: self.operation_id@,
            has_request_body: self.has_request_body,
            request_schema: self.request_schema,
            responses: self.responses.deep_view(),
        }
    }
}

impl DeepView for ApiOperation {
    type V = ApiOperationModel;

    open spec fn deep_view(&self) -> ApiOperationModel {
        self.view()
    }
}

/// One path of a document: a template and its operations.
pub struct ApiPath {
    pub template: String,
    pub operations: Vec<ApiOperation>,
}

#[verifier::ext_equal]
pub ghost struct ApiPathModel {
    pub template: Seq<char>,
    pub operations: Seq<ApiOperationModel>,
}

impl View for ApiPath {
    type V = ApiPathModel;

    open spec fn view(&self) -> ApiPathModel {
        ApiPathModel { template: self.template@, operations: self.operations.deep_view() }
    }
}

impl DeepView for ApiPath {
    type V = ApiPathModel;

    open spec fn deep_view(&self) -> ApiPathModel {
        self.view()
    }
}

/// A whole document: the info block and the paths.
pub struct ApiDocument {
    pub title: String,
    pub description: String,
    pub version: String,
    pub paths: Vec<ApiPath>,
}

#[verifier::ext_equal]
pub ghost struct ApiDocumentModel {
    pub title: Seq<char>,
    pub description: Seq<char>,
    pub version: Seq<char>,
    pub paths: Seq<ApiPathModel>,
}

impl View for ApiDocument {
    type V = ApiDocumentModel;

    open spec fn view(&self) -> ApiDocumentModel {
        ApiDocumentModel {
            title: self.title@,
            description: self.description@,
            version: self.version@,
            paths: self.paths.deep_view(),
        }
    }
}

/// The first operation with the given method, if any: a parsed document
/// has at most one per path.
pub open spec fn spec_find_op(ops: Seq<ApiOperationModel>, m: Method) -> Option<
    ApiOperationModel,
>
    decreases ops.len(),
{
    if ops.len() == 0 {
        None
    } else if ops[0].method == m {
        Some(ops[0])
    } else {
        spec_find_op(ops.skip(1), m)
    }
}

/// Whether an operation defines a response under the given status.
pub open spec fn spec_has_status(rs: Seq<ApiResponseModel>, status: u16) -> bool {
    exists|i: int| 0 <= i < rs.len() && (#[trigger] rs[i].status) == status
}

/// The first response with the given status, if any.
pub open spec fn spec_response_for(rs: Seq<ApiResponseModel>, status: u16) -> Option<
    ApiResponseModel,
>
    decreases rs.len(),
{
    if rs.len() == 0 {
        None
    } else if rs[0].status == status {
        Some(rs[0])
    } else {
        spec_response_for(rs.skip(1), status)
    }
}

/// The JSON example stored under the given status, when the response and
/// its example are both present.
pub open spec fn spec_example_for_status(rs: Seq<ApiResponseModel>, status: u16) -> Option<
    serde_json::Value,
> {
    match spec_response_for(rs, status) {
        Some(r) => r.example,
        None => None,
    }
}

/// The status an import prefers for an operation: the first of 201, 204,
/// 202 that the operation defines a response for, and otherwise 200.
pub open spec fn spec_preferred_status(rs: Seq<ApiResponseModel>) -> u16 {
    if spec_has_status(rs, 201) {
        201
    } else if spec_has_status(rs, 204) {
        204
    } else if spec_has_status(rs, 202) {
        202
    } else {
        200
    }
}

/// The example the dispatcher serves for an operation: the first example
/// found under the statuses 200, 201, 204, 202, in that order.
pub open spec fn spec_dispatch_example(rs: Seq<ApiResponseModel>) -> Option<serde_json::Value> {
    if spec_example_for_status(rs, 200) is Some {
        spec_example_for_status(rs, 200)
    } else if spec_example_for_status(rs, 201) is Some {
        spec_example_for_status(rs, 201)
    } else if spec_example_for_status(rs, 204) is Some {
        spec_example_for_status(rs, 204)
    } else {
        spec_example_for_status(rs, 202)
    }
}

/// The first path whose template matches the concrete path and which
/// defines an operation for the method; the result is that operation.
pub open spec fn spec_doc_operation(
    paths: Seq<ApiPathModel>,
    m: Method,
    p: Seq<char>,
) -> Option<ApiOperationModel>
    decreases paths.len(),
{
    if paths.len() == 0 {
        None
    } else if crate::matcher::template_matches(paths[0].template, p) && spec_find_op(
        paths[0].operations,
        m,
    ) is Some {
        spec_find_op(paths[0].operations, m)
    } else {
        spec_doc_operation(paths.skip(1), m, p)
    }
}

/// Each status appears at most once among an operation's responses.
pub open spec fn responses_wf(rs: Seq<ApiResponseModel>) -> bool {
    forall|x: int, y: int|
        0 <= x < y < rs.len() ==> (#[trigger] rs[x].status) != (#[trigger] rs[y].status)
}

/// Each method appears at most once among a path's operations, and each
/// operation's responses are well-formed.
pub open spec fn ops_wf(ops: Seq<ApiOperationModel>) -> bool {
    &&& forall|x: int, y: int|
        0 <= x < y < ops.len() ==> (#[trigger] ops[x].method) != (#[trigger] ops[y].method)
    &&& forall|j: int| 0 <= j < ops.len() ==> responses_wf((#[trigger] ops[j]).responses)
}

/// A document in the shape a parse yields: path templates are distinct,
/// and within a path each method appears at most once and each status at
/// most once.
pub open spec fn doc_wf(d: ApiDocumentModel) -> bool {
    &&& forall|i: int, j: int|
        0 <= i < j < d.paths.len() ==> (#[trigger] d.paths[i].template) != (
        #[trigger] d.paths[j].template)
    &&& forall|i: int| 0 <= i < d.paths.len() ==> ops_wf((#[trigger] d.paths[i]).operations)
}

/// The operation with the given method among a path's operations.
pub fn find_op<'a>(ops: &'a Vec<ApiOperation>, m: Method) -> (r: Option<&'a ApiOperation>)
    ensures
        match r {
            Some(op) => spec_find_op(ops.deep_view(), m) == Some(op@),
            None => spec_find_op(ops.deep_view(), m) is None,
        },
{
    let n = ops.len();
    let mut i: usize = 0;
    proof {
        assert(ops.deep_view().skip(0) =~= ops.deep_view());
    }
    while i < n
        invariant
            n == ops@.len(),
            ops.deep_view().len() == n,
            i <= n,
            spec_find_op(ops.deep_view(), m) == spec_find_op(
                ops.deep_view().skip(i as int),
                m,
            ),
        decreases n - i,
    {
        let ghost pre = ops.deep_view().skip(i as int);
        assert(pre[0] == ops.deep_view()[i as int]);
        if ops[i].method == m {
            return Some(&ops[i]);
        }
        proof {
            assert(pre.skip(1) =~= ops.deep_view().skip(i as int + 1));
        }
        i = i + 1;
    }
    proof {
        assert(ops.deep_view().skip(n as int) =~= Seq::<ApiOperationModel>::empty());
    }
    None
}

/// The response under the given status, if the operation defines one.
pub fn response_for<'a>(rs: &'a Vec<ApiResponse>, status: u16) -> (r: Option<&'a ApiResponse>)
    ensures
        match r {
            Some(resp) => spec_response_for(rs.deep_view(), status) == Some(resp@),
            None => spec_response_for(rs.deep_view(), status) is None,
        },
{
    let n = rs.len();
    let mut i: usize = 0;
    proof {
        assert(rs.deep_view().skip(0) =~= rs.deep_view());
    }
    while i < n
        invariant
            n == rs@.len(),
            rs.deep_view().len() == n,
            i <= n,
            spec_response_for(rs.deep_view(), status) == spec_response_for(
                rs.deep_view().skip(i as int),
                status,
            ),
        decreases n - i,
    {
        let ghost pre = rs.deep_view().skip(i as int);
        assert(pre[0] == rs.deep_view()[i as int]);
        if rs[i].status == status {
            return Some(&rs[i]);
        }
        proof {
            assert(pre.skip(1) =~= rs.deep_view().skip(i as int + 1));
        }
        i = i + 1;
    }
    proof {
        assert(rs.deep_view().skip(n as int) =~= Seq::<ApiResponseModel>::empty());
    }
    None
}

/// Whether a response under the given status is present at all.
pub fn has_status(rs: &Vec<ApiResponse>, status: u16) -> (r: bool)
    ensures
        r == spec_has_status(rs.deep_view(), status),
{
    match response_for(rs, status) {
        Some(_) => {
            proof {
                lemma_response_for_has_status(rs.deep_view(), status);
            }
            true
        },
        None => {
            proof {
                lemma_response_for_has_status(rs.deep_view(), status);
            }
            false
        },
    }
}

/// A status is found by the scan exactly when some response carries it.
pub proof fn lemma_response_for_has_status(rs: Seq<ApiResponseModel>, status: u16)
    ensures
        spec_response_for(rs, status) is Some <==> spec_has_status(rs, status),
    decreases rs.len(),
{
    if rs.len() > 0 {
        lemma_response_for_has_status(rs.skip(1), status);
        if rs[0].status == status {
        } else if spec_has_status(rs, status) {
            let i = choose|i: int| 0 <= i < rs.len() && (#[trigger] rs[i].status) == status;
            assert(rs.skip(1)[i - 1] == rs[i]);
        } else if spec_has_status(rs.skip(1), status) {
            let i = choose|i: int|
                0 <= i < rs.skip(1).len() && (#[trigger] rs.skip(1)[i].status) == status;
            assert(rs[i + 1] == rs.skip(1)[i]);
        }
    }
}

/// The example stored under the given status, as a copy.
pub fn example_for_status(rs: &Vec<ApiResponse>, status: u16) -> (r: Option<serde_json::Value>)
    ensures
        r == spec_example_for_status(rs.deep_view(), status),
{
    match response_for(rs, status) {
        Some(resp) => match &resp.example {
            Some(v) => Some(v.clone()),
            None => None,
        },
        None => None,
    }
}

/// The status an import prefers for an operation: the first of 201, 204,
/// 202 that the operation defines, and otherwise 200.
pub fn preferred_status(rs: &Vec<ApiResponse>) -> (r: u16)
    ensures
        r == spec_preferred_status(rs.deep_view()),
{
    if has_status(rs, 201) {
        201
    } else if has_status(rs, 204) {
        204
    } else if has_status(rs, 202) {
        202
    } else {
        200
    }
}

/// The example the dispatcher serves: the first example found under the
/// statuses 200, 201, 204, 202, in that order.
pub fn dispatch_example(rs: &Vec<ApiResponse>) -> (r: Option<serde_json::Value>)
    ensures
        r == spec_dispatch_example(rs.deep_view()),
{
    let e200 = example_for_status(rs, 200);
    if e200.is_some() {
        return e200;
    }
    let e201 = example_for_status(rs, 201);
    if e201.is_some() {
        return e201;
    }
    let e204 = example_for_status(rs, 204);
    if e204.is_some() {
        return e204;
    }
    example_for_status(rs, 202)
}

/// What the document offers for a request: nothing, an operation without
/// an example, or an operation with its example.
pub fn doc_dispatch_lookup(doc: &ApiDocument, m: Method, path: &str) -> (r: Option<Option<
    serde_json::Value,
>>)
    ensures
        match spec_doc_operation(doc@.paths, m, path@) {
            Some(op) => r == Some(spec_dispatch_example(op.responses)),
            None => r is None,
        },
{
    let n = doc.paths.len();
    let mut i: usize = 0;
    proof {
        assert(doc@.paths.skip(0) =~= doc@.paths);
    }
    while i < n
        invariant
            n == doc.paths@.len(),
            doc@.paths.len() == n,
            i <= n,
            spec_doc_operation(doc@.paths, m, path@) == spec_doc_operation(
                doc@.paths.skip(i as int),
                m,
                path@,
            ),
        decreases n - i,
    {
        let ghost pre = doc@.paths.skip(i as int);
        assert(pre[0] == doc@.paths[i as int]);
        let item = &doc.paths[i];
        if crate::matcher::matches_path_template(item.template.as_str(), path) {
            match find_op(&item.operations, m) {
                Some(op) => {
                    return Some(dispatch_example(&op.responses));
                },
                None => {},
            }
        }
        proof {
            assert(pre.skip(1) =~= doc@.paths.skip(i as int + 1));
        }
        i = i + 1;
    }
    proof {
        assert(doc@.paths.skip(n as int) =~= Seq::<ApiPathModel>::empty());
    }
    None
}

/// What an import stores as the response of an operation: the example
/// under the preferred status, or the fixed fallback document.
pub open spec fn spec_import_response(op: ApiOperationModel) -> serde_json::Value {
    match spec_example_for_status(op.responses, spec_preferred_status(op.responses)) {
        Some(v) => v,
        None => crate::json::spec_default_import_response(),
    }
}

/// The endpoint an import stores for an operation: the preferred status,
/// the operation's example or the fallback, a lone `Content-Type:
/// application/json` header, and no upstream URL.
pub open spec fn spec_import_endpoint(op: ApiOperationModel) -> EndpointModel {
    EndpointModel {
        response: spec_import_response(op),
        status: spec_preferred_status(op.responses),
        headers: Some(seq![("Content-Type"@, "application/json"@)]),
        proxy_url: None,
    }
}

/// One step of an import: register the endpoint for one method of a path,
/// when the path defines an operation for it.
pub open spec fn spec_import_step(
    m: Map<(Method, Seq<char>), EndpointModel>,
    tpl: Seq<char>,
    ops: Seq<ApiOperationModel>,
    method: Method,
) -> Map<(Method, Seq<char>), EndpointModel> {
    match spec_find_op(ops, method) {
        Some(op) => m.insert((method, tpl), spec_import_endpoint(op)),
        None => m,
    }
}

/// What one step reports: the imported key and its status, or nothing.
pub open spec fn spec_import_step_list(
    tpl: Seq<char>,
    ops: Seq<ApiOperationModel>,
    method: Method,
) -> Seq<(Method, Seq<char>, u16)> {
    match spec_find_op(ops, method) {
        Some(op) => seq![(method, tpl, spec_preferred_status(op.responses))],
        None => Seq::empty(),
    }
}

/// Importing one path registers its operations in the fixed method order
/// GET, POST, PUT, PATCH, DELETE.
pub open spec fn spec_import_path_map(
    m: Map<(Method, Seq<char>), EndpointModel>,
    p: ApiPathModel,
) -> Map<(Method, Seq<char>), EndpointModel> {
    let m1 = spec_import_step(m, p.template, p.operations, Method::Get);
    let m2 = spec_import_step(m1, p.template, p.operations, Method::Post);
    let m3 = spec_import_step(m2, p.template, p.operations, Method::Put);
    let m4 = spec_import_step(m3, p.template, p.operations, Method::Patch);
    spec_import_step(m4, p.template, p.operations, Method::Delete)
}

pub open spec fn spec_import_path_list(p: ApiPathModel) -> Seq<(Method, Seq<char>, u16)> {
    spec_import_step_list(p.template, p.operations, Method::Get) + spec_import_step_list(
        p.template,
        p.operations,
        Method::Post,
    ) + spec_import_step_list(p.template, p.operations, Method::Put) + spec_import_step_list(
        p.template,
        p.operations,
        Method::Patch,
    ) + spec_import_step_list(p.template, p.operations, Method::Delete)
}

/// The registry after importing a whole document into it, path by path.
pub open spec fn spec_import_map(
    m: Map<(Method, Seq<char>), EndpointModel>,
    paths: Seq<ApiPathModel>,
) -> Map<(Method, Seq<char>), EndpointModel>
    decreases paths.len(),
{
    if paths.len() == 0 {
        m
    } else {
        spec_import_map(spec_import_path_map(m, paths[0]), paths.skip(1))
    }
}

/// Everything an import of a whole document reports, in import order.
pub open spec fn spec_import_list(paths: Seq<ApiPathModel>) -> Seq<(Method, Seq<char>, u16)>
    decreases paths.len(),
{
    if paths.len() == 0 {
        Seq::empty()
    } else {
        spec_import_path_list(paths[0]) + spec_import_list(paths.skip(1))
    }
}

/// One endpoint an import registered, as reported back.
pub struct ImportedEndpoint {
    pub method: Method,
    pub path: String,
    pub status: u16,
}

impl View for ImportedEndpoint {
    type V = (Method, Seq<char>, u16);

    open spec fn view(&self) -> (Method, Seq<char>, u16) {
        (self.method, self.path@, self.status)
    }
}

impl DeepView for ImportedEndpoint {
    type V = (Method, Seq<char>, u16);

    open spec fn deep_view(&self) -> (Method, Seq<char>, u16) {
        self.view()
    }
}

/// What an import reports: how many endpoints it registered, and each key
/// with its stored status, in import order.
pub struct ImportReply {
    pub count: usize,
    pub endpoints: Vec<ImportedEndpoint>,
}

fn import_step(st: &mut AppState, p: &ApiPath, m: Method, endpoints: &mut Vec<ImportedEndpoint>)
    requires
        old(st).wf(),
    ensures
        final(st).wf(),
        final(st).dyn_map() == spec_import_step(old(st).dyn_map(), p@.template, p@.operations, m),
        final(endpoints).deep_view() == old(endpoints).deep_view() + spec_import_step_list(
            p@.template,
            p@.operations,
            m,
        ),
        final(st).removed_spec == old(st).removed_spec,
        final(st).spec == old(st).spec,
        final(st).logs == old(st).logs,
        final(st).default_proxy_url == old(st).default_proxy_url,
{
    match find_op(&p.operations, m) {
        Some(op) => {
            let status = preferred_status(&op.responses);
            let response = match example_for_status(&op.responses, status) {
                Some(v) => v,
                None => crate::json::default_import_response(),
            };
            let mut hs: Vec<(String, String)> = Vec::new();
            hs.push((String::from_str("Content-Type"), String::from_str("application/json")));
            let ep = DynamicEndpoint { response, status, headers: Some(hs), proxy_url: None };
            proof {
                assert(ep@.headers matches Some(s) && s =~~= seq![
                    ("Content-Type"@, "application/json"@),
                ]);
                assert(ep@ == spec_import_endpoint(op@));
            }
            let _prior = st.put_endpoint(m, p.template.clone(), ep);
            let ghost olde = endpoints.deep_view();
            endpoints.push(ImportedEndpoint { method: m, path: p.template.clone(), status });
            proof {
                assert(endpoints.deep_view() =~~= olde + spec_import_step_list(
                    p@.template,
                    p@.operations,
                    m,
                ));
            }
        },
        None => {
            proof {
                assert(endpoints.deep_view() =~~= endpoints.deep_view() + spec_import_step_list(
                    p@.template,
                    p@.operations,
                    m,
                ));
            }
        },
    }
}

/// Import a parsed document: for each path, in the fixed method order GET,
/// POST, PUT, PATCH, DELETE, register an endpoint for each operation the
/// path defines, replacing any endpoint already under that key, and
/// install the document as the loaded one. The report lists every
/// registered key with its status, in import order.
#[verifier::rlimit(100)]
pub fn import_openapi(st: &mut AppState, doc: ApiDocument) -> (reply: ImportReply)
    requires
        old(st).wf(),
    ensures
        final(st).wf(),
        final(st).dyn_map() == spec_import_map(old(st).dyn_map(), doc@.paths),
        final(st).spec == Some(doc),
        final(st).removed_spec == old(st).removed_spec,
        final(st).logs == old(st).logs,
        final(st).default_proxy_url == old(st).default_proxy_url,
        reply.endpoints.deep_view() == spec_import_list(doc@.paths),
        reply.count == spec_import_list(doc@.paths).len(),
{
    let mut endpoints: Vec<ImportedEndpoint> = Vec::new();
    let n = doc.paths.len();
    let mut i: usize = 0;
    proof {
        assert(doc@.paths.skip(0) =~= doc@.paths);
    }
    while i < n
        invariant
            st.wf(),
            n == doc.paths@.len(),
            doc@.paths.len() == n,
            i <= n,
            spec_import_map(old(st).dyn_map(), doc@.paths) == spec_import_map(
                st.dyn_map(),
                doc@.paths.skip(i as int),
            ),
            spec_import_list(doc@.paths) == endpoints.deep_view() + spec_import_list(
                doc@.paths.skip(i as int),
            ),
            st.removed_spec == old(st).removed_spec,
            st.spec == old(st).spec,
            st.logs == old(st).logs,
            st.default_proxy_url == old(st).default_proxy_url,
        decreases n - i,
    {
        let ghost pre = doc@.paths.skip(i as int);
        let ghost m0 = st.dyn_map();
        let ghost l0 = endpoints.deep_view();
        assert(pre[0] == doc@.paths[i as int]);
        let p = &doc.paths[i];
        import_step(st, p, Method::Get, &mut endpoints);
        import_step(st, p, Method::Post, &mut endpoints);
        import_step(st, p, Method::Put, &mut endpoints);
        import_step(st, p, Method::Patch, &mut endpoints);
        import_step(st, p, Method::Delete, &mut endpoints);
        proof {
            assert(st.dyn_map() == spec_import_path_map(m0, p@));
            assert(endpoints.deep_view() =~= l0 + spec_import_path_list(p@));
            assert(pre.skip(1) =~= doc@.paths.skip(i as int + 1));
            assert(spec_import_map(m0, pre) == spec_import_map(
                st.dyn_map(),
                doc@.paths.skip(i as int + 1),
            ));
            assert(spec_import_list(doc@.paths) =~= endpoints.deep_view() + spec_import_list(
                doc@.paths.skip(i as int + 1),
            ));
        }
        i = i + 1;
    }
    proof {
        assert(doc@.paths.skip(n as int) =~= Seq::<ApiPathModel>::empty());
        assert(endpoints.deep_view() + spec_import_list(doc@.paths.skip(n as int))
            =~= endpoints.deep_view());
    }
    st.spec = Some(doc);
    let count = endpoints.len();
    proof {
        assert(endpoints.deep_view().len() == endpoints@.len());
    }
    ImportReply { count, endpoints }
}

/// The summary of an exported operation: the method token, a space, the
/// path.
pub open spec fn spec_summary(m: Method, path: Seq<char>) -> Seq<char> {
    crate::model::spec_method_token(m) + seq![' '] + path
}

/// The id of an exported operation: the lower-case method, `_`, and the
/// path with `/` turned into `_` and surrounding `_` trimmed.
pub open spec fn spec_operation_id(m: Method, path: Seq<char>) -> Seq<char> {
    crate::model::spec_method_lower(m) + seq!['_'] + crate::text::trim_underscores(
        crate::text::underscored(path),
    )
}

/// The description of an exported response.
pub open spec fn spec_export_description(status: u16) -> Seq<char> {
    "Successful response with status "@ + crate::text::dec_seq(status as nat)
}

/// Whether an exported operation carries a request body: it does for the
/// methods that send one.
pub open spec fn spec_has_body(m: Method) -> bool {
    m == Method::Post || m == Method::Put || m == Method::Patch
}

/// The operation export writes for one registered endpoint: a generated
/// summary and id, a request body for the sending methods, and a single
/// response under the endpoint's stored status carrying its stored
/// response as the example.
pub open spec fn spec_export_op(m: Method, path: Seq<char>, ep: EndpointModel)
    -> ApiOperationModel {
    ApiOperationModel {
        method: m,
        summary: spec_summary(m, path),
        operation_id: spec_operation_id(m, path),
        has_request_body: spec_has_body(m),
        request_schema: None,
        responses: seq![
            ApiResponseModel {
                status: ep.status,
                description: spec_export_description(ep.status),
                example: Some(ep.response),
            },
        ],
    }
}

/// Whether a document defines an operation under a key.
pub open spec fn spec_doc_has_key(paths: Seq<ApiPathModel>, k: (Method, Seq<char>)) -> bool {
    exists|pi: int, oi: int|
        0 <= pi < paths.len() && 0 <= oi < (#[trigger] paths[pi].operations).len() && paths[
            pi].template == k.1 && (#[trigger] paths[pi].operations[oi]).method == k.0
}

fn build_export_op(m: Method, path: &str, ep: &DynamicEndpoint) -> (op: ApiOperation)
    ensures
        op@ == spec_export_op(m, path@, ep@),
{
    let summary = crate::model::method_name(m).concat(" ").concat(path);
    let id_tail = crate::text::operation_path_id(path);
    let operation_id = crate::model::method_lower_name(m).concat("_").concat(id_tail.as_str());
    let has_request_body = match m {
        Method::Post => true,
        Method::Put => true,
        Method::Patch => true,
        _ => false,
    };
    let description = String::from_str("Successful response with status ").concat(
        crate::text::u16_to_string(ep.status).as_str(),
    );
    let mut responses: Vec<ApiResponse> = Vec::new();
    responses.push(ApiResponse {
        status: ep.status,
        description,
        example: Some(ep.response.clone()),
    });
    proof {
        reveal_strlit(" ");
        reveal_strlit("_");
        assert(" "@ =~= seq![' ']);
        assert("_"@ =~= seq!['_']);
        assert(summary@ =~= spec_summary(m, path@));
        assert(operation_id@ =~= spec_operation_id(m, path@));
        assert(responses.deep_view() =~~= seq![
            ApiResponseModel {
                status: ep.status,
                description: spec_export_description(ep@.status),
                example: Some(ep@.response),
            },
        ]);
    }
    ApiOperation {
        method: m,
        summary,
        operation_id,
        has_request_body,
        request_schema: None,
        responses,
    }
}

/// Export the registry as a document: for every registered endpoint, the
/// path holds an operation for its method, generated from the endpoint;
/// every operation in the document comes from the registry that way;
/// templates are distinct and, within a path, methods are distinct. The
/// info block is fixed.
#[verifier::rlimit(100)]
pub fn export_openapi(st: &AppState) -> (doc: ApiDocument)
    requires
        st.wf(),
    ensures
        doc@.title == "Mock API"@,
        doc@.description == "Exported from Rust-Mock server"@,
        doc@.version == "1.0.0"@,
        forall|pi: int, oi: int|
            0 <= pi < doc@.paths.len() && 0 <= oi < (#[trigger] doc@.paths[pi].operations).len()
                ==> {
                let tpl = doc@.paths[pi].template;
                let op = #[trigger] doc@.paths[pi].operations[oi];
                &&& st.dyn_map().contains_key((op.method, tpl))
                &&& op == spec_export_op(op.method, tpl, st.dyn_map()[(op.method, tpl)])
            },
        forall|k: (Method, Seq<char>)|
            st.dyn_map().contains_key(k) ==> spec_doc_has_key(doc@.paths, k),
        forall|pi: int, pj: int|
            0 <= pi < pj < doc@.paths.len() ==> (#[trigger] doc@.paths[pi].template) != (
            #[trigger] doc@.paths[pj].template),
        forall|pi: int, x: int, y: int|
            0 <= pi < doc@.paths.len() && 0 <= x < y < (
            #[trigger] doc@.paths[pi].operations).len() ==> (#[trigger] doc@.paths[
                pi].operations[x]).method != (#[trigger] doc@.paths[pi].operations[y]).method,
{
    let entries = &st.dynamic;
    let n = entries.len();
    let mut paths: Vec<ApiPath> = Vec::new();
    let mut i: usize = 0;
    while i < n
        invariant
            st.wf(),
            n == entries@.len(),
            entries == &st.dynamic,
            i <= n,
            // every operation written so far comes from a processed entry
            forall|pi: int, oi: int|
                0 <= pi < paths.deep_view().len() && 0 <= oi < (#[trigger] paths.deep_view()[
                    pi].operations).len() && 0 <= oi < paths.deep_view()[pi].operations.len()
                    ==> ({
                    let op = #[trigger] paths.deep_view()[pi].operations[oi];
                    exists|j: int|
                        0 <= j < i && (#[trigger] entries@[j].key()) == (
                        op.method,
                        paths.deep_view()[pi].template,
                    )
                }),
            // and is the export of the registered endpoint under its key
            forall|pi: int, oi: int|
                0 <= pi < paths.deep_view().len() && 0 <= oi < (#[trigger] paths.deep_view()[
                    pi].operations).len() ==> {
                    let tpl = paths.deep_view()[pi].template;
                    let op = #[trigger] paths.deep_view()[pi].operations[oi];
                    &&& st.dyn_map().contains_key((op.method, tpl))
                    &&& op == spec_export_op(op.method, tpl, st.dyn_map()[(op.method, tpl)])
                },
            // every processed entry has its operation in the document
            forall|j: int|
                0 <= j < i ==> spec_doc_has_key(paths.deep_view(), (#[trigger] entries@[
                    j].key())),
            // templates are distinct
            forall|pi: int, pj: int|
                0 <= pi < pj < paths.deep_view().len() ==> (#[trigger] paths.deep_view()[
                    pi].template) != (#[trigger] paths.deep_view()[pj].template),
            // methods are distinct within each path
            forall|pi: int, x: int, y: int|
                0 <= pi < paths.deep_view().len() && 0 <= x < y < (
                #[trigger] paths.deep_view()[pi].operations).len() ==> (
                #[trigger] paths.deep_view()[pi].operations[x]).method != (
                #[trigger] paths.deep_view()[pi].operations[y]).method,
        decreases n - i,
    {
        let entry = &entries[i];
        proof {
            crate::store::lemma_store_map_index(entries@, i as int);
        }
        let op = build_export_op(entry.method, entry.path.as_str(), &entry.endpoint);
        let ghost oldpaths = paths.deep_view();
        // find the path item for this template, if the document has one
        let np = paths.len();
        let mut pidx: usize = 0;
        let mut found = false;
        while pidx < np && !found
            invariant
                np == paths@.len(),
                pidx <= np,
                !found ==> forall|x: int|
                    0 <= x < pidx ==> (#[trigger] paths.deep_view()[x].template)
                        != entry.path@,
                found ==> pidx < np && paths.deep_view()[pidx as int].template == entry.path@,
            decreases np - pidx + (if found { 0int } else { 1int }),
        {
            if crate::model::str_eq(paths[pidx].template.as_str(), entry.path.as_str()) {
                found = true;
            } else {
                pidx = pidx + 1;
            }
        }
        if found {
            let ghost oldop = paths.deep_view()[pidx as int].operations;
            // the entry's key is new, so its method is absent from this path
            proof {
                assert forall|oi: int| 0 <= oi < oldop.len() implies (#[trigger] oldop[
                    oi]).method != entry.method by {
                    let j = choose|j: int|
                        0 <= j < i && (#[trigger] entries@[j].key()) == (
                        oldop[oi].method,
                        paths.deep_view()[pidx as int].template,
                    );
                    assert(entries@[j].key() != entries@[i as int].key());
                }
            }
            let mut item = paths.remove(pidx);
            item.operations.push(op);
            paths.insert(pidx, item);
            proof {
                assert(paths.deep_view() =~~= oldpaths.update(
                    pidx as int,
                    ApiPathModel {
                        template: oldpaths[pidx as int].template,
                        operations: oldop.push(
                            spec_export_op(
                                entry.method,
                                entry.path@,
                                st.dyn_map()[(entry.method, entry.path@)],
                            ),
                        ),
                    },
                ));
            }
        } else {
            let mut ops: Vec<ApiOperation> = Vec::new();
            ops.push(op);
            paths.push(ApiPath { template: entry.path.clone(), operations: ops });
            proof {
                assert(paths.deep_view() =~~= oldpaths.push(
                    ApiPathModel {
                        template: entry.path@,
                        operations: seq![
                            spec_export_op(
                                entry.method,
                                entry.path@,
                                st.dyn_map()[(entry.method, entry.path@)],
                            ),
                        ],
                    },
                ));
            }
        }
        proof {
            assert forall|j: int| 0 <= j < i + 1 implies spec_doc_has_key(
                paths.deep_view(),
                (#[trigger] entries@[j].key()),
            ) by {
                if j < i {
                    let (pi, oi): (int, int) = choose|pi: int, oi: int|
                        0 <= pi < oldpaths.len() && 0 <= oi < (#[trigger] oldpaths[
                            pi].operations).len() && oldpaths[pi].template == entries@[j].key().1
                            && (#[trigger] oldpaths[pi].operations[oi]).method == entries@[
                            j].key().0;
                    assert(paths.deep_view()[pi].template == oldpaths[pi].template);
                    assert(paths.deep_view()[pi].operations[oi] == oldpaths[pi].operations[oi]);
                } else {
                    if found {
                        let pi = pidx as int;
                        let oi = paths.deep_view()[pi].operations.len() - 1;
                        assert(paths.deep_view()[pi].template == entries@[j].key().1);
                        assert(paths.deep_view()[pi].operations[oi].method == entries@[
                            j].key().0);
                    } else {
                        let pi = paths.deep_view().len() - 1;
                        assert(paths.deep_view()[pi].template == entries@[j].key().1);
                        assert(paths.deep_view()[pi].operations[0].method == entries@[
                            j].key().0);
                    }
                }
            }
        }
        i = i + 1;
    }
    proof {
        crate::store::lemma_store_map_contains(entries@, (Method::Get, Seq::empty()));
        assert forall|k: (Method, Seq<char>)| st.dyn_map().contains_key(k) implies
            spec_doc_has_key(paths.deep_view(), k) by {
            crate::store::lemma_store_map_contains(entries@, k);
            let j = choose|j: int| 0 <= j < entries@.len() && (#[trigger] entries@[j].key()) == k;
            assert(spec_doc_has_key(paths.deep_view(), entries@[j].key()));
        }
    }
    let title = String::from_str("Mock API");
    let description = String::from_str("Exported from Rust-Mock server");
    let version = String::from_str("1.0.0");
    ApiDocument { title, description, version, paths }
}

/// A found operation sits in the sequence and carries the sought method.
pub proof fn lemma_find_op_some(ops: Seq<ApiOperationModel>, m: Method)
    requires
        spec_find_op(ops, m) is Some,
    ensures
        exists|oi: int|
            0 <= oi < ops.len() && (#[trigger] ops[oi]) == spec_find_op(ops, m)->0,
        (spec_find_op(ops, m)->0).method == m,
    decreases ops.len(),
{
    if ops.len() > 0 {
        if ops[0].method == m {
            assert(ops[0] == spec_find_op(ops, m)->0);
        } else {
            lemma_find_op_some(ops.skip(1), m);
            let oi = choose|oi: int|
                0 <= oi < ops.skip(1).len() && (#[trigger] ops.skip(1)[oi]) == spec_find_op(
                    ops.skip(1),
                    m,
                )->0;
            assert(ops[oi + 1] == ops.skip(1)[oi]);
        }
    }
}

/// The scan finds an operation exactly when one with the method exists.
pub proof fn lemma_find_op_exists(ops: Seq<ApiOperationModel>, m: Method)
    ensures
        spec_find_op(ops, m) is Some <==> exists|oi: int|
            0 <= oi < ops.len() && (#[trigger] ops[oi].method) == m,
    decreases ops.len(),
{
    if ops.len() > 0 {
        lemma_find_op_exists(ops.skip(1), m);
        if ops[0].method == m {
            assert(ops[0].method == m);
        } else if spec_find_op(ops, m) is Some {
            let oi = choose|oi: int|
                0 <= oi < ops.skip(1).len() && (#[trigger] ops.skip(1)[oi].method) == m;
            assert(ops[oi + 1].method == m);
        } else {
            assert forall|oi: int| 0 <= oi < ops.len() implies (#[trigger] ops[oi].method)
                != m by {
                if oi > 0 {
                    assert(ops.skip(1)[oi - 1] == ops[oi]);
                }
            }
        }
    }
}

/// How many operations a document defines, over all paths.
pub open spec fn spec_total_ops(paths: Seq<ApiPathModel>) -> nat
    decreases paths.len(),
{
    if paths.len() == 0 {
        0
    } else {
        paths[0].operations.len() + spec_total_ops(paths.skip(1))
    }
}

proof fn lemma_count_five(ops: Seq<ApiOperationModel>)
    requires
        forall|x: int, y: int|
            0 <= x < y < ops.len() ==> (#[trigger] ops[x].method) != (#[trigger] ops[y].method),
    ensures
        ({
            let c: int = (if spec_find_op(ops, Method::Get) is Some { 1int } else { 0int })
                + (if spec_find_op(ops, Method::Post) is Some { 1int } else { 0int })
                + (if spec_find_op(ops, Method::Put) is Some { 1int } else { 0int })
                + (if spec_find_op(ops, Method::Patch) is Some { 1int } else { 0int })
                + (if spec_find_op(ops, Method::Delete) is Some { 1int } else { 0int });
            c == ops.len()
        }),
    decreases ops.len(),
{
    if ops.len() == 0 {
    } else {
        let rest = ops.skip(1);
        assert forall|x: int, y: int|
            0 <= x < y < rest.len() implies (#[trigger] rest[x].method) != (
        #[trigger] rest[y].method) by {
            assert(rest[x] == ops[x + 1]);
            assert(rest[y] == ops[y + 1]);
        }
        lemma_count_five(rest);
        // the head's method is absent from the rest
        assert forall|oi: int| 0 <= oi < rest.len() implies (#[trigger] rest[oi].method)
            != ops[0].method by {
            assert(rest[oi] == ops[oi + 1]);
        }
        lemma_find_op_exists(rest, ops[0].method);
        assert(spec_find_op(rest, ops[0].method) is None);
        assert(spec_find_op(ops, ops[0].method) is Some);
    }
}

/// An import of a well-formed document reports one endpoint per operation
/// the document defines: its count equals the number of (path, method)
/// pairs with an operation.
pub proof fn lemma_import_count_is_operation_count(d: ApiDocumentModel)
    requires
        doc_wf(d),
    ensures
        spec_import_list(d.paths).len() == spec_total_ops(d.paths),
{
    lemma_import_count_paths(d.paths);
}

proof fn lemma_import_count_paths(paths: Seq<ApiPathModel>)
    requires
        forall|i: int| 0 <= i < paths.len() ==> ops_wf((#[trigger] paths[i]).operations),
    ensures
        spec_import_list(paths).len() == spec_total_ops(paths),
    decreases paths.len(),
{
    if paths.len() > 0 {
        assert forall|i: int| 0 <= i < paths.skip(1).len() implies ops_wf(
            (#[trigger] paths.skip(1)[i]).operations,
        ) by {
            assert(paths.skip(1)[i] == paths[i + 1]);
        }
        lemma_import_count_paths(paths.skip(1));
        assert(ops_wf(paths[0].operations));
        lemma_count_five(paths[0].operations);
    }
}

/// The operation a document defines under a key: in the first path whose
/// template is the key's path.
pub open spec fn spec_doc_key_op(paths: Seq<ApiPathModel>, k: (Method, Seq<char>)) -> Option<
    ApiOperationModel,
>
    decreases paths.len(),
{
    if paths.len() == 0 {
        None
    } else if paths[0].template == k.1 && spec_find_op(paths[0].operations, k.0) is Some {
        spec_find_op(paths[0].operations, k.0)
    } else {
        spec_doc_key_op(paths.skip(1), k)
    }
}

proof fn lemma_doc_key_op_iff_has_key(paths: Seq<ApiPathModel>, k: (Method, Seq<char>))
    ensures
        spec_doc_key_op(paths, k) is Some <==> spec_doc_has_key(paths, k),
    decreases paths.len(),
{
    if paths.len() > 0 {
        lemma_doc_key_op_iff_has_key(paths.skip(1), k);
        lemma_find_op_exists(paths[0].operations, k.0);
        if paths[0].template == k.1 && spec_find_op(paths[0].operations, k.0) is Some {
            let oi = choose|oi: int|
                0 <= oi < paths[0].operations.len() && (#[trigger] paths[0].operations[
                    oi].method) == k.0;
            assert(0 <= 0 < paths.len() && 0 <= oi < paths[0].operations.len() && paths[
                0].template == k.1 && paths[0].operations[oi].method == k.0);
        } else if spec_doc_has_key(paths.skip(1), k) {
            let (pi, oi): (int, int) = choose|pi: int, oi: int|
                0 <= pi < paths.skip(1).len() && 0 <= oi < (#[trigger] paths.skip(1)[
                    pi].operations).len() && paths.skip(1)[pi].template == k.1 && (
                #[trigger] paths.skip(1)[pi].operations[oi]).method == k.0;
            assert(paths[pi + 1] == paths.skip(1)[pi]);
        } else if spec_doc_has_key(paths, k) {
            let (pi, oi): (int, int) = choose|pi: int, oi: int|
                0 <= pi < paths.len() && 0 <= oi < (#[trigger] paths[pi].operations).len()
                    && paths[pi].template == k.1 && (#[trigger] paths[pi].operations[oi]).method
                    == k.0;
            if pi == 0 {
                assert(spec_find_op(paths[0].operations, k.0) is Some);
            } else {
                assert(paths.skip(1)[pi - 1] == paths[pi]);
                assert(spec_doc_has_key(paths.skip(1), k));
            }
        }
    }
}

proof fn lemma_doc_key_op_found(paths: Seq<ApiPathModel>, k: (Method, Seq<char>))
    requires
        spec_doc_key_op(paths, k) is Some,
    ensures
        exists|pi: int, oi: int|
            0 <= pi < paths.len() && 0 <= oi < (#[trigger] paths[pi].operations).len() && paths[
                pi].template == k.1 && (#[trigger] paths[pi].operations[oi]) == spec_doc_key_op(
                paths,
                k,
            )->0,
        (spec_doc_key_op(paths, k)->0).method == k.0,
    decreases paths.len(),
{
    if paths[0].template == k.1 && spec_find_op(paths[0].operations, k.0) is Some {
        lemma_find_op_some(paths[0].operations, k.0);
        let oi = choose|oi: int|
            0 <= oi < paths[0].operations.len() && (#[trigger] paths[0].operations[oi])
                == spec_find_op(paths[0].operations, k.0)->0;
        assert(0 <= 0 < paths.len() && 0 <= oi < paths[0].operations.len() && paths[0].template
            == k.1 && paths[0].operations[oi] == spec_doc_key_op(paths, k)->0);
    } else {
        lemma_doc_key_op_found(paths.skip(1), k);
        let (pi, oi): (int, int) = choose|pi: int, oi: int|
            0 <= pi < paths.skip(1).len() && 0 <= oi < (#[trigger] paths.skip(1)[
                pi].operations).len() && paths.skip(1)[pi].template == k.1 && (#[trigger] paths.skip(
                1,
            )[pi].operations[oi]) == spec_doc_key_op(paths.skip(1), k)->0;
        assert(paths[pi + 1] == paths.skip(1)[pi]);
    }
}

/// Re-importing an exported operation reproduces the endpoint's status and
/// response, for the statuses the import preference can see.
proof fn lemma_reimport_endpoint(m: Method, tpl: Seq<char>, ep: EndpointModel)
    requires
        ep.status == 200 || ep.status == 201 || ep.status == 202 || ep.status == 204,
    ensures
        spec_import_endpoint(spec_export_op(m, tpl, ep)).status == ep.status,
        spec_import_endpoint(spec_export_op(m, tpl, ep)).response == ep.response,
{
    let op = spec_export_op(m, tpl, ep);
    let rs = op.responses;
    assert(rs.len() == 1);
    assert(rs[0].status == ep.status);
    assert forall|s: u16| spec_has_status(rs, s) implies s == ep.status by {
        let i = choose|i: int| 0 <= i < rs.len() && (#[trigger] rs[i].status) == s;
    }
    assert(spec_has_status(rs, ep.status));
    assert(spec_preferred_status(rs) == ep.status) by {
        if ep.status == 201 {
        } else if ep.status == 204 {
            assert(!spec_has_status(rs, 201));
        } else if ep.status == 202 {
            assert(!spec_has_status(rs, 201));
            assert(!spec_has_status(rs, 204));
        } else {
            assert(!spec_has_status(rs, 201));
            assert(!spec_has_status(rs, 204));
            assert(!spec_has_status(rs, 202));
        }
    }
    assert(spec_response_for(rs, ep.status) == Some(rs[0]));
    assert(spec_example_for_status(rs, spec_preferred_status(rs)) == Some(ep.response));
}

proof fn lemma_import_path_map_props(
    m0: Map<(Method, Seq<char>), EndpointModel>,
    p: ApiPathModel,
    k: (Method, Seq<char>),
)
    ensures
        ({
            let m1 = spec_import_path_map(m0, p);
            if p.template == k.1 && spec_find_op(p.operations, k.0) is Some {
                m1.contains_key(k) && m1[k] == spec_import_endpoint(
                    spec_find_op(p.operations, k.0)->0,
                )
            } else {
                m1.contains_key(k) == m0.contains_key(k) && (m0.contains_key(k) ==> m1[k]
                    == m0[k])
            }
        }),
{
}

proof fn lemma_import_map_props(
    m0: Map<(Method, Seq<char>), EndpointModel>,
    paths: Seq<ApiPathModel>,
    k: (Method, Seq<char>),
)
    requires
        forall|i: int, j: int|
            0 <= i < j < paths.len() ==> (#[trigger] paths[i].template) != (
            #[trigger] paths[j].template),
    ensures
        ({
            let m1 = spec_import_map(m0, paths);
            match spec_doc_key_op(paths, k) {
                Some(op) => m1.contains_key(k) && m1[k] == spec_import_endpoint(op),
                None => m1.contains_key(k) == m0.contains_key(k) && (m0.contains_key(k) ==> m1[k]
                    == m0[k]),
            }
        }),
    decreases paths.len(),
{
    if paths.len() == 0 {
    } else {
        let rest = paths.skip(1);
        assert forall|i: int, j: int|
            0 <= i < j < rest.len() implies (#[trigger] rest[i].template) != (
        #[trigger] rest[j].template) by {
            assert(rest[i] == paths[i + 1]);
            assert(rest[j] == paths[j + 1]);
        }
        let mp = spec_import_path_map(m0, paths[0]);
        lemma_import_path_map_props(m0, paths[0], k);
        lemma_import_map_props(mp, rest, k);
        if paths[0].template == k.1 && spec_find_op(paths[0].operations, k.0) is Some {
            // no later path has this template, so the entry survives
            assert(spec_doc_key_op(rest, k) is None) by {
                lemma_doc_key_op_iff_has_key(rest, k);
                if spec_doc_has_key(rest, k) {
                    let (pi, oi): (int, int) = choose|pi: int, oi: int|
                        0 <= pi < rest.len() && 0 <= oi < (#[trigger] rest[
                            pi].operations).len() && rest[pi].template == k.1 && (#[trigger] rest[
                            pi].operations[oi]).method == k.0;
                    assert(rest[pi] == paths[pi + 1]);
                    assert(paths[pi + 1].template != paths[0].template);
                }
            }
        }
    }
}

/// Exporting a registry and importing the result into an empty registry
/// reproduces it, up to the regenerated summaries and ids: the same keys
/// are present, and under each key the status and the response are the
/// ones that were stored. This holds when every stored status is one the
/// import preference recognises (200, 201, 202 or 204); an endpoint stored
/// under any other status comes back with the fallback data instead.
pub proof fn lemma_export_import_round_trip(
    m: Map<(Method, Seq<char>), EndpointModel>,
    paths: Seq<ApiPathModel>,
)
    requires
        // what export guarantees of its output: every operation is the
        // export of the registered endpoint under its key
        forall|pi: int, oi: int|
            0 <= pi < paths.len() && 0 <= oi < (#[trigger] paths[pi].operations).len() ==> {
                let tpl = paths[pi].template;
                let op = #[trigger] paths[pi].operations[oi];
                &&& m.contains_key((op.method, tpl))
                &&& op == spec_export_op(op.method, tpl, m[(op.method, tpl)])
            },
        // and every registered key is exported
        forall|k: (Method, Seq<char>)| m.contains_key(k) ==> spec_doc_has_key(paths, k),
        forall|pi: int, pj: int|
            0 <= pi < pj < paths.len() ==> (#[trigger] paths[pi].template) != (
            #[trigger] paths[pj].template),
        // every stored status is one the import preference recognises
        forall|k: (Method, Seq<char>)|
            m.contains_key(k) ==> ((#[trigger] m[k]).status == 200 || m[k].status == 201
                || m[k].status == 202 || m[k].status == 204),
    ensures
        ({
            let m2 = spec_import_map(
                Map::<(Method, Seq<char>), EndpointModel>::empty(),
                paths,
            );
            &&& forall|k: (Method, Seq<char>)|
                m2.contains_key(k) <==> (#[trigger] m.contains_key(k))
            &&& forall|k: (Method, Seq<char>)|
                m.contains_key(k) ==> (#[trigger] m2[k]).status == m[k].status && m2[k].response
                    == m[k].response
        }),
{
    let empty = Map::<(Method, Seq<char>), EndpointModel>::empty();
    let m2 = spec_import_map(empty, paths);
    assert forall|k: (Method, Seq<char>)|
        m2.contains_key(k) <==> (#[trigger] m.contains_key(k)) by {
        lemma_import_map_props(empty, paths, k);
        lemma_doc_key_op_iff_has_key(paths, k);
        if m.contains_key(k) {
            assert(spec_doc_has_key(paths, k));
        }
        if m2.contains_key(k) {
            assert(spec_doc_key_op(paths, k) is Some);
            lemma_doc_key_op_found(paths, k);
            let (pi, oi): (int, int) = choose|pi: int, oi: int|
                0 <= pi < paths.len() && 0 <= oi < (#[trigger] paths[pi].operations).len()
                    && paths[pi].template == k.1 && (#[trigger] paths[pi].operations[oi])
                    == spec_doc_key_op(paths, k)->0;
            assert(m.contains_key((paths[pi].operations[oi].method, paths[pi].template)));
        }
    }
    assert forall|k: (Method, Seq<char>)| m.contains_key(k) implies (#[trigger] m2[k]).status
        == m[k].status && m2[k].response == m[k].response by {
        lemma_import_map_props(empty, paths, k);
        lemma_doc_key_op_iff_has_key(paths, k);
        assert(spec_doc_has_key(paths, k));
        lemma_doc_key_op_found(paths, k);
        let op = spec_doc_key_op(paths, k)->0;
        let (pi, oi): (int, int) = choose|pi: int, oi: int|
            0 <= pi < paths.len() && 0 <= oi < (#[trigger] paths[pi].operations).len() && paths[
                pi].template == k.1 && (#[trigger] paths[pi].operations[oi]) == spec_doc_key_op(
                paths,
                k,
            )->0;
        assert(op == spec_export_op(op.method, paths[pi].template, m[(op.method, paths[
            pi].template)]));
        assert((op.method, paths[pi].template) == k);
        lemma_reimport_endpoint(k.0, k.1, m[k]);
    }
}

} // verus!

