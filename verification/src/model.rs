//! The data model: HTTP methods, dynamic endpoints and their registry
//! entries, the management-request records, reply shapes, and the trace
//! entry written for every handled request.

use vstd::prelude::*;
use crate::text::{upper_seq, upper_string};

verus! {

/// The closed set of methods an endpoint can be registered under.
#[derive(Clone, Copy, PartialEq, Eq, Structural, Debug)]
pub enum Method {
    Get,
    Post,
    Put,
    Patch,
    Delete,
}

/// The canonical upper-case token of a method.
pub open spec fn spec_method_token(m: Method) -> Seq<char> {
    match m {
        Method::Get => seq!['G', 'E', 'T'],
        Method::Post => seq!['P', 'O', 'S', 'T'],
        Method::Put => seq!['P', 'U', 'T'],
        Method::Patch => seq!['P', 'A', 'T', 'C', 'H'],
        Method::Delete => seq!['D', 'E', 'L', 'E', 'T', 'E'],
    }
}

/// The lower-case spelling of a method, as used in exported operation ids.
pub open spec fn spec_method_lower(m: Method) -> Seq<char> {
    match m {
        Method::Get => seq!['g', 'e', 't'],
        Method::Post => seq!['p', 'o', 's', 't'],
        Method::Put => seq!['p', 'u', 't'],
        Method::Patch => seq!['p', 'a', 't', 'c', 'h'],
        Method::Delete => seq!['d', 'e', 'l', 'e', 't', 'e'],
    }
}

/// Case-insensitive reading of a method token: the method whose canonical
/// token is the upper-cased input, if there is one.
pub open spec fn spec_parse_method(s: Seq<char>) -> Option<Method> {
    if upper_seq(s) == spec_method_token(Method::Get) {
        Some(Method::Get)
    } else if upper_seq(s) == spec_method_token(Method::Post) {
        Some(Method::Post)
    } else if upper_seq(s) == spec_method_token(Method::Put) {
        Some(Method::Put)
    } else if upper_seq(s) == spec_method_token(Method::Patch) {
        Some(Method::Patch)
    } else if upper_seq(s) == spec_method_token(Method::Delete) {
        Some(Method::Delete)
    } else {
        None
    }
}

/// Method tokens are read without regard to case: two spellings that agree
/// up to ASCII case name the same method, so `get` and `GET` address the
/// same registry key.
pub proof fn lemma_method_case_insensitive(a: Seq<char>, b: Seq<char>)
    requires
        upper_seq(a) == upper_seq(b),
    ensures
        spec_parse_method(a) == spec_parse_method(b),
{
}

/// Whether two string slices hold the same characters.
pub fn str_eq(a: &str, b: &str) -> (r: bool)
    ensures
        r == (a@ == b@),
{
    let na = a.unicode_len();
    let nb = b.unicode_len();
    if na != nb {
        proof {
            assert(a@ != b@);
        }
        return false;
    }
    let mut i: usize = 0;
    while i < na
        invariant
            na == a@.len(),
            na == b@.len(),
            i <= na,
            forall|x: int| 0 <= x < i ==> a@[x] == b@[x],
        decreases na - i,
    {
        if a.get_char(i) != b.get_char(i) {
            proof {
                assert(a@ != b@);
            }
            return false;
        }
        i = i + 1;
    }
    proof {
        assert(a@ =~= b@);
    }
    true
}

/// The canonical upper-case token of a method, as a string.
pub fn method_name(m: Method) -> (r: String)
    ensures
        r@ == spec_method_token(m),
{
    match m {
        Method::Get => {
            let r = String::from_str("GET");
            proof {
                reveal_strlit("GET");
                assert(r@ =~= spec_method_token(Method::Get));
            }
            r
        },
        Method::Post => {
            let r = String::from_str("POST");
            proof {
                reveal_strlit("POST");
                assert(r@ =~= spec_method_token(Method::Post));
            }
            r
        },
        Method::Put => {
            let r = String::from_str("PUT");
            proof {
                reveal_strlit("PUT");
                assert(r@ =~= spec_method_token(Method::Put));
            }
            r
        },
        Method::Patch => {
            let r = String::from_str("PATCH");
            proof {
                reveal_strlit("PATCH");
                assert(r@ =~= spec_method_token(Method::Patch));
            }
            r
        },
        Method::Delete => {
            let r = String::from_str("DELETE");
            proof {
                reveal_strlit("DELETE");
                assert(r@ =~= spec_method_token(Method::Delete));
            }
            r
        },
    }
}

/// The lower-case spelling of a method, as a string.
pub fn method_lower_name(m: Method) -> (r: String)
    ensures
        r@ == spec_method_lower(m),
{
    match m {
        Method::Get => {
            let r = String::from_str("get");
            proof {
                reveal_strlit("get");
                assert(r@ =~= spec_method_lower(Method::Get));
            }
            r
        },
        Method::Post => {
            let r = String::from_str("post");
            proof {
                reveal_strlit("post");
                assert(r@ =~= spec_method_lower(Method::Post));
            }
            r
        },
        Method::Put => {
            let r = String::from_str("put");
            proof {
                reveal_strlit("put");
                assert(r@ =~= spec_method_lower(Method::Put));
            }
            r
        },
        Method::Patch => {
            let r = String::from_str("patch");
            proof {
                reveal_strlit("patch");
                assert(r@ =~= spec_method_lower(Method::Patch));
            }
            r
        },
        Method::Delete => {
            let r = String::from_str("delete");
            proof {
                reveal_strlit("delete");
                assert(r@ =~= spec_method_lower(Method::Delete));
            }
            r
        },
    }
}

/// Case-insensitive reading of a method token.
pub fn parse_method(s: &str) -> (r: Option<Method>)
    ensures
        r == spec_parse_method(s@),
{
    let u = upper_string(s);
    proof {
        reveal_strlit("GET");
        reveal_strlit("POST");
        reveal_strlit("PUT");
        reveal_strlit("PATCH");
        reveal_strlit("DELETE");
        assert("GET"@ =~= spec_method_token(Method::Get));
        assert("POST"@ =~= spec_method_token(Method::Post));
        assert("PUT"@ =~= spec_method_token(Method::Put));
        assert("PATCH"@ =~= spec_method_token(Method::Patch));
        assert("DELETE"@ =~= spec_method_token(Method::Delete));
    }
    if str_eq(u.as_str(), "GET") {
        Some(Method::Get)
    } else if str_eq(u.as_str(), "POST") {
        Some(Method::Post)
    } else if str_eq(u.as_str(), "PUT") {
        Some(Method::Put)
    } else if str_eq(u.as_str(), "PATCH") {
        Some(Method::Patch)
    } else if str_eq(u.as_str(), "DELETE") {
        Some(Method::Delete)
    } else {
        None
    }
}

/// A registered endpoint: the canned response, its status, optional extra
/// response headers, and an optional per-endpoint upstream URL. When
/// `proxy_url` is set the endpoint forwards instead of answering from the
/// canned data, which is kept only so that export can round-trip it.
pub struct DynamicEndpoint {
    pub response: serde_json::Value,
    pub status: u16,
    pub headers: Option<Vec<(String, String)>>,
    pub proxy_url: Option<String>,
}

/// The mathematical shape of an endpoint.
#[verifier::ext_equal]
pub ghost struct EndpointModel {
    pub response: serde_json::Value,
    pub status: u16,
    pub headers: Option<Seq<(Seq<char>, Seq<char>)>>,
    pub proxy_url: Option<Seq<char>>,
}

impl View for DynamicEndpoint {
    type V = EndpointModel;

    open spec fn view(&self) -> EndpointModel {
        EndpointModel {
            response: self.response,
            status: self.status,
            headers: self.headers.deep_view(),
            proxy_url: match self.proxy_url {
                Some(ref u) => Some(u@),
                None => None,
            },
        }
    }
}

/// A copy of a vector of header pairs, equal to the original.
pub fn clone_headers(h: &Vec<(String, String)>) -> (r: Vec<(String, String)>)
    ensures
        r@ == h@,
{
    let mut r: Vec<(String, String)> = Vec::new();
    let n = h.len();
    let mut i: usize = 0;
    while i < n
        invariant
            n == h@.len(),
            i <= n,
            r@.len() == i,
            forall|x: int| 0 <= x < i ==> #[trigger] r@[x] == h@[x],
        decreases n - i,
    {
        let pair = &h[i];
        let c0 = pair.0.clone();
        let c1 = pair.1.clone();
        r.push((c0, c1));
        i = i + 1;
    }
    proof {
        assert(r@ =~= h@);
    }
    r
}

impl DynamicEndpoint {
    /// A copy with the same model.
    pub fn duplicate(&self) -> (r: Self)
        ensures
            r@ == self@,
    {
        DynamicEndpoint {
            response: self.response.clone(),
            status: self.status,
            headers: match &self.headers {
                Some(h) => Some(clone_headers(h)),
                None => None,
            },
            proxy_url: match &self.proxy_url {
                Some(u) => Some(u.clone()),
                None => None,
            },
        }
    }
}

/// One entry of the dynamic registry.
pub struct StoreEntry {
    pub method: Method,
    pub path: String,
    pub endpoint: DynamicEndpoint,
}

impl StoreEntry {
    /// The entry's key in the registry.
    pub open spec fn key(&self) -> (Method, Seq<char>) {
        (self.method, self.path@)
    }
}

/// The body of a management request that registers an endpoint.
pub struct EndpointConfig {
    pub method: String,
    pub path: String,
    pub response: serde_json::Value,
    pub status: Option<u16>,
    pub headers: Option<Vec<(String, String)>>,
    pub proxy_url: Option<String>,
}

/// The body of a management request that removes an endpoint.
pub struct RemoveConfig {
    pub method: String,
    pub path: String,
}

/// The body of a management request that sets the default proxy URL.
pub struct ProxyConfig {
    pub url: String,
}

/// What a reply carries as its body.
pub enum ReplyBody {
    /// No body at all.
    Empty,
    /// A JSON document.
    Json(serde_json::Value),
    /// The structured body of an upstream-failure reply: rendered as a JSON
    /// object with an `error` and a `details` field.
    ErrorMessage { error: String, details: String },
}

/// A reply to one handled request: what goes back over the wire.
pub struct HttpReply {
    pub status: u16,
    pub headers: Vec<(String, String)>,
    pub body: ReplyBody,
}

/// The trace entry recorded for one handled request.
pub struct RequestLog {
    pub method: String,
    pub path: String,
    pub request_headers: Vec<(String, String)>,
    pub query: String,
    pub request_body: Option<serde_json::Value>,
    pub status: u16,
    pub response_body: ReplyBody,
    pub response_headers: Vec<(String, String)>,
    pub timestamp: String,
    pub matched_endpoint: Option<String>,
    pub proxied_to: Option<String>,
}

/// A status a reply may legally carry; anything outside is coerced to 500
/// before a reply is built.
pub open spec fn valid_status(s: u16) -> bool {
    100 <= s <= 599
}

/// The status actually sent for a stored one: out-of-range stored statuses
/// become an internal server error rather than a malformed reply.
pub open spec fn spec_coerce_status(s: u16) -> u16 {
    if valid_status(s) {
        s
    } else {
        500
    }
}

pub fn coerce_status(s: u16) -> (r: u16)
    ensures
        r == spec_coerce_status(s),
{
    if 100 <= s && s <= 599 {
        s
    } else {
        500
    }
}

} // verus!
