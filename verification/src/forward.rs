//! The rules of upstream forwarding: how the outbound URL is built, which
//! request headers are forwarded, which method the outbound call uses, and
//! how an upstream body is read. The network call itself is the caller's
//! business; it receives these plain values and hands back the outcome.

use vstd::prelude::*;
use vstd::string::StrSliceExecFns;
use crate::text::{lower_seq, chars_of, string_from_chars};
use crate::model::str_eq;
use crate::json::{parsed_json, parse_json_bytes};

verus! {

/// The hop-by-hop headers never forwarded upstream, compared without
/// regard to ASCII case: host, connection, transfer-encoding, and
/// accept-encoding (the last because the forwarder does no content-coding
/// negotiation and the response must stay readable as JSON).
pub open spec fn is_hop_by_hop(name: Seq<char>) -> bool {
    ||| lower_seq(name) == "host"@
    ||| lower_seq(name) == "connection"@
    ||| lower_seq(name) == "transfer-encoding"@
    ||| lower_seq(name) == "accept-encoding"@
}

pub fn is_hop_by_hop_name(name: &str) -> (r: bool)
    ensures
        r == is_hop_by_hop(name@),
{
    let l = crate::text::lower_string(name);
    str_eq(l.as_str(), "host") || str_eq(l.as_str(), "connection") || str_eq(
        l.as_str(),
        "transfer-encoding",
    ) || str_eq(l.as_str(), "accept-encoding")
}

/// Whether a header survives the hop-by-hop filter.
pub open spec fn keep_header(q: (String, String)) -> bool {
    !is_hop_by_hop(q.0@)
}

/// The headers that survive the filter, in order.
pub open spec fn spec_filtered_headers(hs: Seq<(String, String)>) -> Seq<(String, String)> {
    hs.filter(|q: (String, String)| keep_header(q))
}

/// The inbound headers that are forwarded upstream: all of them, in order,
/// except the hop-by-hop ones.
pub fn filter_request_headers(headers: &Vec<(String, String)>) -> (r: Vec<(String, String)>)
    ensures
        r@ == spec_filtered_headers(headers@),
{
    broadcast use vstd::seq_lib::group_seq_properties;
    broadcast use Seq::lemma_filter_push;

    let mut r: Vec<(String, String)> = Vec::new();
    let n = headers.len();
    let mut i: usize = 0;
    while i < n
        invariant
            n == headers@.len(),
            i <= n,
            r@ == spec_filtered_headers(headers@.take(i as int)),
        decreases n - i,
    {
        let ghost iold = i as int;
        let ghost elem = headers@[iold];
        let pair = &headers[i];
        proof {
            assert(headers@.take(iold + 1) =~= headers@.take(iold).push(elem));
            assert(headers@.take(iold).push(elem).filter(|q: (String, String)| keep_header(q))
                == if keep_header(elem) {
                    headers@.take(iold).filter(|q: (String, String)| keep_header(q)).push(elem)
                } else {
                    headers@.take(iold).filter(|q: (String, String)| keep_header(q))
                }) by {
                headers@.take(iold).lemma_filter_push(
                    elem,
                    |q: (String, String)| keep_header(q),
                );
            }
        }
        if !is_hop_by_hop_name(pair.0.as_str()) {
            assert(keep_header(elem));
            let c0 = pair.0.clone();
            let c1 = pair.1.clone();
            proof {
                assert((c0, c1) == elem);
            }
            r.push((c0, c1));
            assert(r@ == spec_filtered_headers(headers@.take(iold + 1)));
        } else {
            assert(!keep_header(elem));
            assert(r@ == spec_filtered_headers(headers@.take(iold + 1)));
        }
        i = i + 1;
    }
    proof {
        assert(headers@.take(n as int) =~= headers@);
    }
    r
}

/// The base URL with one trailing slash removed, if it has one.
pub open spec fn spec_strip_base(b: Seq<char>) -> Seq<char> {
    if b.len() > 0 && b.last() == '/' {
        b.drop_last()
    } else {
        b
    }
}

/// The URL of the outbound call: the base without its trailing slash, then
/// the request path verbatim, then `?` and the query string when the query
/// is non-empty.
pub open spec fn spec_upstream_url(base: Seq<char>, path: Seq<char>, query: Seq<char>) -> Seq<
    char,
> {
    spec_strip_base(base) + path + (if query.len() > 0 {
        seq!['?'] + query
    } else {
        Seq::empty()
    })
}

fn push_chars(out: &mut Vec<char>, s: &Vec<char>)
    ensures
        final(out)@ == old(out)@ + s@,
{
    let n = s.len();
    let mut i: usize = 0;
    while i < n
        invariant
            n == s@.len(),
            i <= n,
            out@ == old(out)@ + s@.take(i as int),
        decreases n - i,
    {
        out.push(s[i]);
        i = i + 1;
        proof {
            assert(out@ =~= old(out)@ + s@.take(i as int));
        }
    }
    proof {
        assert(out@ =~= old(out)@ + s@);
    }
}

/// Build the URL of the outbound call.
pub fn build_upstream_url(base: &str, path: &str, query: &str) -> (r: String)
    ensures
        r@ == spec_upstream_url(base@, path@, query@),
{
    let bc = chars_of(base);
    let pc = chars_of(path);
    let qc = chars_of(query);
    let mut out: Vec<char> = Vec::new();
    let blen = bc.len();
    if blen > 0 && bc[blen - 1] == '/' {
        let mut head: Vec<char> = Vec::new();
        let mut i: usize = 0;
        while i < blen - 1
            invariant
                blen == bc@.len(),
                blen > 0,
                i <= blen - 1,
                head@ == bc@.take(i as int),
            decreases blen - i,
        {
            head.push(bc[i]);
            i = i + 1;
            proof {
                assert(head@ =~= bc@.take(i as int));
            }
        }
        proof {
            assert(bc@.take(blen - 1) =~= bc@.drop_last());
        }
        push_chars(&mut out, &head);
    } else {
        push_chars(&mut out, &bc);
    }
    assert(out@ == spec_strip_base(base@));
    push_chars(&mut out, &pc);
    if qc.len() > 0 {
        out.push('?');
        push_chars(&mut out, &qc);
        proof {
            assert(out@ =~= spec_upstream_url(base@, path@, query@));
        }
    } else {
        proof {
            assert(out@ =~= spec_upstream_url(base@, path@, query@));
        }
    }
    string_from_chars(out)
}

/// The method of the outbound call: the methods GET, POST, PUT, PATCH,
/// DELETE, HEAD and OPTIONS are forwarded as themselves, and any other
/// inbound method is forwarded as GET.
#[derive(Clone, Copy, PartialEq, Eq, Structural, Debug)]
pub enum ForwardMethod {
    Get,
    Post,
    Put,
    Patch,
    Delete,
    Head,
    Options,
}

/// Which method the forwarder uses for an upper-cased inbound token.
pub open spec fn spec_forward_method(m: Seq<char>) -> ForwardMethod {
    if m == "POST"@ {
        ForwardMethod::Post
    } else if m == "PUT"@ {
        ForwardMethod::Put
    } else if m == "PATCH"@ {
        ForwardMethod::Patch
    } else if m == "DELETE"@ {
        ForwardMethod::Delete
    } else if m == "HEAD"@ {
        ForwardMethod::Head
    } else if m == "OPTIONS"@ {
        ForwardMethod::Options
    } else {
        ForwardMethod::Get
    }
}

pub fn forward_method_of(m: &str) -> (r: ForwardMethod)
    ensures
        r == spec_forward_method(m@),
{
    if str_eq(m, "POST") {
        ForwardMethod::Post
    } else if str_eq(m, "PUT") {
        ForwardMethod::Put
    } else if str_eq(m, "PATCH") {
        ForwardMethod::Patch
    } else if str_eq(m, "DELETE") {
        ForwardMethod::Delete
    } else if str_eq(m, "HEAD") {
        ForwardMethod::Head
    } else if str_eq(m, "OPTIONS") {
        ForwardMethod::Options
    } else {
        ForwardMethod::Get
    }
}

/// What an upstream reply's body means: replies with status 204 or 304
/// carry no body; otherwise an empty or non-JSON body reads as absent and
/// a JSON body reads as the parsed value.
pub open spec fn spec_upstream_body(status: u16, bytes: Seq<u8>) -> Option<serde_json::Value> {
    if status == 204 || status == 304 {
        None
    } else if bytes.len() == 0 {
        None
    } else {
        parsed_json(bytes)
    }
}

/// Read an upstream reply body under the body-semantics rules.
pub fn upstream_response_body(status: u16, bytes: &Vec<u8>) -> (r: Option<serde_json::Value>)
    ensures
        r == spec_upstream_body(status, bytes@),
{
    if status == 204 || status == 304 {
        None
    } else if bytes.len() == 0 {
        None
    } else {
        parse_json_bytes(bytes)
    }
}

/// What came back from one outbound call: the upstream status, its body
/// under the body-semantics rules, and its response headers verbatim.
pub struct UpstreamResponse {
    pub status: u16,
    pub body: Option<serde_json::Value>,
    pub headers: Vec<(String, String)>,
}

} // verus!
