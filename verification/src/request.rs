//! A generic request to an endpoint of the Matrix client-server API: method,
//! endpoint, query parameters and an optional body, and the step that turns
//! it into a transport-ready request with its URL assembled and its JSON body
//! attached unless that body is the empty object.

use vstd::prelude::*;
use vstd::string::StringExecFns;
use crate::encoding::percent_encoded_of;
use crate::errors::MatrixError;
use crate::json::json_object_of;
use crate::params::{map_of, pair_views, StrMap};
use crate::uri::{has_scheme, has_scheme_prefix, parse_uri, uri_parse_ok};

verus! {

/// HTTP verb of a request.
#[derive(Clone, Copy, PartialEq, Eq, Structural, Debug)]
pub enum Method {
    Get,
    Post,
    Put,
    Delete,
    Patch,
    Head,
    Options,
}

/// What the external API client hands this crate: its base URL and the
/// access token injected into every query string.
pub struct ClientHandle {
    /// Base URL of the homeserver, e.g. `https://example.org`.
    pub url: String,
    /// Bearer credential, sent verbatim as the `access_token` parameter.
    pub access_token: String,
}

/// A request ready for the transport: everything the external client needs
/// to send it.
pub struct TransportRequest {
    /// The HTTP verb.
    pub method: Method,
    /// The full URL, base, API prefix, endpoint and query string.
    pub url: String,
    /// The URL parsed into the transport's URI type.
    pub uri: hyper::Uri,
    /// The JSON body text, if one is attached.
    pub body: Option<String>,
}

/// The body of a request: absent, a string-keyed map serialized as a JSON
/// object (a form-like payload), or arbitrary JSON text a caller serialized
/// itself.
pub enum RequestBody {
    /// No body; requests without a payload use this.
    NoBody,
    /// A string-keyed map, sent as a JSON object unless it is empty.
    Form(StrMap),
    /// A body already in its wire text, e.g. from a caller's own serializer;
    /// subject to the same empty-object policy.
    Json(String),
}

/// An arbitrary request to an endpoint in the Matrix API.
pub struct MatrixRequest {
    /// Request method.
    pub meth: Method,
    /// API endpoint, without the API prefix (e.g. `/sync`).
    pub endpoint: String,
    /// Query-string parameters.
    pub params: StrMap,
    /// Request body. A body that serializes to `{}` is not sent; requests
    /// with no body use `RequestBody::NoBody`.
    pub body: RequestBody,
}

/// The fixed API version prefix, appended between the base URL and the
/// endpoint exactly once, at request-build time.
pub open spec fn api_prefix() -> Seq<char> {
    "/_matrix/client/r0"@
}

/// The query string: the access token first, then one `&<key>=<value>`
/// fragment per parameter in insertion order, keys and values
/// percent-encoded, the token verbatim.
pub open spec fn query_of(pairs: Seq<(Seq<char>, Seq<char>)>, token: Seq<char>) -> Seq<char>
    decreases pairs.len(),
{
    if pairs.len() == 0 {
        "access_token="@ + token
    } else {
        query_of(pairs.drop_last(), token) + "&"@ + percent_encoded_of(pairs.last().0) + "="@
            + percent_encoded_of(pairs.last().1)
    }
}

/// All keys and values of the pairs are ASCII.
pub open spec fn pairs_ascii(pairs: Seq<(Seq<char>, Seq<char>)>) -> bool {
    forall|k: int|
        0 <= k < pairs.len() ==> vstd::utf8::is_ascii_chars((#[trigger] pairs[k]).0)
            && vstd::utf8::is_ascii_chars(pairs[k].1)
}

/// One `<key>=<value>` query fragment of an ASCII pair, spelled out with the
/// per-character encoding.
pub open spec fn plain_component_of(p: (Seq<char>, Seq<char>)) -> Seq<char> {
    crate::encoding::encode_ascii(p.0) + "="@ + crate::encoding::encode_ascii(p.1)
}

/// The query string of ASCII pairs, with the encoding spelled out; for such
/// pairs `build_query` returns exactly this.
pub open spec fn plain_query_of(pairs: Seq<(Seq<char>, Seq<char>)>, token: Seq<char>) -> Seq<char>
    decreases pairs.len(),
{
    if pairs.len() == 0 {
        "access_token="@ + token
    } else {
        plain_query_of(pairs.drop_last(), token) + "&"@ + plain_component_of(pairs.last())
    }
}

/// The full URL: base, API prefix, endpoint (not re-encoded by this layer),
/// `?`, query string.
pub open spec fn url_of(
    base: Seq<char>,
    endpoint: Seq<char>,
    pairs: Seq<(Seq<char>, Seq<char>)>,
    token: Seq<char>,
) -> Seq<char> {
    base + api_prefix() + endpoint + "?"@ + query_of(pairs, token)
}

/// The full URL with the query string spelled out, which it equals when the
/// pairs are ASCII.
pub open spec fn plain_url_of(
    base: Seq<char>,
    endpoint: Seq<char>,
    pairs: Seq<(Seq<char>, Seq<char>)>,
    token: Seq<char>,
) -> Seq<char> {
    base + api_prefix() + endpoint + "?"@ + plain_query_of(pairs, token)
}

/// Builds the query string for the given parameters and token.
pub fn build_query(params: &StrMap, token: &str) -> (r: String)
    ensures
        r@ == query_of(params.pairs_view(), token@),
        pairs_ascii(params.pairs_view()) ==> r@ == plain_query_of(params.pairs_view(), token@),
{
    let mut q = "access_token=".to_owned();
    q.append(token);
    let n = params.pairs.len();
    let mut i: usize = 0;
    while i < n
        invariant
            0 <= i <= n,
            n == params.pairs.len(),
            q@ == query_of(params.pairs_view().take(i as int), token@),
            pairs_ascii(params.pairs_view()) ==> q@ == plain_query_of(
                params.pairs_view().take(i as int),
                token@,
            ),
        decreases n - i,
    {
        let enc_k = crate::encoding::percent_encode(params.pairs[i].0.as_str());
        let enc_v = crate::encoding::percent_encode(params.pairs[i].1.as_str());
        q.append("&");
        q.append(enc_k.as_str());
        q.append("=");
        q.append(enc_v.as_str());
        proof {
            let pv = params.pairs_view();
            assert(pv.take(i + 1).drop_last() =~= pv.take(i as int));
            assert(pv.take(i + 1).last() == pv[i as int]);
            assert(q@ =~= query_of(pv.take(i + 1), token@));
            if pairs_ascii(pv) {
                assert(vstd::utf8::is_ascii_chars((#[trigger] pv[i as int]).0)
                    && vstd::utf8::is_ascii_chars(pv[i as int].1));
                assert(q@ =~= plain_query_of(pv.take(i + 1), token@));
            }
        }
        i += 1;
    }
    proof {
        assert(params.pairs_view().take(n as int) =~= params.pairs_view());
    }
    q
}

impl MatrixRequest {
    /// Well-formedness: the parameter map and a form body keep their keys
    /// unique.
    pub open spec fn wf(self) -> bool {
        &&& self.params.wf()
        &&& (self.body is Form ==> self.body->Form_0.wf())
    }

    /// The JSON text the body serializes to.
    pub open spec fn spec_body_json(self) -> Seq<char> {
        match self.body {
            RequestBody::NoBody => "{}"@,
            RequestBody::Form(m) => json_object_of(m@),
            RequestBody::Json(s) => s@,
        }
    }

    /// Whether a body is attached to the built request: only one whose JSON
    /// text is not the empty object.
    pub open spec fn spec_has_body(self) -> bool {
        !(self.body is NoBody) && self.spec_body_json() != "{}"@
    }

    /// The URL the built request carries.
    pub open spec fn spec_url(self, client: ClientHandle) -> Seq<char> {
        url_of(client.url@, self.endpoint@, self.params.pairs_view(), client.access_token@)
    }

    /// The same URL with the query string spelled out, for ASCII parameters.
    pub open spec fn spec_plain_url(self, client: ClientHandle) -> Seq<char> {
        plain_url_of(client.url@, self.endpoint@, self.params.pairs_view(), client.access_token@)
    }

    /// Convenience constructor from a method and endpoint: no parameters, no
    /// body. Never fails.
    pub fn new_basic(meth: Method, endpoint: String) -> (r: Self)
        ensures
            r.wf(),
            r.meth == meth,
            r.endpoint@ == endpoint@,
            r.params@ == Map::<Seq<char>, Seq<char>>::empty(),
            r.params.pairs_view() == Seq::<(Seq<char>, Seq<char>)>::empty(),
            r.body is NoBody,
    {
        MatrixRequest { meth, endpoint, params: StrMap::new(), body: RequestBody::NoBody }
    }

    /// Constructor from a method, an endpoint and key/value pairs that form
    /// the body map; a later pair wins on a repeated key. Never fails.
    pub fn new_with_body(meth: Method, endpoint: String, body: Vec<(String, String)>) -> (r: Self)
        ensures
            r.wf(),
            r.meth == meth,
            r.endpoint@ == endpoint@,
            r.params@ == Map::<Seq<char>, Seq<char>>::empty(),
            r.params.pairs_view() == Seq::<(Seq<char>, Seq<char>)>::empty(),
            r.body is Form,
            r.body->Form_0@ == map_of(pair_views(body@)),
    {
        let mut m = StrMap::new();
        let n = body.len();
        let mut i: usize = 0;
        while i < n
            invariant
                0 <= i <= n,
                n == body.len(),
                m.wf(),
                m@ == map_of(pair_views(body@.take(i as int))),
            decreases n - i,
        {
            let k = body[i].0.clone();
            let v = body[i].1.clone();
            m.insert(k, v);
            proof {
                let pv = pair_views(body@.take(i + 1));
                assert(pv.drop_last() =~= pair_views(body@.take(i as int)));
                assert(pv.last() == (body@[i as int].0@, body@[i as int].1@));
            }
            i += 1;
        }
        proof {
            assert(body@.take(n as int) =~= body@);
        }
        MatrixRequest { meth, endpoint, params: StrMap::new(), body: RequestBody::Form(m) }
    }

    /// Decides well-formedness, for callers outside verified code.
    pub fn check_wf(&self) -> (r: bool)
        ensures
            r == self.wf(),
    {
        if !self.params.keys_are_unique() {
            return false;
        }
        match &self.body {
            RequestBody::Form(m) => m.keys_are_unique(),
            _ => true,
        }
    }

    /// Serializes the body and applies the empty-object policy: a body whose
    /// JSON text is exactly `{}` is not attached. Never fails: every body
    /// form of this crate serializes (the result type mirrors the build
    /// step's error channel for callers).
    pub fn body(&self) -> (r: Result<Option<String>, MatrixError>)
        ensures
            r is Ok,
            (r->Ok_0 is Some <==> self.spec_has_body()),
            (r->Ok_0 is Some ==> r->Ok_0->0@ == self.spec_body_json()),
    {
        match &self.body {
            RequestBody::NoBody => Ok(None),
            RequestBody::Form(m) => {
                match crate::json::json_object_text(&m.pairs) {
                    Err(_) => Err(MatrixError::Serialization),
                    Ok(text) => {
                        let empty_object = "{}".to_owned();
                        if text == empty_object {
                            Ok(None)
                        } else {
                            Ok(Some(text))
                        }
                    },
                }
            },
            RequestBody::Json(text) => {
                let empty_object = "{}".to_owned();
                if *text == empty_object {
                    Ok(None)
                } else {
                    Ok(Some(text.clone()))
                }
            },
        }
    }

    /// Makes a transport-ready request from this value: assembles the URL,
    /// parses it (a URL without a scheme, or one the URI grammar refuses,
    /// is a `UrlParse` failure), and attaches the body unless it is the
    /// empty object. The only failure is `UrlParse`: every body form of this
    /// crate serializes, so `Serialization` cannot arise here.
    pub fn make_hyper(&self, client: &ClientHandle) -> (r: Result<TransportRequest, MatrixError>)
        requires
            self.wf(),
        ensures
            r is Ok <==> has_scheme_prefix(self.spec_url(*client)) && uri_parse_ok(
                self.spec_url(*client),
            ),
            match r {
                Ok(t) => {
                    &&& t.method == self.meth
                    &&& t.url@ == self.spec_url(*client)
                    &&& (pairs_ascii(self.params.pairs_view()) ==> t.url@ == self.spec_plain_url(
                        *client,
                    ))
                    &&& (t.body is Some <==> self.spec_has_body())
                    &&& (t.body is Some ==> t.body->0@ == self.spec_body_json())
                },
                Err(e) => e is UrlParse,
            },
    {
        let body = match self.body() {
            Ok(b) => b,
            Err(e) => {
                return Err(e);
            },
        };
        let mut url = client.url.clone();
        url.append("/_matrix/client/r0");
        url.append(self.endpoint.as_str());
        url.append("?");
        let q = build_query(&self.params, client.access_token.as_str());
        url.append(q.as_str());
        proof {
            assert(url@ =~= self.spec_url(*client));
            if pairs_ascii(self.params.pairs_view()) {
                assert(url@ =~= self.spec_plain_url(*client));
            }
        }
        if !has_scheme(url.as_str()) {
            return Err(MatrixError::UrlParse);
        }
        let uri = match parse_uri(url.as_str()) {
            Ok(u) => u,
            Err(_) => {
                return Err(MatrixError::UrlParse);
            },
        };
        Ok(TransportRequest { method: self.meth, url, uri, body })
    }

    /// A cow, as a courtesy to the caller: always the same art, verbatim.
    pub fn moo() -> (r: &'static str)
        ensures
            r@
                == "(__)\n         (oo)\n   /------\\/\n  / |    ||\n *  /\\---/\\\n    ~~   ~~\n....Cow::Borrowed(\"Have you mooed today?\")..."@,
    {
        "(__)\n         (oo)\n   /------\\/\n  / |    ||\n *  /\\---/\\\n    ~~   ~~\n....Cow::Borrowed(\"Have you mooed today?\")..."
    }
}

} // verus!
