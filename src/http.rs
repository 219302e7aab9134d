use vstd::prelude::*;

verus! {

/// Media type asked for on the release and asset-list endpoints.
pub const JSON_MEDIA_TYPE: &'static str = "application/vnd.github.v3+json";

/// Media type asked for when downloading an asset's bytes.
pub const OCTET_STREAM: &'static str = "application/octet-stream";

/// A GET request for the transport to perform: a URL and its headers in order.
#[derive(Debug)]
pub struct HttpRequest {
    pub url: String,
    pub headers: Vec<(String, String)>,
}

pub struct HttpRequestView {
    pub url: Seq<char>,
    pub headers: Seq<(Seq<char>, Seq<char>)>,
}

impl View for HttpRequest {
    type V = HttpRequestView;

    open spec fn view(&self) -> HttpRequestView {
        HttpRequestView {
            url: self.url@,
            headers: self.headers@.map_values(|h: (String, String)| (h.0@, h.1@)),
        }
    }
}

/// Content negotiation, client identity, and the token when there is one.
pub open spec fn api_headers(accept: Seq<char>, client: Seq<char>, token: Option<Seq<char>>) -> Seq<(Seq<char>, Seq<char>)> {
    let base = seq![("Accept"@, accept), ("User-Agent"@, client)];
    match token {
        Some(t) => base.push(("Authorization"@, "token "@ + t)),
        None => base,
    }
}

pub open spec fn api_request(url: Seq<char>, accept: Seq<char>, client: Seq<char>, token: Option<Seq<char>>) -> HttpRequestView {
    HttpRequestView { url, headers: api_headers(accept, client, token) }
}

/// Builds a request carrying the library's usual headers.
pub fn api_get(url: String, accept: &str, client: &String, token: &Option<String>) -> (r: HttpRequest)
    ensures
        r@ == api_request(url@, accept@, client@, match token { Some(t) => Some(t@), None => None }),
{
    let mut headers: Vec<(String, String)> = Vec::new();
    headers.push((String::from_str("Accept"), String::from_str(accept)));
    headers.push((String::from_str("User-Agent"), client.clone()));
    match token {
        Some(t) => {
            let value = String::from_str("token ").concat(t.as_str());
            headers.push((String::from_str("Authorization"), value));
        },
        None => {},
    }
    let r = HttpRequest { url, headers };
    assert(r@.headers =~= api_headers(accept@, client@, match token { Some(t) => Some(t@), None => None }));
    r
}

} // verus!
