//! Descriptions of the side effects that commands perform: HTTP requests
//! and their responses, and the output of spawned processes.

use vstd::prelude::*;
use crate::text::push_char;

verus! {

/// HTTP request configuration.
pub struct HttpRequest {
    /// The URL to request
    pub url: String,
    /// HTTP method (GET, POST, etc.)
    pub method: String,
    /// Request headers
    pub headers: Vec<(String, String)>,
    /// Request body (optional)
    pub body: Option<String>,
}

/// The views of header pairs.
pub open spec fn header_views(hs: Seq<(String, String)>) -> Seq<(Seq<char>, Seq<char>)> {
    hs.map_values(|h: (String, String)| (h.0@, h.1@))
}

/// The view of an optional string.
pub open spec fn body_view(b: Option<String>) -> Option<Seq<char>> {
    match b {
        Some(s) => Some(s@),
        None => None,
    }
}

/// A string of the given characters.
fn word(w: &[char]) -> (s: String)
    ensures
        s@ == w@,
{
    let mut s = String::new();
    let mut i: usize = 0;
    while i < w.len()
        invariant
            i <= w@.len(),
            s@ == w@.take(i as int),
        decreases w@.len() - i,
    {
        push_char(&mut s, w[i]);
        i = i + 1;
        assert(s@ =~= w@.take(i as int));
    }
    assert(w@.take(w@.len() as int) =~= w@);
    s
}

impl HttpRequest {
    /// A GET request to `url` without headers or body.
    pub fn get(url: &str) -> (r: Self)
        ensures
            r.url@ == url@,
            r.method@ == seq!['G', 'E', 'T'],
            r.headers@.len() == 0,
            r.body is None,
    {
        let m = word(&['G', 'E', 'T']);
        assert(m@ =~= seq!['G', 'E', 'T']);
        HttpRequest { url: url.to_string(), method: m, headers: Vec::new(), body: None }
    }

    /// A POST request to `url` without headers or body.
    pub fn post(url: &str) -> (r: Self)
        ensures
            r.url@ == url@,
            r.method@ == seq!['P', 'O', 'S', 'T'],
            r.headers@.len() == 0,
            r.body is None,
    {
        let m = word(&['P', 'O', 'S', 'T']);
        assert(m@ =~= seq!['P', 'O', 'S', 'T']);
        HttpRequest { url: url.to_string(), method: m, headers: Vec::new(), body: None }
    }

    /// Add a header after the ones already there.
    pub fn header(self, key: &str, value: &str) -> (r: Self)
        ensures
            r.url@ == self.url@,
            r.method@ == self.method@,
            header_views(r.headers@) == header_views(self.headers@).push((key@, value@)),
            body_view(r.body) == body_view(self.body),
    {
        let mut s = self;
        let ghost before = header_views(s.headers@);
        s.headers.push((key.to_string(), value.to_string()));
        assert(header_views(s.headers@) =~= before.push((key@, value@)));
        s
    }

    /// Set the request body.
    pub fn body(self, body: &str) -> (r: Self)
        ensures
            r.url@ == self.url@,
            r.method@ == self.method@,
            header_views(r.headers@) == header_views(self.headers@),
            body_view(r.body) == Some(body@),
    {
        HttpRequest { body: Some(body.to_string()), ..self }
    }
}

/// HTTP response.
pub struct HttpResponse {
    /// HTTP status code
    pub status: u16,
    /// Response headers
    pub headers: Vec<(String, String)>,
    /// Response body
    pub body: String,
}

/// Process output.
pub struct ProcessOutput {
    /// Standard output
    pub stdout: String,
    /// Standard error
    pub stderr: String,
    /// Exit code
    pub exit_code: i32,
    /// Whether the process succeeded
    pub success: bool,
}

} // verus!
