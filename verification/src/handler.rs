//! The per-request decision: given the request path and headers, the current
//! configuration, and the embedded assets, decide the full response.
use vstd::prelude::*;

use crate::config::Config;
use crate::render::page_spec;
use crate::render::render_page;
use crate::text::ci_equal;
use crate::text::eq_ignore_ascii_case;
use crate::text::str_eq;

verus! {

/// The response to one request: the favicon bytes, a bad-request complaint,
/// or the rendered page.
#[allow(inconsistent_fields)]
pub enum HttpReply {
    Favicon { body: Vec<u8> },
    BadRequest { body: String },
    Page { body: String },
}

impl HttpReply {
    /// The HTTP status of this reply.
    pub open spec fn status_spec(self) -> u16 {
        match self {
            HttpReply::Favicon { .. } => 200,
            HttpReply::BadRequest { .. } => 400,
            HttpReply::Page { .. } => 200,
        }
    }

    /// The HTTP status to send: 400 for a bad request, 200 otherwise.
    pub fn status(&self) -> (s: u16)
        ensures
            s == self.status_spec(),
    {
        match self {
            HttpReply::Favicon { .. } => 200,
            HttpReply::BadRequest { .. } => 400,
            HttpReply::Page { .. } => 200,
        }
    }

    /// The `Content-Type` header to send: `image/png` for the favicon,
    /// `text/html` for the page, and none for a bad request.
    pub fn content_type(&self) -> (r: Option<&'static str>)
        ensures
            self matches HttpReply::Favicon { .. } ==> (r matches Some(ct) && ct@
                == "image/png"@),
            self matches HttpReply::Page { .. } ==> (r matches Some(ct) && ct@ == "text/html"@),
            self matches HttpReply::BadRequest { .. } ==> r is None,
    {
        match self {
            HttpReply::Favicon { .. } => Some("image/png"),
            HttpReply::BadRequest { .. } => None,
            HttpReply::Page { .. } => Some("text/html"),
        }
    }
}

/// The value of the first header whose field equals `Host` up to ASCII case,
/// if any.
pub open spec fn host_lookup(headers: Seq<(String, String)>) -> Option<Seq<char>>
    decreases headers.len(),
{
    if headers.len() == 0 {
        None
    } else if ci_equal(headers[0].0@, "Host"@) {
        Some(headers[0].1@)
    } else {
        host_lookup(headers.drop_first())
    }
}

proof fn lemma_host_lookup_at(headers: Seq<(String, String)>, i: int)
    requires
        0 <= i <= headers.len(),
        forall|k: int| 0 <= k < i ==> !ci_equal(headers[k].0@, "Host"@),
    ensures
        i == headers.len() ==> host_lookup(headers) is None,
        i < headers.len() && ci_equal(headers[i].0@, "Host"@) ==> host_lookup(headers) == Some(
            headers[i].1@,
        ),
    decreases i,
{
    if i == 0 {
    } else {
        let t = headers.drop_first();
        assert(!ci_equal(headers[0].0@, "Host"@));
        assert forall|k: int| 0 <= k < i - 1 implies !ci_equal(t[k].0@, "Host"@) by {
            assert(t[k] == headers[k + 1]);
        }
        if i < headers.len() {
            assert(t[i - 1] == headers[i]);
        }
        lemma_host_lookup_at(t, i - 1);
    }
}

/// Find the `Host` header, matching the field name without regard to ASCII
/// case, and return a copy of its value.
pub fn find_host(headers: &Vec<(String, String)>) -> (r: Option<String>)
    ensures
        match r {
            Some(h) => host_lookup(headers@) == Some(h@),
            None => host_lookup(headers@) is None,
        },
{
    let n: usize = headers.len();
    let mut i: usize = 0;
    while i < n
        invariant
            n == headers@.len(),
            i <= n,
            forall|k: int| 0 <= k < i ==> !ci_equal(headers@[k].0@, "Host"@),
        decreases n - i,
    {
        if eq_ignore_ascii_case(headers[i].0.as_str(), "Host") {
            proof {
                lemma_host_lookup_at(headers@, i as int);
            }
            return Some(headers[i].1.clone());
        }
        i += 1;
    }
    proof {
        lemma_host_lookup_at(headers@, n as int);
    }
    None
}

/// Decide the response to one request.
///
/// The path `/favicon.png` gets the favicon bytes, whatever the headers say.
/// Any other path gets a 400 complaint when no `Host` header is present, and
/// otherwise the page rendered for that host from the current configuration.
pub fn handle_request(
    path: &str,
    headers: &Vec<(String, String)>,
    config: &Config,
    page_template: &str,
    section_template: &str,
    favicon: &Vec<u8>,
) -> (r: HttpReply)
    ensures
        path@ == "/favicon.png"@ ==> (r matches HttpReply::Favicon { body } && body@
            == favicon@),
        path@ != "/favicon.png"@ && host_lookup(headers@) is None ==> (r
            matches HttpReply::BadRequest { body } && body@ == "No Host header"@),
        path@ != "/favicon.png"@ ==> (host_lookup(headers@) matches Some(h) ==> (r
            matches HttpReply::Page { body } && body@ == page_spec(
            page_template@,
            section_template@,
            h,
            config.link@,
        ))),
{
    if str_eq(path, "/favicon.png") {
        return HttpReply::Favicon { body: copy_bytes(favicon) };
    }
    match find_host(headers) {
        None => HttpReply::BadRequest { body: String::from_str("No Host header") },
        Some(host) => {
            let body = render_page(page_template, section_template, host.as_str(), &config.link);
            HttpReply::Page { body }
        },
    }
}

/// A fresh copy of a byte vector.
fn copy_bytes(bytes: &Vec<u8>) -> (r: Vec<u8>)
    ensures
        r@ == bytes@,
{
    let n: usize = bytes.len();
    let mut r: Vec<u8> = Vec::new();
    let mut i: usize = 0;
    while i < n
        invariant
            n == bytes@.len(),
            i <= n,
            r@ == bytes@.take(i as int),
        decreases n - i,
    {
        r.push(bytes[i]);
        proof {
            assert(r@ =~= bytes@.take(i + 1));
        }
        i += 1;
    }
    proof {
        assert(bytes@.take(n as int) =~= bytes@);
    }
    r
}

} // verus!
