//! The proxy's own rules: the shape of a fetch request, and what is sent back
//! for an upstream response.
use vstd::prelude::*;
use vstd::utf8::encode_utf8;

use crate::text::{chars_of, decimal, has_prefix, starts_with_chars};

verus! {

/// The text that `reqwest::StatusCode` displays for a status code: the code and its reason.
pub uninterp spec fn status_display(code: u16) -> Seq<char>;

/// Relies on `reqwest::StatusCode::from_u16` and its `Display`: the status line
/// text of a code in 100..=999 (the range `from_u16` accepts), which writes the
/// code's digits, a space, then the reason.
#[verifier::external_body]
fn status_text(code: u16) -> (r: String)
    requires
        100 <= code <= 999,
    ensures
        r@ == status_display(code),
        has_prefix(r@, decimal(code as nat).push(' ')),
{
    match reqwest::StatusCode::from_u16(code) {
        Ok(status) => status.to_string(),
        Err(_) => String::new(),
    }
}

/// The text every fetch request begins with.
pub open spec fn get_prefix() -> Seq<char> {
    "GET:"@
}

/// The URL of a fetch request `GET:<url>`: at least one character, up to the
/// end of the text.
pub open spec fn request_url(message: Seq<char>) -> Option<Seq<char>> {
    let url = message.skip(get_prefix().len() as int);
    if has_prefix(message, get_prefix()) && url.len() > 0 {
        Some(url)
    } else {
        None
    }
}

/// The text that answers a request that is not `GET:<url>`.
pub open spec fn invalid_request_text() -> Seq<char> {
    "Invalid message structure! Use GET:URL format."@
}

/// The error page's text up to its title.
pub const PAGE_HEAD: &'static str = "
                <html lang=\"en\">
                    <head>
                        <meta charset=\"UTF-8\">
                        <meta http-equiv=\"X-UA-Compatible\" content=\"IE=edge\">
                        <meta name=\"viewport\" content=\"width=device-width, initial-scale=1.0\">
                        <title>";

/// The title's text in front of the status.
pub const PAGE_TITLE: &'static str = "Error ";

/// The error page's text between the two places of the status.
pub const PAGE_BODY: &'static str = "</title>
                    </head>
                    <body>
                        <div style=\"position: absolute;top: 50%;left: 50%;transform: translate(-50%, -50%);\">Received ";

/// The error page's text between the status and the URL.
pub const PAGE_FROM: &'static str = " error from ";

/// The error page's text after the URL.
pub const PAGE_TAIL: &'static str = " url</div>
                    </body>
                </html>
                ";

/// The HTML page that reports an upstream status other than success.
pub open spec fn error_page(status: Seq<char>, url: Seq<char>) -> Seq<char> {
    PAGE_HEAD@ + PAGE_TITLE@ + status + PAGE_BODY@ + status + PAGE_FROM@ + url + PAGE_TAIL@
}

/// `part` stands somewhere in `s`.
pub open spec fn contains_text(s: Seq<char>, part: Seq<char>) -> bool {
    exists|i: int| 0 <= i && i + part.len() <= s.len() && #[trigger] s.subrange(i, i + part.len()) == part
}

/// An error page over a status line that begins with the code names the code
/// after `Error ` and names the URL.
proof fn lemma_page_shows(status_line: Seq<char>, code: u16, url: Seq<char>)
    requires
        has_prefix(status_line, decimal(code as nat).push(' ')),
    ensures
        contains_text(error_page(status_line, url), "Error "@ + decimal(code as nat)),
        contains_text(error_page(status_line, url), url),
{
    let page = error_page(status_line, url);
    let d = decimal(code as nat);
    let part = "Error "@ + d;
    let i = PAGE_HEAD@.len() as int;
    assert(status_line.take(d.len() + 1int) == d.push(' '));
    assert(page.subrange(i, i + part.len()) =~= part) by {
        assert forall|k: int| 0 <= k < part.len() implies page.subrange(i, i + part.len())[k] == part[k] by {
            if k >= PAGE_TITLE@.len() {
                assert(status_line.take(d.len() + 1int)[k - PAGE_TITLE@.len()] == d.push(' ')[k
                    - PAGE_TITLE@.len()]);
            }
        }
    }
    let j = (PAGE_HEAD@ + PAGE_TITLE@ + status_line + PAGE_BODY@ + status_line + PAGE_FROM@).len() as int;
    assert(page.subrange(j, j + url.len()) =~= url);
}

/// What the proxy sends back for an upstream response.
pub open spec fn response_content(url: Seq<char>, status: u16, body: Seq<u8>) -> Seq<u8> {
    if status == 200 {
        body
    } else {
        encode_utf8(error_page(status_display(status), url))
    }
}

/// The proxy's handling of requests and upstream responses.
pub struct ProxyLogic {}

impl ProxyLogic {
    /// The URL of a `GET:<url>` request, or the text that explains the expected form.
    pub fn process_message(message: &str) -> (r: Result<String, String>)
        ensures
            match r {
                Ok(url) => request_url(message@) == Some(url@),
                Err(e) => request_url(message@) is None && e@ == invalid_request_text(),
            },
    {
        let chars = chars_of(message);
        let prefix = chars_of("GET:");
        let start = prefix.len();
        let n = chars.len();
        if !starts_with_chars(&chars, &prefix) || n == start {
            return Err(String::from_str("Invalid message structure! Use GET:URL format."));
        }
        let found = message.substring_char(start, n);
        assert(found@ =~= message@.skip(start as int));
        Ok(found.to_owned())
    }

    /// Whether an upstream status means success, in which case its body is sent as it is.
    pub fn is_success(status: u16) -> (r: bool)
        ensures
            r == (status == 200),
    {
        status == 200
    }

    /// The HTML page that reports upstream status `status` for `url`.
    pub fn error_page(url: &str, status: u16) -> (r: String)
        requires
            100 <= status <= 999,
        ensures
            r@ == error_page(status_display(status), url@),
            contains_text(r@, "Error "@ + decimal(status as nat)),
            contains_text(r@, url@),
    {
        let status_line = status_text(status);
        proof {
            lemma_page_shows(status_line@, status, url@);
        }
        Self::render_error_page(status_line.as_str(), url)
    }

    /// The HTML page that reports an upstream status, shown as `status_line`, for `url`.
    pub fn render_error_page(status_line: &str, url: &str) -> (r: String)
        ensures
            r@ == error_page(status_line@, url@),
    {
        let mut page = String::from_str(PAGE_HEAD);
        page.append(PAGE_TITLE);
        page.append(status_line);
        page.append(PAGE_BODY);
        page.append(status_line);
        page.append(PAGE_FROM);
        page.append(url);
        page.append(PAGE_TAIL);
        page
    }

    /// What is sent back for an upstream response to `url`: its body on
    /// success, else the error page.
    pub fn content_to_send(url: &str, status: u16, body: Vec<u8>) -> (r: Vec<u8>)
        requires
            100 <= status <= 999,
        ensures
            r@ == response_content(url@, status, body@),
            status != 200 ==> exists|page: Seq<char>|
                r@ == encode_utf8(page) && contains_text(page, "Error "@ + decimal(status as nat))
                    && contains_text(page, url@),
    {
        if Self::is_success(status) {
            body
        } else {
            let page = Self::error_page(url, status);
            page.as_str().as_bytes_vec()
        }
    }
}

} // verus!
