//! Error pages: small HTML documents shown in a tab when navigation fails.
use vstd::prelude::*;
use crate::text::{chars_of, push_char};

verus! {

/// The text that stands for a character in HTML: `&`, `<`, `>` and `"`
/// become entities, any other character stands for itself.
pub open spec fn escape_char(c: char) -> Seq<char> {
    if c == '&' {
        "&amp;"@
    } else if c == '<' {
        "&lt;"@
    } else if c == '>' {
        "&gt;"@
    } else if c == '"' {
        "&quot;"@
    } else {
        seq![c]
    }
}

/// A text with each character escaped.
pub open spec fn html_escaped(s: Seq<char>) -> Seq<char>
    decreases s.len(),
{
    if s.len() == 0 {
        Seq::empty()
    } else {
        html_escaped(s.drop_last()) + escape_char(s.last())
    }
}

/// Escaped text holds no `<`, `>` or `"`: nothing in it can open or close
/// a tag or an attribute value.
pub proof fn law_escaped_has_no_markup(s: Seq<char>)
    ensures
        !html_escaped(s).contains('<'),
        !html_escaped(s).contains('>'),
        !html_escaped(s).contains('"'),
    decreases s.len(),
{
    if s.len() > 0 {
        law_escaped_has_no_markup(s.drop_last());
        reveal_strlit("&amp;");
        reveal_strlit("&lt;");
        reveal_strlit("&gt;");
        reveal_strlit("&quot;");
        let a = html_escaped(s.drop_last());
        let b = escape_char(s.last());
        assert(html_escaped(s) == a + b);
        assert forall|c: char| c == '<' || c == '>' || c == '"' implies !(a + b).contains(c) by {
            if (a + b).contains(c) {
                let k = choose|k: int| 0 <= k < (a + b).len() && (a + b)[k] == c;
                if k < a.len() {
                    assert(a[k] == c);
                } else {
                    assert(b[k - a.len()] == c);
                }
            }
        }
    }
}

/// Escapes `&`, `<`, `>` and `"` for HTML.
pub fn html_escape(s: &str) -> (r: String)
    ensures
        r@ == html_escaped(s@),
{
    let cs = chars_of(s);
    let mut r = String::new();
    let mut i: usize = 0;
    while i < cs.len()
        invariant
            i <= cs@.len(),
            cs@ == s@,
            r@ == html_escaped(cs@.take(i as int)),
        decreases cs.len() - i,
    {
        let c = cs[i];
        if c == '&' {
            r.append("&amp;");
        } else if c == '<' {
            r.append("&lt;");
        } else if c == '>' {
            r.append("&gt;");
        } else if c == '"' {
            r.append("&quot;");
        } else {
            push_char(&mut r, c);
        }
        assert(cs@.take(i + 1).drop_last() =~= cs@.take(i as int));
        assert(r@ =~= html_escaped(cs@.take(i + 1)));
        i += 1;
    }
    assert(cs@.take(cs@.len() as int) =~= cs@);
    r
}

/// The error page for a title and a message, both escaped.
pub open spec fn error_page(title: Seq<char>, message: Seq<char>) -> Seq<char> {
    "<!DOCTYPE html>\n<html>\n<head><title>"@ + html_escaped(title)
        + "</title>\n<style>\nbody {\n    background: #1a1a24;\n    color: #d0d0e0;\n    font-family: sans-serif;\n    display: flex;\n    flex-direction: column;\n    align-items: center;\n    justify-content: center;\n    min-height: 80vh;\n    margin: 0;\n    padding: 40px;\n}\nh1 { color: #c44; font-size: 28px; margin-bottom: 12px; }\np { font-size: 16px; color: #999; max-width: 600px; text-align: center; }\n.code { font-family: monospace; background: #2a2a36; padding: 12px 20px; border-radius: 6px; margin-top: 20px; font-size: 13px; color: #888; word-break: break-all; max-width: 600px; }\n</style>\n</head>\n<body>\n<h1>"@
        + html_escaped(title) + "</h1>\n<p>"@ + html_escaped(message) + "</p>\n</body>\n</html>"@
}

/// Builds an error page.
pub fn build_error_page(title: &str, message: &str) -> (r: String)
    ensures
        r@ == error_page(title@, message@),
{
    let t = html_escape(title);
    let m = html_escape(message);
    let mut page = "<!DOCTYPE html>\n<html>\n<head><title>".to_owned();
    page.append(t.as_str());
    page.append(
        "</title>\n<style>\nbody {\n    background: #1a1a24;\n    color: #d0d0e0;\n    font-family: sans-serif;\n    display: flex;\n    flex-direction: column;\n    align-items: center;\n    justify-content: center;\n    min-height: 80vh;\n    margin: 0;\n    padding: 40px;\n}\nh1 { color: #c44; font-size: 28px; margin-bottom: 12px; }\np { font-size: 16px; color: #999; max-width: 600px; text-align: center; }\n.code { font-family: monospace; background: #2a2a36; padding: 12px 20px; border-radius: 6px; margin-top: 20px; font-size: 13px; color: #888; word-break: break-all; max-width: 600px; }\n</style>\n</head>\n<body>\n<h1>",
    );
    page.append(t.as_str());
    page.append("</h1>\n<p>");
    page.append(m.as_str());
    page.append("</p>\n</body>\n</html>");
    page
}

/// The message of a page: a sentence around a bold, escaped subject.
pub open spec fn bold_message(before: Seq<char>, subject: Seq<char>, after: Seq<char>) -> Seq<char> {
    before + "<b>"@ + html_escaped(subject) + "</b>"@ + after
}

fn bold_sentence(before: &str, subject: &str, after: &str) -> (r: String)
    ensures
        r@ == bold_message(before@, subject@, after@),
{
    let mut m = before.to_owned();
    m.append("<b>");
    let e = html_escape(subject);
    m.append(e.as_str());
    m.append("</b>");
    m.append(after);
    m
}

/// The page for a failed DNS lookup.
pub fn dns_error_page(host: &str) -> (r: String)
    ensures
        r@ == error_page(
            "Can't Find That Page"@,
            bold_message(
                "The DNS lookup for "@,
                host@,
                " failed. Check the URL or your network connection."@,
            ),
        ),
{
    let m = bold_sentence("The DNS lookup for ", host, " failed. Check the URL or your network connection.");
    build_error_page("Can't Find That Page", m.as_str())
}

/// The page for a refused connection.
pub fn connection_refused_page(url: &str) -> (r: String)
    ensures
        r@ == error_page(
            "Connection Refused"@,
            bold_message("The server at "@, url@, " refused the connection."@),
        ),
{
    let m = bold_sentence("The server at ", url, " refused the connection.");
    build_error_page("Connection Refused", m.as_str())
}

/// The page for an untrusted certificate.
pub fn tls_error_page(host: &str) -> (r: String)
    ensures
        r@ == error_page(
            "Your Connection Is Not Private"@,
            bold_message("The certificate for "@, host@, " is not trusted. Proceed with caution."@),
        ),
{
    let m = bold_sentence("The certificate for ", host, " is not trusted. Proceed with caution.");
    build_error_page("Your Connection Is Not Private", m.as_str())
}

/// The title of the page for an HTTP status.
pub open spec fn http_error_title(status: u16) -> Seq<char> {
    if status == 404 {
        "Page Not Found (404)"@
    } else if status == 500 {
        "Internal Server Error (500)"@
    } else if status == 502 {
        "Bad Gateway (502)"@
    } else if status == 503 {
        "Service Unavailable (503)"@
    } else {
        "Server Error"@
    }
}

/// The page for an HTTP error status.
pub fn http_error_page(status: u16, url: &str) -> (r: String)
    ensures
        r@ == error_page(
            http_error_title(status),
            "The server returned an error for "@ + html_escaped(url@),
        ),
{
    let title = if status == 404 {
        "Page Not Found (404)"
    } else if status == 500 {
        "Internal Server Error (500)"
    } else if status == 502 {
        "Bad Gateway (502)"
    } else if status == 503 {
        "Service Unavailable (503)"
    } else {
        "Server Error"
    };
    let mut m = "The server returned an error for ".to_owned();
    let e = html_escape(url);
    m.append(e.as_str());
    build_error_page(title, m.as_str())
}

} // verus!
