//! How the web server answers a request: redirects for mangled DOIs, the
//! format asked for, static resources and error pages.
use crate::context::PaperError;
use crate::text::{chars_of, slice_range, starts_with, starts_with_spec, str_equal, string_of};
use vstd::prelude::*;

verus! {

/// The DOI without its first `p.len()` characters, under `/doi/`.
pub open spec fn doi_path(doi: Seq<char>, p: Seq<char>) -> Seq<char> {
    "/doi/"@ + doi.skip(p.len() as int)
}

/// Where a DOI that starts with a common URL component (which automatic
/// redirection can leave on it) is redirected: the DOI without the first
/// such component, in the order `abs/`, `pdf/`, `doi/`, `doi.org/`,
/// `book/`, `fullHtml/`, `epdf/`, `proceedings/`.
pub open spec fn redirect_spec(doi: Seq<char>) -> Option<Seq<char>> {
    if starts_with_spec(doi, "abs/"@) {
        Some(doi_path(doi, "abs/"@))
    } else if starts_with_spec(doi, "pdf/"@) {
        Some(doi_path(doi, "pdf/"@))
    } else if starts_with_spec(doi, "doi/"@) {
        Some(doi_path(doi, "doi/"@))
    } else if starts_with_spec(doi, "doi.org/"@) {
        Some(doi_path(doi, "doi.org/"@))
    } else if starts_with_spec(doi, "book/"@) {
        Some(doi_path(doi, "book/"@))
    } else if starts_with_spec(doi, "fullHtml/"@) {
        Some(doi_path(doi, "fullHtml/"@))
    } else if starts_with_spec(doi, "epdf/"@) {
        Some(doi_path(doi, "epdf/"@))
    } else if starts_with_spec(doi, "proceedings/"@) {
        Some(doi_path(doi, "proceedings/"@))
    } else {
        None
    }
}

fn strip_one(doi: &Vec<char>, prefix: &str) -> (res: Option<String>)
    ensures
        match res {
            Some(p) => starts_with_spec(doi@, prefix@) && p@ == doi_path(doi@, prefix@),
            None => !starts_with_spec(doi@, prefix@),
        },
{
    let p = chars_of(prefix);
    if starts_with(doi.as_slice(), p.as_slice()) {
        let rest = slice_range(doi.as_slice(), p.len(), doi.len());
        let mut path = chars_of("/doi/");
        crate::text::extend(&mut path, rest.as_slice());
        Some(string_of(path.as_slice()))
    } else {
        None
    }
}

/// The path that a mangled DOI is redirected to (see [`redirect_spec`]).
pub fn redirect_target(doi: &str) -> (res: Option<String>)
    ensures
        match res {
            Some(p) => redirect_spec(doi@) == Some(p@),
            None => redirect_spec(doi@) is None,
        },
{
    let cs = chars_of(doi);
    if let Some(p) = strip_one(&cs, "abs/") {
        return Some(p);
    }
    if let Some(p) = strip_one(&cs, "pdf/") {
        return Some(p);
    }
    if let Some(p) = strip_one(&cs, "doi/") {
        return Some(p);
    }
    if let Some(p) = strip_one(&cs, "doi.org/") {
        return Some(p);
    }
    if let Some(p) = strip_one(&cs, "book/") {
        return Some(p);
    }
    if let Some(p) = strip_one(&cs, "fullHtml/") {
        return Some(p);
    }
    if let Some(p) = strip_one(&cs, "epdf/") {
        return Some(p);
    }
    if let Some(p) = strip_one(&cs, "proceedings/") {
        return Some(p);
    }
    None
}

/// How a request for a paper is answered.
pub enum PaperRoute {
    /// A permanent redirect to this path.
    Redirect(String),
    /// The raw Crossref JSON.
    Json,
    /// The rendered page.
    Html,
}

/// Routes a request for `/doi/{doi}` with an optional `format` query
/// parameter.
pub fn paper_route(doi: &str, format: Option<&str>) -> (r: PaperRoute)
    ensures
        match redirect_spec(doi@) {
            Some(t) => r matches PaperRoute::Redirect(p) && p@ == t,
            None => if format matches Some(f) && f@ == "json"@ {
                r is Json
            } else {
                r is Html
            },
        },
{
    if let Some(p) = redirect_target(doi) {
        return PaperRoute::Redirect(p);
    }
    match format {
        Some(f) => if str_equal(f, "json") {
            PaperRoute::Json
        } else {
            PaperRoute::Html
        },
        None => PaperRoute::Html,
    }
}

/// The host a page is rendered for: the `Host` header when it is present
/// and readable, `example.com` otherwise.
pub fn host_or_default(host: Option<&str>) -> (h: &str)
    ensures
        h@ == match host {
            Some(x) => x@,
            None => "example.com"@,
        },
{
    match host {
        Some(x) => x,
        None => "example.com",
    }
}

/// The media type of JavaScript.
pub open spec fn javascript_mime() -> Seq<char> {
    "application/javascript"@
}

/// The media type of a resource served under `/rsrc/`, or `None` for a
/// file that is not served there (only `bookmarklet.js` and
/// `userscript.js` are).
pub fn rsrc_mime(filename: &str) -> (m: Option<&'static str>)
    ensures
        match m {
            Some(t) => (filename@ == "bookmarklet.js"@ || filename@ == "userscript.js"@) && t@
                == javascript_mime(),
            None => filename@ != "bookmarklet.js"@ && filename@ != "userscript.js"@,
        },
{
    if str_equal(filename, "bookmarklet.js") || str_equal(filename, "userscript.js") {
        Some("application/javascript")
    } else {
        None
    }
}

/// The page that answers an error.
pub enum ErrorPage {
    /// The DOI is unknown.
    DoiNotFound(String),
    /// The API response did not parse (with the parser's description).
    Unparsable(String),
    /// Any other error (with its message).
    Internal(String),
}

/// The HTTP status `404 Not Found`.
pub const STATUS_NOT_FOUND: u16 = 404;

/// The HTTP status `500 Internal Server Error`.
pub const STATUS_INTERNAL: u16 = 500;

/// The status and page that answer an error.
pub fn error_response(err: PaperError) -> (r: (u16, ErrorPage))
    ensures
        match err {
            PaperError::NotFound(doi) => r.0 == STATUS_NOT_FOUND && r.1 == ErrorPage::DoiNotFound(
                doi,
            ),
            PaperError::Parse(msg) => r.0 == STATUS_INTERNAL && r.1 == ErrorPage::Unparsable(msg),
            PaperError::Fetch(_) => r.0 == STATUS_INTERNAL && (r.1 matches ErrorPage::Internal(m)
                && m@ == "failed loading paper data"@),
        },
{
    match err {
        PaperError::NotFound(doi) => (STATUS_NOT_FOUND, ErrorPage::DoiNotFound(doi)),
        PaperError::Parse(msg) => (STATUS_INTERNAL, ErrorPage::Unparsable(msg)),
        PaperError::Fetch(e) => {
            let m = PaperError::Fetch(e).message();
            (STATUS_INTERNAL, ErrorPage::Internal(crate::text::to_owned(m)))
        },
    }
}


/// Redirects end: the path a mangled DOI is redirected to is `/doi/`
/// followed by a strictly shorter DOI (a suffix of the original), so
/// following redirects reaches a DOI that is not redirected.
pub proof fn law_redirect_shortens(doi: Seq<char>)
    ensures
        redirect_spec(doi) matches Some(path) ==> exists|rest: Seq<char>|
            #![trigger "/doi/"@ + rest]
            path == "/doi/"@ + rest && rest.len() < doi.len() && rest == doi.skip(
                doi.len() - rest.len(),
            ),
{
    reveal_strlit("abs/");
    reveal_strlit("pdf/");
    reveal_strlit("doi/");
    reveal_strlit("doi.org/");
    reveal_strlit("book/");
    reveal_strlit("fullHtml/");
    reveal_strlit("epdf/");
    reveal_strlit("proceedings/");
    if let Some(path) = redirect_spec(doi) {
        let p = if starts_with_spec(doi, "abs/"@) {
            "abs/"@
        } else if starts_with_spec(doi, "pdf/"@) {
            "pdf/"@
        } else if starts_with_spec(doi, "doi/"@) {
            "doi/"@
        } else if starts_with_spec(doi, "doi.org/"@) {
            "doi.org/"@
        } else if starts_with_spec(doi, "book/"@) {
            "book/"@
        } else if starts_with_spec(doi, "fullHtml/"@) {
            "fullHtml/"@
        } else if starts_with_spec(doi, "epdf/"@) {
            "epdf/"@
        } else {
            "proceedings/"@
        };
        let rest = doi.skip(p.len() as int);
        assert(path == "/doi/"@ + rest);
        assert(rest == doi.skip(doi.len() - rest.len()));
    }
}

/// A valid DOI is never redirected: it starts with `10.`, which none of
/// the stripped URL components does.
pub proof fn law_valid_doi_not_redirected(doi: Seq<char>)
    requires
        crate::context::valid_doi_spec(doi),
    ensures
        redirect_spec(doi) is None,
{
    reveal_strlit("10.");
    reveal_strlit("abs/");
    reveal_strlit("pdf/");
    reveal_strlit("doi/");
    reveal_strlit("doi.org/");
    reveal_strlit("book/");
    reveal_strlit("fullHtml/");
    reveal_strlit("epdf/");
    reveal_strlit("proceedings/");
    assert(doi.subrange(0, 3)[0] == '1');
    assert(doi[0] == '1');
}

/// Every URL component that automatic redirection leaves on DOIs is
/// stripped: a DOI that starts with `abs/`, `pdf/`, `doi/`, `doi.org/`,
/// `book/`, `fullHtml/`, `epdf/` or `proceedings/` is redirected to
/// `/doi/` followed by the rest of it, and any other DOI is not redirected.
pub proof fn law_components_stripped(doi: Seq<char>)
    ensures
        starts_with_spec(doi, "abs/"@) ==> redirect_spec(doi) == Some("/doi/"@ + doi.skip(4)),
        starts_with_spec(doi, "pdf/"@) ==> redirect_spec(doi) == Some("/doi/"@ + doi.skip(4)),
        starts_with_spec(doi, "doi/"@) ==> redirect_spec(doi) == Some("/doi/"@ + doi.skip(4)),
        starts_with_spec(doi, "doi.org/"@) ==> redirect_spec(doi) == Some("/doi/"@ + doi.skip(8)),
        starts_with_spec(doi, "book/"@) ==> redirect_spec(doi) == Some("/doi/"@ + doi.skip(5)),
        starts_with_spec(doi, "fullHtml/"@) ==> redirect_spec(doi) == Some("/doi/"@ + doi.skip(9)),
        starts_with_spec(doi, "epdf/"@) ==> redirect_spec(doi) == Some("/doi/"@ + doi.skip(5)),
        starts_with_spec(doi, "proceedings/"@) ==> redirect_spec(doi) == Some(
            "/doi/"@ + doi.skip(12),
        ),
        !starts_with_spec(doi, "abs/"@) && !starts_with_spec(doi, "pdf/"@) && !starts_with_spec(
            doi,
            "doi/"@,
        ) && !starts_with_spec(doi, "doi.org/"@) && !starts_with_spec(doi, "book/"@)
            && !starts_with_spec(doi, "fullHtml/"@) && !starts_with_spec(doi, "epdf/"@)
            && !starts_with_spec(doi, "proceedings/"@) ==> redirect_spec(doi) is None,
{
    reveal_strlit("abs/");
    reveal_strlit("pdf/");
    reveal_strlit("doi/");
    reveal_strlit("doi.org/");
    reveal_strlit("book/");
    reveal_strlit("fullHtml/");
    reveal_strlit("epdf/");
    reveal_strlit("proceedings/");
    if doi.len() >= 4 {
        assert(starts_with_spec(doi, "abs/"@) ==> doi[0] == 'a') by {
            if starts_with_spec(doi, "abs/"@) {
                assert(doi.subrange(0, 4)[0] == doi[0]);
            }
        }
        assert(starts_with_spec(doi, "pdf/"@) ==> doi[0] == 'p') by {
            if starts_with_spec(doi, "pdf/"@) {
                assert(doi.subrange(0, 4)[0] == doi[0]);
            }
        }
        assert(starts_with_spec(doi, "doi/"@) ==> doi[0] == 'd' && doi[3] == '/') by {
            if starts_with_spec(doi, "doi/"@) {
                assert(doi.subrange(0, 4)[0] == doi[0]);
                assert(doi.subrange(0, 4)[3] == doi[3]);
            }
        }
        assert(starts_with_spec(doi, "doi.org/"@) ==> doi[0] == 'd' && doi[3] == '.') by {
            if starts_with_spec(doi, "doi.org/"@) {
                assert(doi.subrange(0, 8)[0] == doi[0]);
                assert(doi.subrange(0, 8)[3] == doi[3]);
            }
        }
        assert(starts_with_spec(doi, "book/"@) ==> doi[0] == 'b') by {
            if starts_with_spec(doi, "book/"@) {
                assert(doi.subrange(0, 5)[0] == doi[0]);
            }
        }
        assert(starts_with_spec(doi, "fullHtml/"@) ==> doi[0] == 'f') by {
            if starts_with_spec(doi, "fullHtml/"@) {
                assert(doi.subrange(0, 9)[0] == doi[0]);
            }
        }
        assert(starts_with_spec(doi, "epdf/"@) ==> doi[0] == 'e') by {
            if starts_with_spec(doi, "epdf/"@) {
                assert(doi.subrange(0, 5)[0] == doi[0]);
            }
        }
        assert(starts_with_spec(doi, "proceedings/"@) ==> doi[0] == 'p' && doi[1] == 'r') by {
            if starts_with_spec(doi, "proceedings/"@) {
                assert(doi.subrange(0, 12)[0] == doi[0]);
                assert(doi.subrange(0, 12)[1] == doi[1]);
            }
        }
        assert(starts_with_spec(doi, "pdf/"@) ==> doi[1] == 'd') by {
            if starts_with_spec(doi, "pdf/"@) {
                assert(doi.subrange(0, 4)[1] == doi[1]);
            }
        }
    }
}

} // verus!
