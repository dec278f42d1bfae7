use analog_library::context::{valid_doi, PaperError};
use analog_library::serve::{
    error_response, host_or_default, paper_route, redirect_target, rsrc_mime, ErrorPage, PaperRoute,
};
use analog_library::webcache::WebcacheError;

#[test]
fn mangled_dois_redirect() {
    assert_eq!(redirect_target("abs/10.1145/1"), Some("/doi/10.1145/1".to_string()));
    assert_eq!(redirect_target("doi.org/10.1/x"), Some("/doi/10.1/x".to_string()));
    assert_eq!(redirect_target("proceedings/10.1/x"), Some("/doi/10.1/x".to_string()));
    assert_eq!(redirect_target("doi/abs/10.1/x"), Some("/doi/abs/10.1/x".to_string()));
    assert_eq!(redirect_target("10.1145/1"), None);
}

#[test]
fn redirect_chains_end() {
    let mut doi = "pdf/doi/abs/10.1/x".to_string();
    let mut hops = 0;
    while let Some(path) = redirect_target(&doi) {
        let next = path.strip_prefix("/doi/").unwrap().to_string();
        assert!(next.len() < doi.len());
        doi = next;
        hops += 1;
    }
    assert_eq!(doi, "10.1/x");
    assert_eq!(hops, 3);
    assert!(valid_doi(&doi));
}

#[test]
fn routes_by_format() {
    assert!(matches!(paper_route("10.1/x", Some("json")), PaperRoute::Json));
    assert!(matches!(paper_route("10.1/x", Some("html")), PaperRoute::Html));
    assert!(matches!(paper_route("10.1/x", None), PaperRoute::Html));
    assert!(matches!(paper_route("abs/10.1/x", Some("json")), PaperRoute::Redirect(p) if p == "/doi/10.1/x"));
}

#[test]
fn hosts_and_resources() {
    assert_eq!(host_or_default(Some("al.radbox.org")), "al.radbox.org");
    assert_eq!(host_or_default(None), "example.com");
    assert_eq!(rsrc_mime("bookmarklet.js"), Some("application/javascript"));
    assert_eq!(rsrc_mime("userscript.js"), Some("application/javascript"));
    assert_eq!(rsrc_mime("style.css"), None);
}

#[test]
fn error_pages() {
    let (s, p) = error_response(PaperError::NotFound("10.1/x".to_string()));
    assert_eq!(s, 404);
    assert!(matches!(p, ErrorPage::DoiNotFound(d) if d == "10.1/x"));
    let (s, p) = error_response(PaperError::Parse("eof".to_string()));
    assert_eq!(s, 500);
    assert!(matches!(p, ErrorPage::Unparsable(m) if m == "eof"));
    let (s, p) = error_response(PaperError::Fetch(WebcacheError::Web("x".to_string())));
    assert_eq!(s, 500);
    assert!(matches!(p, ErrorPage::Internal(m) if m == "failed loading paper data"));
}

#[test]
fn valid_dois_are_never_redirected() {
    for doi in ["10.1145/3591227", "10.1000/abs/x", "10.5555/doi.org/y"] {
        assert!(valid_doi(doi));
        assert_eq!(redirect_target(doi), None);
        assert!(matches!(paper_route(doi, None), PaperRoute::Html));
    }
}
