use analog_library::context::Abstract;
use analog_library::keymap::KeyMap;
use analog_library::crossref::{Author, Date, Paper, Resource};
use analog_library::view::{
    abstract_view, asset, home, html_escape, not_found_page, paper_view, published_line,
    try_paper_view, AbstractView, NotFoundPage,
};

fn author(given: &str, family: &str) -> Author {
    Author {
        orcid: None,
        given: Some(given.to_string()),
        family: family.to_string(),
        sequence: "first".to_string(),
        affiliation: vec![],
    }
}

fn paper(type_: &str) -> Paper {
    Paper {
        title: "Title".to_string(),
        subtitle: vec![],
        short_title: vec![],
        author: vec![author("Ada", "Lovelace"), author("Alan", "Turing")],
        type_: type_.to_string(),
        abstract_: None,
        publisher: "ACM".to_string(),
        url: "u".to_string(),
        issued: Date { date_parts: vec![vec![2019, 5, 2]] },
        published: Date { date_parts: vec![vec![2019, 5, 2]] },
        relation: KeyMap::new(),
        resource: {
            let mut r = KeyMap::new();
            r.insert(
                "primary".to_string(),
                Resource { url: "https://dl.acm.org/doi/10.1145/9".to_string() },
            );
            r
        },
        doi: "10.1145/9".to_string(),
        container_title: vec!["CACM".to_string()],
        page: Some("1-2".to_string()),
        volume: Some("3".to_string()),
        issue: None,
        event: None,
    }
}

#[test]
fn escapes_html() {
    assert_eq!(html_escape("<a href=\"x\">&'</a>"), "&lt;a href=&quot;x&quot;&gt;&amp;'&lt;/a&gt;");
}

#[test]
fn assets_get_the_host() {
    assert_eq!(asset("go to __HOST__/doi/__HOST__", "al.org"), "go to al.org/doi/al.org");
}

#[test]
fn home_page_fills_placeholders() {
    let template = "<p>__HOST__ v__VERSION__</p><a href=\"__BOOKMARKLET__\">";
    let bm = "  javascript:location='https://__HOST__/'+x\n&&y<1  \n";
    assert_eq!(
        home(template, bm, "al.org", "1.2"),
        "<p>al.org v1.2</p><a href=\"javascript:location='https://al.org/'+x &amp;&amp;y&lt;1\">"
    );
}

#[test]
fn fake_dois_get_their_own_page() {
    assert!(matches!(not_found_page("10.5555/123"), NotFoundPage::FakeDoi { acm_url } if acm_url == "https://dl.acm.org/doi/10.5555/123"));
    assert!(matches!(not_found_page("10.1/x"), NotFoundPage::Unknown { redirector_url } if redirector_url == "https://dx.doi.org/10.1/x"));
}

#[test]
fn published_lines() {
    assert_eq!(published_line(&paper("journal-article")), "CACM, volume 3, pp. 1-2. June 2, 2019.");
    let mut p = paper("proceedings-article");
    assert_eq!(published_line(&p), "In Unknown Event. June 2, 2019.");
    p.event = Some("PLDI".to_string());
    assert_eq!(published_line(&p), "In PLDI. June 2, 2019.");
    let mut p = paper("journal-article");
    p.container_title = vec![];
    p.volume = None;
    p.page = None;
    p.issue = Some("4".to_string());
    assert_eq!(published_line(&p), "Unknown journal, issue 4. June 2, 2019.");
    assert_eq!(published_line(&paper("book")), "");
}

#[test]
fn abstract_views() {
    assert!(matches!(abstract_view(&Abstract::Jats("<jats:p>a&amp;b</jats:p>".to_string())), AbstractView::Html(h) if h == "<p>a&amp;b</p>"));
    assert!(matches!(abstract_view(&Abstract::Jats("<jats:x>a</jats:x>".to_string())), AbstractView::Source(h) if h == "<jats:x>a</jats:x>"));
    assert!(matches!(abstract_view(&Abstract::Text("  one\n\ntwo\n ".to_string())), AbstractView::Paragraphs(ps) if ps == vec!["one".to_string(), "two".to_string()]));
    assert!(matches!(abstract_view(&Abstract::Missing), AbstractView::Missing));
    // A reference that plain text cannot resolve still renders as HTML.
    assert!(matches!(abstract_view(&Abstract::Jats("a&#0;b".to_string())), AbstractView::Html(h) if h == "a&#0;b"));
}

#[test]
fn paper_page_content() {
    let p = paper("journal-article");
    let alts = vec![paper("book")];
    let v = paper_view(&p, &alts, Abstract::Jats("<jats:p>Hello  there</jats:p>".to_string()));
    assert_eq!(v.title, "Title");
    assert_eq!(v.human_type, "journal article");
    assert_eq!(v.link, Some("https://dl.acm.org/doi/10.1145/9".to_string()));
    assert_eq!(v.link_domain, Some("dl.acm.org".to_string()));
    assert_eq!(v.pdf, Some("https://dl.acm.org/doi/pdf/10.1145/9".to_string()));
    assert_eq!(v.authors, vec!["Ada Lovelace".to_string(), "Alan Turing".to_string()]);
    assert_eq!(v.author_list, "Ada Lovelace, Alan Turing");
    assert_eq!(v.alternates.len(), 1);
    assert_eq!(v.alternates[0].href, "/doi/10.1145/9");
    assert_eq!(v.alternates[0].venue, "CACM");
    assert_eq!(v.doi_url, "https://doi.org/10.1145/9");
    assert_eq!(v.description, Some("Hello  there".to_string()));
    assert_eq!(v.published_time, "2019-05-02");
    assert!(v.bibtex.starts_with("@article{lovelace2019,\n"));
}

#[test]
fn paper_page_needs_author_and_finished_abstract() {
    let mut p = paper("journal-article");
    p.author = vec![];
    assert!(try_paper_view(&p, &vec![], Abstract::Missing).is_none());
    let p = paper("journal-article");
    assert!(try_paper_view(&p, &vec![], Abstract::Jats("<jats:title>x".to_string())).is_none());
    assert!(try_paper_view(&p, &vec![], Abstract::Missing).is_some());
}
