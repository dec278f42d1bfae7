use analog_library::context::{
    alternate_step, crossref_abstract, dump_line, fetched_body, join, request_url, ss_abstract,
    user_agent, valid_doi, Abstract, AlternateStep, PaperError, Source,
};
use analog_library::crossref::{Date, Paper};
use analog_library::keymap::KeyMap;
use analog_library::ss;
use analog_library::webcache::WebcacheError;

fn paper(doi: &str, abstract_: Option<&str>) -> Paper {
    Paper {
        title: "T".to_string(),
        subtitle: vec!["S".to_string()],
        short_title: vec![],
        author: vec![],
        type_: "journal-article".to_string(),
        abstract_: abstract_.map(|a| a.to_string()),
        publisher: "P".to_string(),
        url: "u".to_string(),
        issued: Date { date_parts: vec![vec![2000]] },
        published: Date { date_parts: vec![vec![2000]] },
        relation: KeyMap::new(),
        resource: KeyMap::new(),
        doi: doi.to_string(),
        container_title: vec![],
        page: None,
        volume: None,
        issue: None,
        event: None,
    }
}

#[test]
fn valid_dois_follow_the_pattern() {
    assert!(valid_doi("10.1145/3591227"));
    assert!(valid_doi("10.1000/a.b-c_d;(e)/f"));
    assert!(!valid_doi("10.1145"));
    assert!(!valid_doi("10.1145/"));
    assert!(!valid_doi("10./abc"));
    assert!(!valid_doi("11.1145/abc"));
    assert!(!valid_doi("10.1145/a b"));
    assert!(!valid_doi("10.1145/é"));
    assert!(!valid_doi("10.12a/x"));
}

#[test]
fn join_puts_separator_between() {
    let v = vec!["a".to_string(), "b".to_string(), "c".to_string()];
    assert_eq!(join(&v, ", "), "a, b, c");
    assert_eq!(join(&vec![], ", "), "");
    assert_eq!(join(&vec!["x".to_string()], ", "), "x");
}

#[test]
fn abstract_text_kinds() {
    assert_eq!(Abstract::Jats("<jats:p>hi</jats:p>".to_string()).text(), Some("hi".to_string()));
    assert_eq!(
        Abstract::Jats("<jats:zz>hi</jats:zz>".to_string()).text(),
        Some("<jats:zz>hi</jats:zz>".to_string())
    );
    assert_eq!(Abstract::Text("plain".to_string()).text(), Some("plain".to_string()));
    assert_eq!(Abstract::Missing.text(), None);
    assert_eq!(Abstract::Jats("<jats:title>x".to_string()).checked_text(), None);
    assert_eq!(Abstract::Missing.checked_text(), Some(None));
}

#[test]
fn user_agent_with_and_without_contact() {
    assert_eq!(user_agent("al/1.0", Some("me@x.org")), "al/1.0 (mailto:me@x.org)");
    assert_eq!(user_agent("al/1.0", Some("")), "al/1.0");
    assert_eq!(user_agent("al/1.0", None), "al/1.0");
}

#[test]
fn request_urls_by_source() {
    assert_eq!(
        request_url("10.1/x", &Source::Crossref).ok(),
        Some("https://api.crossref.org/v1/works/10.1/x".to_string())
    );
    assert_eq!(
        request_url("10.1/x", &Source::SemanticScholar).ok(),
        Some("https://api.semanticscholar.org/graph/v1/paper/DOI:10.1/x?fields=abstract".to_string())
    );
    assert!(matches!(request_url("bogus", &Source::Crossref), Err(PaperError::NotFound(d)) if d == "bogus"));
}

#[test]
fn fetched_body_missing_is_not_found() {
    assert_eq!(fetched_body("10.1/x", Some(vec![1, 2])).ok(), Some(vec![1, 2]));
    assert!(matches!(fetched_body("10.1/x", None), Err(PaperError::NotFound(d)) if d == "10.1/x"));
}

#[test]
fn abstract_from_paper_then_alternates() {
    let own = paper("10.1/a", Some("own"));
    let bare = paper("10.1/b", None);
    let alts = vec![paper("10.1/c", None), paper("10.1/d", Some("alt")), paper("10.1/e", Some("later"))];
    assert!(matches!(crossref_abstract(&own, &alts), Some(Abstract::Jats(a)) if a == "own"));
    assert!(matches!(crossref_abstract(&bare, &alts), Some(Abstract::Jats(a)) if a == "alt"));
    assert!(crossref_abstract(&bare, &vec![]).is_none());
}

#[test]
fn abstract_from_semantic_scholar() {
    let found = ss::Paper {
        paper_id: "p".to_string(),
        title: "t".to_string(),
        authors: vec![],
        abstract_: Some("text".to_string()),
    };
    assert!(matches!(ss_abstract(Ok(found)), Ok(Abstract::Text(t)) if t == "text"));
    let none = ss::Paper { paper_id: "p".to_string(), title: "t".to_string(), authors: vec![], abstract_: None };
    assert!(matches!(ss_abstract(Ok(none)), Ok(Abstract::Missing)));
    assert!(matches!(ss_abstract(Err(PaperError::NotFound("d".to_string()))), Ok(Abstract::Missing)));
    assert!(matches!(ss_abstract(Err(PaperError::Parse("bad".to_string()))), Err(PaperError::Parse(m)) if m == "bad"));
}

#[test]
fn alternate_steps() {
    assert!(matches!(alternate_step(Ok(paper("10.1/a", None))), AlternateStep::Keep(p) if p.doi == "10.1/a"));
    assert!(matches!(alternate_step(Err(PaperError::NotFound("x".to_string()))), AlternateStep::Skip));
    assert!(matches!(
        alternate_step(Err(PaperError::Fetch(WebcacheError::Web("down".to_string())))),
        AlternateStep::Stop(PaperError::Fetch(_))
    ));
}

#[test]
fn error_messages() {
    assert_eq!(PaperError::NotFound("x".to_string()).message(), "no paper entry found for this DOI");
    assert_eq!(PaperError::Parse("x".to_string()).message(), "could not parse API response");
    assert_eq!(
        PaperError::Fetch(WebcacheError::Cache("x".to_string())).message(),
        "failed loading paper data"
    );
}

#[test]
fn cache_dump_lines() {
    let p = paper("10.1/a", None);
    assert_eq!(
        dump_line("https://api.crossref.org/v1/works/10.1/a", 12, Some(&p)),
        Some("12 10.1/a T: S".to_string())
    );
    assert_eq!(
        dump_line("https://api.crossref.org/v1/works/10.1/a", 7, None),
        Some("7 deserialization error: https://api.crossref.org/v1/works/10.1/a".to_string())
    );
    assert_eq!(dump_line("https://api.semanticscholar.org/x", 7, None), None);
}
