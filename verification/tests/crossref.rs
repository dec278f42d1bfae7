use analog_library::crossref::{domain, month, paper_url, Author, Date, Paper, Relation, Resource};
use analog_library::keymap::KeyMap;

fn key_map<V>(entries: Vec<(&str, V)>) -> KeyMap<V> {
    let mut m = KeyMap::new();
    for (k, v) in entries {
        m.insert(k.to_string(), v);
    }
    m
}

fn relation(id: &str) -> Relation {
    Relation {
        id_type: "doi".to_string(),
        id: id.to_string(),
        asserted_by: "subject".to_string(),
    }
}

fn base_paper() -> Paper {
    Paper {
        title: "Main".to_string(),
        subtitle: vec!["Sub One".to_string(), "Sub Two".to_string()],
        short_title: vec![],
        author: vec![],
        type_: "proceedings-article".to_string(),
        abstract_: None,
        publisher: "ACM".to_string(),
        url: "https://doi.org/10.1145/1".to_string(),
        issued: Date { date_parts: vec![vec![2020]] },
        published: Date { date_parts: vec![vec![2020]] },
        relation: key_map(vec![
            ("has-preprint", vec![relation("10.9/pre")]),
            ("is-identical-to", vec![relation("10.1/a"), relation("10.1/b")]),
        ]),
        resource: key_map(vec![(
            "primary",
            Resource { url: "https://www.dl.acm.org/doi/10.1145/1".to_string() },
        )]),
        doi: "10.1145/1".to_string(),
        container_title: vec![],
        page: None,
        volume: None,
        issue: None,
        event: Some("PLDI".to_string()),
    }
}

#[test]
fn title_joins_subtitles() {
    assert_eq!(base_paper().title(), "Main: Sub One: Sub Two");
    let mut p = base_paper();
    p.subtitle = vec![];
    assert_eq!(p.title(), "Main");
}

#[test]
fn identical_dois_lists_relation_ids() {
    assert_eq!(base_paper().identical_dois(), vec!["10.1/a".to_string(), "10.1/b".to_string()]);
    let mut p = base_paper();
    p.relation = KeyMap::new();
    assert!(p.identical_dois().is_empty());
}

#[test]
fn domain_strips_www() {
    assert_eq!(domain("https://www.example.com/path"), Some("example.com".to_string()));
    assert_eq!(domain("https://dl.acm.org/doi/10.1"), Some("dl.acm.org".to_string()));
    assert_eq!(domain("http://127.0.0.1/x"), None);
    assert_eq!(domain("not a url"), None);
}

#[test]
fn acm_links() {
    let p = base_paper();
    assert_eq!(p.resource_url(), Some("https://www.dl.acm.org/doi/10.1145/1"));
    assert!(p.is_acm());
    assert_eq!(p.pdf_url(), Some("https://dl.acm.org/doi/pdf/10.1145/1".to_string()));
    assert_eq!(p.link_url(), Some("https://dl.acm.org/doi/10.1145/1".to_string()));
}

#[test]
fn non_acm_links() {
    let mut p = base_paper();
    p.resource = key_map(vec![(
        "primary",
        Resource { url: "https://link.springer.com/x".to_string() },
    )]);
    assert!(!p.is_acm());
    assert_eq!(p.pdf_url(), None);
    assert_eq!(p.link_url(), Some("https://link.springer.com/x".to_string()));
    p.resource = KeyMap::new();
    assert_eq!(p.resource_url(), None);
    assert!(!p.is_acm());
    assert_eq!(p.link_url(), None);
}

#[test]
fn human_type_and_event() {
    let mut p = base_paper();
    assert_eq!(p.human_type(), "proceedings article");
    assert_eq!(p.event_title(), Some("PLDI"));
    p.event = None;
    assert_eq!(p.event_title(), None);
}

#[test]
fn author_names() {
    let a = Author {
        orcid: None,
        given: Some("Ada".to_string()),
        family: "Lovelace".to_string(),
        sequence: "first".to_string(),
        affiliation: vec![],
    };
    assert_eq!(a.name(), "Ada Lovelace");
    let b = Author { given: None, ..a };
    assert_eq!(b.name(), "Lovelace");
}

#[test]
fn date_parts_and_formats() {
    let d = Date { date_parts: vec![vec![2021, 3, 9]] };
    assert_eq!(d.year(), 2021);
    assert_eq!(d.month(), Some(3));
    assert_eq!(d.day(), Some(9));
    assert_eq!(d.iso(), "2021-03-09");
    assert_eq!(d.to_string(), "April 9, 2021");
    let d = Date { date_parts: vec![vec![987, 11]] };
    assert_eq!(d.iso(), "0987-11");
    assert_eq!(d.to_string(), "December 987");
    assert_eq!(d.day(), None);
    let d = Date { date_parts: vec![vec![2000]] };
    assert_eq!(d.iso(), "2000");
    assert_eq!(d.to_string(), "2000");
    assert_eq!(d.month(), None);
    let d = Date { date_parts: vec![vec![]] };
    assert_eq!(d.iso(), "");
    assert_eq!(d.to_string(), "");
}

#[test]
fn month_names() {
    assert_eq!(month(0), "January");
    assert_eq!(month(11), "December");
    assert_eq!(month(12), "?");
}

#[test]
fn crossref_api_address() {
    assert_eq!(paper_url("10.1/x"), "https://api.crossref.org/v1/works/10.1/x");
}

#[test]
fn key_map_insert_replaces_and_keeps_order() {
    let mut m = key_map(vec![("a", 1), ("b", 2)]);
    assert_eq!(m.get("a"), Some(&1));
    assert_eq!(m.get("c"), None);
    m.insert("a".to_string(), 3);
    m.insert("c".to_string(), 4);
    assert_eq!(m.get("a"), Some(&3));
    assert_eq!(
        m.into_entries(),
        vec![("a".to_string(), 3), ("b".to_string(), 2), ("c".to_string(), 4)]
    );
}
