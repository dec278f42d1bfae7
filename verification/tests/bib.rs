use analog_library::bib::{citekey, BibStr, Entry, Type};
use analog_library::keymap::KeyMap;
use analog_library::crossref::{Author, Date, Paper};

#[test]
fn test_plain() {
    let s = "hi there";
    assert_eq!(BibStr::new(s).to_string(), r"{hi there}");
}

#[test]
fn test_verb() {
    let s = "hi there";
    assert_eq!(BibStr::verb(s).to_string(), r"{{hi there}}");
}

#[test]
fn test_ampersand() {
    let s = "hi & there";
    assert_eq!(BibStr::new(s).to_string(), r"{hi \& there}");
}

#[test]
fn test_ampersand_verb() {
    let s = "hi & there";
    assert_eq!(BibStr::verb(s).to_string(), r"{{hi & there}}");
}

#[test]
fn bibstr_escapes_braces_even_verbatim() {
    assert_eq!(BibStr::verb("a{b}\\c").to_string(), r"{{a\{b\}\\c}}");
    assert_eq!(BibStr::new("50% of $x_1$ #1 ~ ^").to_string(), r"{50\% of \$x\_1\$ \#1 \~ \^}");
}

fn author(given: Option<&str>, family: &str) -> Author {
    Author {
        orcid: None,
        given: given.map(|g| g.to_string()),
        family: family.to_string(),
        sequence: "first".to_string(),
        affiliation: vec![],
    }
}

fn paper(type_: &str, parts: Vec<u32>) -> Paper {
    Paper {
        title: "Time, Clocks, & the Ordering".to_string(),
        subtitle: vec![],
        short_title: vec![],
        author: vec![author(Some("Leslie"), "Lamport"), author(None, "O'Brien")],
        type_: type_.to_string(),
        abstract_: None,
        publisher: "ACM".to_string(),
        url: "https://doi.org/10.1145/359545.359563".to_string(),
        issued: Date { date_parts: vec![parts.clone()] },
        published: Date { date_parts: vec![parts] },
        relation: KeyMap::new(),
        resource: KeyMap::new(),
        doi: "10.1145/359545.359563".to_string(),
        container_title: vec!["Communications of the ACM".to_string()],
        page: Some("558-565".to_string()),
        volume: Some("21".to_string()),
        issue: Some("7".to_string()),
        event: Some("SOSP".to_string()),
    }
}

#[test]
fn citekey_looks_like_lamport1978() {
    let p = paper("journal-article", vec![1978, 7, 1]);
    assert_eq!(citekey(&p), "lamport1978");
}

#[test]
fn citekey_keeps_only_ascii_letters_in_lower_case() {
    let mut p = paper("journal-article", vec![2001]);
    p.author[0].family = "Van der Zwaan-Ørsted".to_string();
    let key = citekey(&p);
    assert_eq!(key, "vanderzwaanrsted2001");
    assert!(key.chars().all(|c| c.is_ascii_lowercase() || c.is_ascii_digit()));
}

#[test]
fn type_from_crossref_kinds() {
    assert!(matches!(Type::from_crossref("journal-article"), Type::Article));
    assert!(matches!(Type::from_crossref("proceedings-article"), Type::InProceedings));
    assert!(matches!(Type::from_crossref("book-chapter"), Type::Misc));
    assert_eq!(Type::from_crossref("journal-article").name(), "article");
    assert_eq!(Type::from_crossref("proceedings-article").name(), "inproceedings");
    assert_eq!(Type::from_crossref("other").name(), "misc");
}

#[test]
fn entry_for_journal_article() {
    let p = paper("journal-article", vec![1978, 7, 1]);
    let expected = "@article{lamport1978,\n  title = {{Time, Clocks, & the Ordering}},\n  author = {Leslie Lamport and O'Brien},\n  journal = {Communications of the ACM},\n  volume = {21},\n  issue = {7},\n  year = 1978,\n  month = 7,\n  day = 1,\n  doi = {10.1145/359545.359563},\n}";
    assert_eq!(Entry(&p).to_string(), expected);
}

#[test]
fn entry_for_proceedings_article() {
    let p = paper("proceedings-article", vec![2020, 3]);
    let expected = "@inproceedings{lamport2020,\n  title = {{Time, Clocks, & the Ordering}},\n  author = {Leslie Lamport and O'Brien},\n  booktitle = {SOSP},\n  year = 2020,\n  doi = {10.1145/359545.359563},\n}";
    assert_eq!(Entry(&p).to_string(), expected);
}

#[test]
fn entry_for_other_work_escapes_fields() {
    let mut p = paper("book", vec![1999]);
    p.doi = "10.1/a_b".to_string();
    let expected = "@misc{lamport1999,\n  title = {{Time, Clocks, & the Ordering}},\n  author = {Leslie Lamport and O'Brien},\n  year = 1999,\n  doi = {10.1/a\\_b},\n}";
    assert_eq!(Entry(&p).to_string(), expected);
}
