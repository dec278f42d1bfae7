use analog_library::jats::{normalize, to_html, to_text, try_to_html, try_to_text, JatsError};

#[test]
fn test_p() {
    let jats = "<jats:p>hi</jats:p>";
    assert_eq!(to_html(jats).unwrap(), "<p>hi</p>");
    assert_eq!(to_text(jats).unwrap(), "hi");
}

#[test]
fn test_italic() {
    let jats = "<jats:italic>hi</jats:italic>";
    assert_eq!(to_html(jats).unwrap(), "<i>hi</i>");
    assert_eq!(to_text(jats).unwrap(), "hi");
}

#[test]
fn test_bold() {
    let jats = "<jats:bold>hi</jats:bold>";
    assert_eq!(to_html(jats).unwrap(), "<b>hi</b>");
    assert_eq!(to_text(jats).unwrap(), "hi");
}

#[test]
fn test_drop_title() {
    let jats = "<jats:title>foo</jats:title>bar";
    assert_eq!(to_html(jats).unwrap(), "bar");
    assert_eq!(to_text(jats).unwrap(), "bar");
}

#[test]
fn test_entities() {
    let jats = "&lt;br&gt;";
    assert_eq!(to_html(jats).unwrap(), "&lt;br&gt;");
    assert_eq!(to_text(jats).unwrap(), "br");
}

#[test]
fn all_tags_translate() {
    let jats = "<jats:sub>1</jats:sub><jats:sup>2</jats:sup><jats:underline>3</jats:underline><jats:strike>4</jats:strike><jats:monospace>5</jats:monospace>";
    assert_eq!(
        to_html(jats).unwrap(),
        "<sub>1</sub><sup>2</sup><u>3</u><s>4</s><code>5</code>"
    );
    assert_eq!(to_text(jats).unwrap(), "12345");
}

#[test]
fn unknown_tag_is_an_error() {
    assert_eq!(to_html("<jats:list>x</jats:list>"), Err(JatsError::UnknownTag));
    assert_eq!(to_text("<jats:list>x</jats:list>"), Err(JatsError::UnknownTag));
    assert_eq!(to_html("</jats:title>"), Err(JatsError::Xml));
}

#[test]
fn malformed_xml_is_an_error() {
    assert_eq!(to_html("<jats:p>hi</jats:bold>"), Err(JatsError::Xml));
    assert_eq!(to_text("<jats:p>hi</jats:bold>"), Err(JatsError::Xml));
}

#[test]
fn character_references_resolve_in_text() {
    assert_eq!(to_text("A&#66;&#x43;").unwrap(), "ABC");
    assert_eq!(to_html("A&#66;&#x43;").unwrap(), "A&#66;&#x43;");
}

#[test]
fn unterminated_ignored_tag_gives_none() {
    assert_eq!(try_to_html("<jats:title>never closed"), None);
    assert_eq!(try_to_text("<jats:title>never closed"), None);
    assert_eq!(try_to_html("<jats:p>x</jats:p>"), Some(Ok("<p>x</p>".to_string())));
}

#[test]
fn malformed_char_ref_gives_none_in_text_only() {
    assert_eq!(try_to_text("&#0;"), None);
    assert_eq!(try_to_text("&#xZZ;"), None);
    assert_eq!(try_to_html("&#0;"), Some(Ok("&#0;".to_string())));
}

#[test]
fn html_and_text_fail_alike() {
    for doc in ["<jats:foo/>ok", "<jats:x>y</jats:x>", "<jats:p>", "a</jats:p>"] {
        let h = to_html(doc);
        let t = to_text(doc);
        assert_eq!(h.is_ok(), t.is_ok(), "{doc}");
        if let (Err(a), Err(b)) = (h, t) {
            assert_eq!(a, b);
        }
    }
}

#[test]
fn text_whitespace_is_normalized() {
    let jats = "<jats:p>\n  first line\n   second line  \n</jats:p>\n\n<jats:p>  next\n paragraph </jats:p>";
    // An odd number of blank lines leaves a space at the start of the next
    // paragraph, as the line-then-paragraph normalization gives it.
    assert_eq!(to_text(jats).unwrap(), "first line second line\n\n next paragraph");
    // Paragraph tags vanish in plain text: only blank lines part paragraphs.
    let two = "<jats:p>a\n b</jats:p>\n<jats:p>c</jats:p>";
    assert_eq!(to_text(two).unwrap(), "a b c");
    assert_eq!(normalize("  a \n b \n\n c  "), "a b\n\nc");
    assert_eq!(normalize(""), "");
}

#[test]
fn plain_text_is_trimmed() {
    let jats = "  <jats:p>\n  hi \n there \n\n</jats:p>  ";
    assert_eq!(to_text(jats).unwrap(), "hi there");
    for text in ["\n\n\n x \n\n\n y \n\n\n", " \t ", "\u{3000}z\u{3000}"] {
        let n = normalize(text);
        assert_eq!(n.trim(), n.as_str(), "{text:?}");
    }
    assert_eq!(normalize("\n\n\n x \n\n\n y \n\n\n"), "x\n\n y");
}
