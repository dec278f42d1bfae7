//! Translation of JATS XML abstracts to HTML and to plain text.
//!
//! The XML itself is read by `quick_xml`; this module decides what each
//! event of the reader contributes to the output.
use crate::text::{
    chars_of, is_ws, join, join_spec, lemma_join_first, lemma_join_last, lemma_split_first,
    lemma_split_last, lemma_trim_edges, lemma_trim_keeps_edges, push_char, push_str, split,
    split_spec, str_equal, string_of, trim, trim_all, trim_each, trim_spec, views,
};
use quick_xml::events::Event;
use quick_xml::reader::Reader;
use vstd::prelude::*;

verus! {

#[verifier::external_type_specification]
#[verifier::external_body]
#[verifier::reject_recursive_types(R)]
pub struct ExXmlReader<R>(quick_xml::reader::Reader<R>);

#[verifier::external_type_specification]
#[verifier::external_body]
pub struct ExXmlError(quick_xml::Error);

/// One event of the XML reader, as far as the translation looks at it.
pub enum XmlEvent {
    /// A start tag, with its (qualified) name.
    Start(String),
    /// An end tag, with its (qualified) name.
    End(String),
    /// Character data between tags, still escaped.
    Text(String),
    /// A general reference `&name;`, with the text between `&` and `;`.
    GeneralRef(String),
    /// The end of the document.
    Eof,
    /// Any other event (empty elements, comments, CDATA, declarations, ...).
    Other,
}

/// The mathematical form of an [`XmlEvent`].
pub enum XmlEventView {
    Start(Seq<char>),
    End(Seq<char>),
    Text(Seq<char>),
    GeneralRef(Seq<char>),
    Eof,
    Other,
}

impl View for XmlEvent {
    type V = XmlEventView;

    open spec fn view(&self) -> XmlEventView {
        match self {
            XmlEvent::Start(n) => XmlEventView::Start(n@),
            XmlEvent::End(n) => XmlEventView::End(n@),
            XmlEvent::Text(t) => XmlEventView::Text(t@),
            XmlEvent::GeneralRef(r) => XmlEventView::GeneralRef(r@),
            XmlEvent::Eof => XmlEventView::Eof,
            XmlEvent::Other => XmlEventView::Other,
        }
    }
}

/// The events that `quick_xml`'s reader yields on `input` when it is created
/// with `Reader::from_str` and read with `read_event` (each converted by
/// [`next_event`]), up to and including the first `Eof` or the first error
/// (an error is `None`).
pub uninterp spec fn xml_events(input: Seq<char>) -> Seq<Option<XmlEventView>>;

/// The events that a reader has still to yield, up to and including the
/// first `Eof` or error.
pub uninterp spec fn pending_events(reader: Reader<&[u8]>) -> Seq<Option<XmlEventView>>;

/// Whether an item of the event stream ends it.
pub open spec fn is_terminal(e: Option<XmlEventView>) -> bool {
    match e {
        None => true,
        Some(XmlEventView::Eof) => true,
        Some(_) => false,
    }
}

/// An event stream that ends with its first `Eof` or error.
pub open spec fn stream_wf(s: Seq<Option<XmlEventView>>) -> bool {
    &&& s.len() > 0
    &&& is_terminal(s.last())
    &&& forall|i: int| 0 <= i < s.len() - 1 ==> !is_terminal(#[trigger] s[i])
}

/// Creates an XML reader on a string.
///
/// Trusted: wraps `quick_xml::Reader::from_str`. The contract names the
/// stream the reader will yield ([`xml_events`]) and states that it ends
/// with an `Eof` or an error: a reader on a finite slice advances on every
/// event until it reports `Eof`.
#[verifier::external_body]
fn open_reader(input: &str) -> (reader: Reader<&[u8]>)
    ensures
        pending_events(reader) == xml_events(input@),
        stream_wf(pending_events(reader)),
{
    Reader::from_str(input)
}

/// Reads the next event.
///
/// Trusted: wraps `quick_xml::Reader::read_event` and converts the event,
/// decoding names, text and references with the reader's UTF-8 decoder. The
/// contract states that the reader yields the head of its pending stream and
/// keeps the rest pending.
#[verifier::external_body]
fn next_event(reader: &mut Reader<&[u8]>) -> (res: Result<XmlEvent, quick_xml::Error>)
    requires
        pending_events(*old(reader)).len() > 0,
    ensures
        pending_events(*final(reader)) == pending_events(*old(reader)).drop_first(),
        pending_events(*old(reader))[0] == (match res {
            Ok(e) => Some(e@),
            Err(_) => None,
        }),
{
    let ev = reader.read_event()?;
    let dec = reader.decoder();
    Ok(match ev {
        Event::Start(e) => XmlEvent::Start(dec.decode(e.name().as_ref())?.into_owned()),
        Event::End(e) => XmlEvent::End(dec.decode(e.name().as_ref())?.into_owned()),
        Event::Text(e) => XmlEvent::Text(e.decode()?.into_owned()),
        Event::GeneralRef(e) => XmlEvent::GeneralRef(e.decode()?.into_owned()),
        Event::Eof => XmlEvent::Eof,
        _ => XmlEvent::Other,
    })
}


/// The value of `c` as a digit in base `radix` (10 or 16), as
/// `char::to_digit` gives it.
pub open spec fn digit_value(c: char, radix: nat) -> Option<nat> {
    let n = c as u32;
    if 48 <= n <= 57 {
        Some((n - 48) as nat)
    } else if radix == 16 && 97 <= n <= 102 {
        Some((n - 87) as nat)
    } else if radix == 16 && 65 <= n <= 70 {
        Some((n - 55) as nat)
    } else {
        None
    }
}

/// The number that `digits` spell in base `radix`, if they are all digits.
pub open spec fn number_value(digits: Seq<char>, radix: nat) -> Option<nat>
    decreases digits.len(),
{
    if digits.len() == 0 {
        Some(0)
    } else {
        match (number_value(digits.drop_last(), radix), digit_value(digits.last(), radix)) {
            (Some(v), Some(d)) => Some(v * radix + d),
            _ => None,
        }
    }
}

/// What `u32::from_str_radix` accepts once a leading sign has been refused:
/// at least one digit, and a value that fits in a `u32`.
pub open spec fn parse_code(digits: Seq<char>, radix: nat) -> Option<nat> {
    if digits.len() == 0 || digits[0] == '+' || digits[0] == '-' {
        None
    } else {
        match number_value(digits, radix) {
            Some(v) => if v <= 0xFFFF_FFFF { Some(v) } else { None },
            None => None,
        }
    }
}

/// What `quick_xml`'s `BytesRef::resolve_char_ref` gives for a reference
/// whose text is `name`: `Some(None)` for an entity reference (no leading
/// `#`), `Some(Some(c))` for a valid character reference `#ddd` or `#xhh`,
/// and `None` (an error) for a malformed one, a zero, or a code that is no
/// Unicode scalar value.
pub open spec fn char_ref_spec(name: Seq<char>) -> Option<Option<char>> {
    if name.len() > 0 && name[0] == '#' {
        let num = name.drop_first();
        let code = if num.len() > 0 && num[0] == 'x' {
            parse_code(num.drop_first(), 16)
        } else {
            parse_code(num, 10)
        };
        match code {
            Some(c) => if c != 0 && (c < 0xD800 || (0xDFFF < c && c <= 0x10FFFF)) {
                Some(Some(c as char))
            } else {
                None
            },
            None => None,
        }
    } else {
        Some(None)
    }
}

/// Resolves a character reference.
///
/// Trusted: wraps `quick_xml::events::BytesRef::resolve_char_ref` on a
/// reference built from `name`; the contract restates the function's source
/// (strip `#`, then `x` for hexadecimal, parse with `u32::from_str_radix`
/// after refusing a sign, refuse zero and non-scalar codes).
#[verifier::external_body]
fn resolve_char_ref(name: &str) -> (res: Result<Option<char>, quick_xml::Error>)
    ensures
        match res {
            Ok(c) => char_ref_spec(name@) == Some(c),
            Err(_) => char_ref_spec(name@) is None,
        },
{
    quick_xml::events::BytesRef::new(name).resolve_char_ref()
}

/// The HTML tag that a JATS tag becomes.
pub open spec fn trans_tag_spec(tag: Seq<char>) -> Option<Seq<char>> {
    if tag == "jats:p"@ {
        Some("p"@)
    } else if tag == "jats:italic"@ {
        Some("i"@)
    } else if tag == "jats:bold"@ {
        Some("b"@)
    } else if tag == "jats:sub"@ {
        Some("sub"@)
    } else if tag == "jats:sup"@ {
        Some("sup"@)
    } else if tag == "jats:underline"@ {
        Some("u"@)
    } else if tag == "jats:strike"@ {
        Some("s"@)
    } else if tag == "jats:monospace"@ {
        Some("code"@)
    } else {
        None
    }
}

/// Whether the whole content of a JATS tag is dropped.
pub open spec fn ignore_tag_spec(tag: Seq<char>) -> bool {
    tag == "jats:title"@
}

/// Translates a JATS tag to an HTML tag.
pub fn trans_tag(tag: &str) -> (res: Option<&'static str>)
    ensures
        match res {
            Some(t) => trans_tag_spec(tag@) == Some(t@),
            None => trans_tag_spec(tag@) is None,
        },
{
    if str_equal(tag, "jats:p") {
        Some("p")
    } else if str_equal(tag, "jats:italic") {
        Some("i")
    } else if str_equal(tag, "jats:bold") {
        Some("b")
    } else if str_equal(tag, "jats:sub") {
        Some("sub")
    } else if str_equal(tag, "jats:sup") {
        Some("sup")
    } else if str_equal(tag, "jats:underline") {
        Some("u")
    } else if str_equal(tag, "jats:strike") {
        Some("s")
    } else if str_equal(tag, "jats:monospace") {
        Some("code")
    } else {
        None
    }
}

/// Checks if we should ignore the entire contents of a given JATS tag.
pub fn ignore_tag(tag: &str) -> (b: bool)
    ensures
        b == ignore_tag_spec(tag@),
{
    str_equal(tag, "jats:title")
}


/// An output text format.
pub enum Format {
    Html,
    Plain,
}

/// How a run over the event stream ends.
pub enum Outcome {
    /// The document was translated to this text.
    Done(Seq<char>),
    /// The reader reported an error.
    XmlError,
    /// A tag that is neither translated nor ignored.
    UnknownTag,
    /// A malformed character reference in plain-text output (where the
    /// translation would stop on a failed `unwrap`).
    BadCharRef,
    /// The document ended inside an ignored tag (where the translation would
    /// keep reading `Eof` forever).
    Hangs,
}

/// The translation of the remaining events, given whether an ignored tag is
/// open and the output so far.
pub open spec fn run_events(
    events: Seq<Option<XmlEventView>>,
    html: bool,
    ignore: bool,
    out: Seq<char>,
) -> Outcome
    decreases events.len(),
{
    if events.len() == 0 {
        Outcome::XmlError
    } else {
        let rest = events.drop_first();
        match events[0] {
            None => Outcome::XmlError,
            Some(ev) => if ignore {
                match ev {
                    XmlEventView::End(name) => run_events(rest, html, !ignore_tag_spec(name), out),
                    XmlEventView::Eof => Outcome::Hangs,
                    _ => run_events(rest, html, true, out),
                }
            } else {
                match ev {
                    XmlEventView::Start(name) => match trans_tag_spec(name) {
                        Some(t) => run_events(
                            rest,
                            html,
                            false,
                            if html { out + seq!['<'] + t + seq!['>'] } else { out },
                        ),
                        None => if ignore_tag_spec(name) {
                            run_events(rest, html, true, out)
                        } else {
                            Outcome::UnknownTag
                        },
                    },
                    XmlEventView::End(name) => match trans_tag_spec(name) {
                        Some(t) => run_events(
                            rest,
                            html,
                            false,
                            if html { out + seq!['<', '/'] + t + seq!['>'] } else { out },
                        ),
                        None => Outcome::UnknownTag,
                    },
                    XmlEventView::Text(t) => run_events(rest, html, false, out + t),
                    XmlEventView::GeneralRef(r) => if html {
                        run_events(rest, html, false, out + seq!['&'] + r + seq![';'])
                    } else {
                        match char_ref_spec(r) {
                            Some(Some(c)) => run_events(rest, html, false, out.push(c)),
                            Some(None) => run_events(rest, html, false, out),
                            None => Outcome::BadCharRef,
                        }
                    },
                    XmlEventView::Eof => Outcome::Done(out),
                    XmlEventView::Other => run_events(rest, html, false, out),
                }
            },
        }
    }
}

/// The translation of a whole JATS document.
pub open spec fn translate_spec(jats: Seq<char>, html: bool) -> Outcome {
    run_events(xml_events(jats), html, false, seq![])
}

/// How [`translate`] ended.
pub enum Translation {
    Done(String),
    XmlError,
    UnknownTag,
    BadCharRef,
    Hangs,
}

impl View for Translation {
    type V = Outcome;

    open spec fn view(&self) -> Outcome {
        match self {
            Translation::Done(s) => Outcome::Done(s@),
            Translation::XmlError => Outcome::XmlError,
            Translation::UnknownTag => Outcome::UnknownTag,
            Translation::BadCharRef => Outcome::BadCharRef,
            Translation::Hangs => Outcome::Hangs,
        }
    }
}

proof fn lemma_stream_rest(s: Seq<Option<XmlEventView>>)
    requires
        stream_wf(s),
        !is_terminal(s[0]),
    ensures
        stream_wf(s.drop_first()),
{
    let r = s.drop_first();
    assert(s.len() > 1);
    assert(r.last() == s.last());
    assert forall|i: int| 0 <= i < r.len() - 1 implies !is_terminal(#[trigger] r[i]) by {
        assert(r[i] == s[i + 1]);
    }
}

/// Translates JATS XML to the specified text format, reporting how the
/// translation ends.
pub fn translate(jats: &str, fmt: Format) -> (res: Translation)
    ensures
        res@ == translate_spec(jats@, fmt is Html),
{
    let html = match fmt {
        Format::Html => true,
        Format::Plain => false,
    };
    let mut reader = open_reader(jats);
    let mut out = String::new();
    let mut ignore = false;
    loop
        invariant
            stream_wf(pending_events(reader)),
            run_events(pending_events(reader), html, ignore, out@) == translate_spec(jats@, html),
            html == (fmt is Html),
        decreases pending_events(reader).len(),
    {
        let ghost pending = pending_events(reader);
        let ghost old_out = out@;
        let ev = match next_event(&mut reader) {
            Ok(ev) => ev,
            Err(_) => return Translation::XmlError,
        };
        proof {
            if !is_terminal(pending[0]) {
                lemma_stream_rest(pending);
            }
        }
        if ignore {
            match ev {
                XmlEvent::End(name) => {
                    if ignore_tag(name.as_str()) {
                        ignore = false;
                    }
                },
                XmlEvent::Eof => return Translation::Hangs,
                _ => {},
            }
        } else {
            match ev {
                XmlEvent::Start(name) => {
                    if let Some(t) = trans_tag(name.as_str()) {
                        if html {
                            push_char(&mut out, '<');
                            push_str(&mut out, t);
                            push_char(&mut out, '>');
                            assert(out@ =~= old_out + seq!['<'] + t@ + seq!['>']);
                        }
                    } else if ignore_tag(name.as_str()) {
                        ignore = true;
                    } else {
                        return Translation::UnknownTag;
                    }
                },
                XmlEvent::End(name) => {
                    if let Some(t) = trans_tag(name.as_str()) {
                        if html {
                            push_char(&mut out, '<');
                            push_char(&mut out, '/');
                            push_str(&mut out, t);
                            push_char(&mut out, '>');
                            assert(out@ =~= old_out + seq!['<', '/'] + t@ + seq!['>']);
                        }
                    } else {
                        return Translation::UnknownTag;
                    }
                },
                XmlEvent::Text(t) => {
                    push_str(&mut out, t.as_str());
                },
                XmlEvent::GeneralRef(r) => {
                    if html {
                        push_char(&mut out, '&');
                        push_str(&mut out, r.as_str());
                        push_char(&mut out, ';');
                        assert(out@ =~= old_out + seq!['&'] + r@ + seq![';']);
                    } else {
                        match resolve_char_ref(r.as_str()) {
                            Ok(Some(c)) => push_char(&mut out, c),
                            Ok(None) => {},
                            Err(_) => return Translation::BadCharRef,
                        }
                    }
                },
                XmlEvent::Eof => return Translation::Done(out),
                XmlEvent::Other => {},
            }
        }
    }
}


/// Why a JATS document could not be translated.
#[derive(Debug, PartialEq, Eq, Structural)]
pub enum JatsError {
    /// XML parse error.
    Xml,
    /// Unknown tag.
    UnknownTag,
}

/// The whitespace normalization applied to plain text: every line is
/// trimmed, the whole text is trimmed, and within each paragraph (separated
/// by an empty line) the lines are joined with single spaces.
pub open spec fn normalize_text(t: Seq<char>) -> Seq<char> {
    let lines = join_spec(trim_all(split_spec(t, seq!['\n'])), seq!['\n']);
    let pars = split_spec(trim_spec(lines), seq!['\n', '\n']);
    join_spec(paragraphs_spec(pars), seq!['\n', '\n'])
}

/// One paragraph with its lines trimmed and joined by single spaces.
pub open spec fn paragraph_spec(par: Seq<char>) -> Seq<char> {
    join_spec(trim_all(split_spec(par, seq!['\n'])), seq![' '])
}

/// Each paragraph normalized as [`paragraph_spec`] says.
pub open spec fn paragraphs_spec(pars: Seq<Seq<char>>) -> Seq<Seq<char>> {
    pars.map_values(|par: Seq<char>| paragraph_spec(par))
}

/// The result of a finished translation, with `post` applied to the text.
pub open spec fn outcome_matches(
    o: Outcome,
    r: Result<String, JatsError>,
    post: spec_fn(Seq<char>) -> Seq<char>,
) -> bool {
    match o {
        Outcome::Done(s) => r matches Ok(t) && t@ == post(s),
        Outcome::XmlError => r == Err::<String, JatsError>(JatsError::Xml),
        Outcome::UnknownTag => r == Err::<String, JatsError>(JatsError::UnknownTag),
        _ => false,
    }
}

proof fn lemma_html_never_bad_ref(events: Seq<Option<XmlEventView>>, ignore: bool, out: Seq<char>)
    ensures
        !(run_events(events, true, ignore, out) is BadCharRef),
    decreases events.len(),
{
    if events.len() > 0 {
        let rest = events.drop_first();
        lemma_html_never_bad_ref(rest, true, out);
        lemma_html_never_bad_ref(rest, false, out);
        match events[0] {
            Some(XmlEventView::Start(name)) => {
                if let Some(t) = trans_tag_spec(name) {
                    lemma_html_never_bad_ref(rest, false, out + seq!['<'] + t + seq!['>']);
                }
            },
            Some(XmlEventView::End(name)) => {
                if let Some(t) = trans_tag_spec(name) {
                    lemma_html_never_bad_ref(rest, false, out + seq!['<', '/'] + t + seq!['>']);
                }
                lemma_html_never_bad_ref(rest, !ignore_tag_spec(name), out);
            },
            Some(XmlEventView::Text(t)) => {
                lemma_html_never_bad_ref(rest, false, out + t);
            },
            Some(XmlEventView::GeneralRef(r)) => {
                lemma_html_never_bad_ref(rest, false, out + seq!['&'] + r + seq![';']);
            },
            _ => {},
        }
    }
}

/// Translates JATS XML to HTML.
pub fn to_html(jats: &str) -> (res: Result<String, JatsError>)
    requires
        !(translate_spec(jats@, true) is Hangs),
    ensures
        outcome_matches(translate_spec(jats@, true), res, |s: Seq<char>| s),
{
    proof {
        lemma_html_never_bad_ref(xml_events(jats@), false, seq![]);
    }
    match translate(jats, Format::Html) {
        Translation::Done(s) => Ok(s),
        Translation::XmlError => Err(JatsError::Xml),
        Translation::UnknownTag => Err(JatsError::UnknownTag),
        Translation::BadCharRef => Err(JatsError::Xml),
        Translation::Hangs => Err(JatsError::Xml),
    }
}

/// Normalizes whitespace in plain text (see [`normalize_text`]).
pub fn normalize(text: &str) -> (res: String)
    ensures
        res@ == normalize_text(text@),
{
    let chars = chars_of(text);
    let nl = vec!['\n'];
    let nlnl = vec!['\n', '\n'];
    let space = vec![' '];
    let lines = trim_each(&split(chars.as_slice(), nl.as_slice()));
    let joined = join(&lines, nl.as_slice());
    let trimmed = trim(joined.as_slice());
    let pars = split(trimmed.as_slice(), nlnl.as_slice());
    let ghost pars_v = views(pars@);
    let mut out_pars: Vec<Vec<char>> = Vec::new();
    let mut i: usize = 0;
    while i < pars.len()
        invariant
            i <= pars.len(),
            pars_v == views(pars@),
            nl@ == seq!['\n'],
            space@ == seq![' '],
            views(out_pars@) == paragraphs_spec(pars_v).take(i as int),
        decreases pars.len() - i,
    {
        let pieces = split(pars[i].as_slice(), nl.as_slice());
        let par_lines = trim_each(&pieces);
        let par = join(&par_lines, space.as_slice());
        proof {
            assert(views(pieces@) == split_spec(pars@[i as int]@, seq!['\n']));
            assert(views(par_lines@) == trim_all(split_spec(pars@[i as int]@, seq!['\n'])));
            assert(par@ == join_spec(trim_all(split_spec(pars@[i as int]@, seq!['\n'])), seq![' ']));
            assert(pars_v[i as int] == pars@[i as int]@);
            assert(par@ == paragraph_spec(pars_v[i as int]));
            assert(views(out_pars@.push(par)) == views(out_pars@).push(par@));
            assert(paragraphs_spec(pars_v).take(i + 1) == paragraphs_spec(pars_v).take(
                i as int,
            ).push(paragraph_spec(pars_v[i as int])));
        }
        out_pars.push(par);
        i = i + 1;
    }
    assert(paragraphs_spec(pars_v).take(pars.len() as int) == paragraphs_spec(pars_v));
    let result = join(&out_pars, nlnl.as_slice());
    string_of(result.as_slice())
}

/// Whether plain-text translation of `jats` finishes (it does not when the
/// document ends inside an ignored tag or holds a malformed character
/// reference).
pub open spec fn text_finishes(jats: Seq<char>) -> bool {
    !(translate_spec(jats, false) is Hangs) && !(translate_spec(jats, false) is BadCharRef)
}

/// Translates JATS XML to plain text.
pub fn to_text(jats: &str) -> (res: Result<String, JatsError>)
    requires
        text_finishes(jats@),
    ensures
        outcome_matches(translate_spec(jats@, false), res, |s: Seq<char>| normalize_text(s)),
{
    match translate(jats, Format::Plain) {
        Translation::Done(s) => Ok(normalize(s.as_str())),
        Translation::XmlError => Err(JatsError::Xml),
        Translation::UnknownTag => Err(JatsError::UnknownTag),
        Translation::BadCharRef => Err(JatsError::Xml),
        Translation::Hangs => Err(JatsError::Xml),
    }
}

/// Translates JATS XML to HTML, or gives `None` where the translation would
/// not finish (the document ends inside an ignored tag).
pub fn try_to_html(jats: &str) -> (res: Option<Result<String, JatsError>>)
    ensures
        res is None <==> translate_spec(jats@, true) is Hangs,
        res matches Some(r) ==> outcome_matches(translate_spec(jats@, true), r, |s: Seq<char>| s),
{
    match translate(jats, Format::Html) {
        Translation::Hangs => None,
        _ => Some(to_html(jats)),
    }
}

/// Translates JATS XML to plain text, or gives `None` where the translation
/// would not finish (see [`text_finishes`]).
pub fn try_to_text(jats: &str) -> (res: Option<Result<String, JatsError>>)
    ensures
        res is None <==> !text_finishes(jats@),
        res matches Some(r) ==> outcome_matches(
            translate_spec(jats@, false),
            r,
            |s: Seq<char>| normalize_text(s),
        ),
{
    match translate(jats, Format::Plain) {
        Translation::Hangs => None,
        Translation::BadCharRef => None,
        _ => Some(to_text(jats)),
    }
}


/// How a translation ends, without its text.
pub open spec fn fate(o: Outcome) -> int {
    match o {
        Outcome::Done(_) => 0,
        Outcome::XmlError => 1,
        Outcome::UnknownTag => 2,
        Outcome::BadCharRef => 3,
        Outcome::Hangs => 4,
    }
}

proof fn lemma_same_fate(
    events: Seq<Option<XmlEventView>>,
    ignore: bool,
    out_html: Seq<char>,
    out_text: Seq<char>,
)
    ensures
        run_events(events, false, ignore, out_text) is BadCharRef || fate(
            run_events(events, true, ignore, out_html),
        ) == fate(run_events(events, false, ignore, out_text)),
    decreases events.len(),
{
    if events.len() > 0 {
        let rest = events.drop_first();
        match events[0] {
            None => {},
            Some(ev) => if ignore {
                match ev {
                    XmlEventView::End(name) => lemma_same_fate(
                        rest,
                        !ignore_tag_spec(name),
                        out_html,
                        out_text,
                    ),
                    XmlEventView::Eof => {},
                    _ => lemma_same_fate(rest, true, out_html, out_text),
                }
            } else {
                match ev {
                    XmlEventView::Start(name) => match trans_tag_spec(name) {
                        Some(t) => lemma_same_fate(
                            rest,
                            false,
                            out_html + seq!['<'] + t + seq!['>'],
                            out_text,
                        ),
                        None => lemma_same_fate(rest, true, out_html, out_text),
                    },
                    XmlEventView::End(name) => match trans_tag_spec(name) {
                        Some(t) => lemma_same_fate(
                            rest,
                            false,
                            out_html + seq!['<', '/'] + t + seq!['>'],
                            out_text,
                        ),
                        None => {},
                    },
                    XmlEventView::Text(t) => lemma_same_fate(
                        rest,
                        false,
                        out_html + t,
                        out_text + t,
                    ),
                    XmlEventView::GeneralRef(r) => match char_ref_spec(r) {
                        Some(Some(c)) => lemma_same_fate(
                            rest,
                            false,
                            out_html + seq!['&'] + r + seq![';'],
                            out_text.push(c),
                        ),
                        Some(None) => lemma_same_fate(
                            rest,
                            false,
                            out_html + seq!['&'] + r + seq![';'],
                            out_text,
                        ),
                        None => {},
                    },
                    XmlEventView::Eof => {},
                    XmlEventView::Other => lemma_same_fate(rest, false, out_html, out_text),
                }
            },
        }
    }
}

/// The HTML and the plain-text translation of a JATS document succeed on
/// the same documents and fail on the others in the same way (a reader
/// error, an unknown tag, or an ignored tag left open), unless the
/// plain-text one meets a malformed character reference.
pub proof fn law_html_text_same_fate(jats: Seq<char>)
    ensures
        translate_spec(jats, false) is BadCharRef || fate(translate_spec(jats, true)) == fate(
            translate_spec(jats, false),
        ),
{
    lemma_same_fate(xml_events(jats), false, seq![], seq![]);
}

/// Plain text comes out trimmed: the normalized text that [`to_text`]
/// returns is empty or begins and ends with a character that is not
/// whitespace.
pub proof fn law_plain_text_trimmed(t: Seq<char>)
    ensures
        normalize_text(t).len() > 0 ==> !is_ws(normalize_text(t)[0]) && !is_ws(
            normalize_text(t).last(),
        ),
{
    let nl = seq!['\n'];
    let nlnl = seq!['\n', '\n'];
    let lines = join_spec(trim_all(split_spec(t, nl)), nl);
    let tr = trim_spec(lines);
    let pars = split_spec(tr, nlnl);
    let ps = paragraphs_spec(pars);
    lemma_trim_edges(lines);
    if tr.len() == 0 {
        assert(tr.subrange(0, 0) =~= tr);
        assert(pars == seq![tr]);
        assert(split_spec(tr, nl) == seq![tr]);
        assert(trim_all(seq![tr]) == seq![tr]);
    } else {
        lemma_split_first(tr, nlnl, 0, 0);
        let p0 = pars[0];
        lemma_split_first(p0, nl, 0, 0);
        let q0 = split_spec(p0, nl)[0];
        lemma_trim_keeps_edges(q0);
        lemma_join_first(trim_all(split_spec(p0, nl)), seq![' ']);
        lemma_join_first(ps, nlnl);

        lemma_split_last(tr, nlnl, 0, 0);
        let pl = pars.last();
        lemma_split_last(pl, nl, 0, 0);
        let ql = split_spec(pl, nl).last();
        lemma_trim_keeps_edges(ql);
        lemma_join_last(trim_all(split_spec(pl, nl)), seq![' ']);
        lemma_join_last(ps, nlnl);
    }
}


/// Inside a title, only the title's own end tag stops the dropping.
proof fn lemma_skip_title_body(
    inner: Seq<Option<XmlEventView>>,
    rest: Seq<Option<XmlEventView>>,
    html: bool,
    out: Seq<char>,
)
    requires
        forall|i: int|
            0 <= i < inner.len() ==> (#[trigger] inner[i]) is Some && inner[i] != Some(
                XmlEventView::Eof,
            ) && inner[i] != Some(XmlEventView::End("jats:title"@)),
    ensures
        run_events(inner + seq![Some(XmlEventView::End("jats:title"@))] + rest, html, true, out)
            == run_events(rest, html, false, out),
    decreases inner.len(),
{
    let tail = seq![Some(XmlEventView::End("jats:title"@))] + rest;
    let whole = inner + seq![Some(XmlEventView::End("jats:title"@))] + rest;
    assert(whole =~= inner + tail);
    if inner.len() == 0 {
        assert(whole =~= tail);
        assert(tail.drop_first() =~= rest);
        assert(ignore_tag_spec("jats:title"@));
    } else {
        let next = inner.drop_first() + seq![Some(XmlEventView::End("jats:title"@))] + rest;
        assert(whole[0] == inner[0]);
        assert(whole.drop_first() =~= next);
        assert forall|i: int| 0 <= i < inner.drop_first().len() implies (#[trigger] inner.drop_first()[i]) is Some
            && inner.drop_first()[i] != Some(XmlEventView::Eof) && inner.drop_first()[i] != Some(
            XmlEventView::End("jats:title"@),
        ) by {
            assert(inner.drop_first()[i] == inner[i + 1]);
        }
        lemma_skip_title_body(inner.drop_first(), rest, html, out);
        assert(inner[0] is Some);
    }
}

/// A title is dropped whole, nested markup included: a document whose
/// events are a `jats:title` start tag, any events other than the end of
/// the document or a reader error or a `jats:title` end tag, the title's
/// end tag, then the rest, translates as the rest alone (in HTML and in
/// plain text).
pub proof fn law_title_dropped(
    inner: Seq<Option<XmlEventView>>,
    rest: Seq<Option<XmlEventView>>,
    html: bool,
    out: Seq<char>,
    jats: Seq<char>,
)
    requires
        forall|i: int|
            0 <= i < inner.len() ==> (#[trigger] inner[i]) is Some && inner[i] != Some(
                XmlEventView::Eof,
            ) && inner[i] != Some(XmlEventView::End("jats:title"@)),
    ensures
        run_events(
            seq![Some(XmlEventView::Start("jats:title"@))] + inner + seq![
                Some(XmlEventView::End("jats:title"@)),
            ] + rest,
            html,
            false,
            out,
        ) == run_events(rest, html, false, out),
        xml_events(jats) == seq![Some(XmlEventView::Start("jats:title"@))] + inner + seq![
            Some(XmlEventView::End("jats:title"@)),
        ] + rest ==> translate_spec(jats, html) == run_events(rest, html, false, seq![]),
{
    lemma_tag_literals();
    assert(trans_tag_spec("jats:title"@) is None);
    assert(ignore_tag_spec("jats:title"@));
    let body = inner + seq![Some(XmlEventView::End("jats:title"@))] + rest;
    let whole = seq![Some(XmlEventView::Start("jats:title"@))] + inner + seq![
        Some(XmlEventView::End("jats:title"@)),
    ] + rest;
    assert(whole[0] == Some(XmlEventView::Start("jats:title"@)));
    assert(whole.drop_first() =~= body);
    lemma_skip_title_body(inner, rest, html, out);
    lemma_skip_title_body(inner, rest, html, seq![]);
}

proof fn lemma_tag_literals()
    ensures
        "jats:title"@.len() == 10,
        "jats:p"@.len() == 6,
        "jats:italic"@.len() == 11,
        "jats:bold"@.len() == 9,
        "jats:sub"@.len() == 8,
        "jats:sup"@.len() == 8,
        "jats:underline"@.len() == 14,
        "jats:strike"@.len() == 11,
        "jats:monospace"@.len() == 14,
        "jats:sub"@ != "jats:sup"@,
        "jats:italic"@ != "jats:strike"@,
        "jats:underline"@ != "jats:monospace"@,
{
    reveal_strlit("jats:title");
    reveal_strlit("jats:p");
    reveal_strlit("jats:italic");
    reveal_strlit("jats:bold");
    reveal_strlit("jats:sub");
    reveal_strlit("jats:sup");
    reveal_strlit("jats:underline");
    reveal_strlit("jats:strike");
    reveal_strlit("jats:monospace");
    assert("jats:sub"@[7] != "jats:sup"@[7]);
    assert("jats:italic"@[5] != "jats:strike"@[5]);
    assert("jats:underline"@[5] != "jats:monospace"@[5]);
}

/// What each event outside a dropped title does: text is copied as it
/// stands, the end of the document finishes the translation with the text
/// so far, a reader error stops it, other events (comments, empty
/// elements, ...) add nothing, and in HTML a reference `&r;` is copied as
/// it stands.
pub proof fn law_event_steps(
    t: Seq<char>,
    rest: Seq<Option<XmlEventView>>,
    html: bool,
    out: Seq<char>,
)
    ensures
        run_events(seq![Some(XmlEventView::Text(t))] + rest, html, false, out) == run_events(
            rest,
            html,
            false,
            out + t,
        ),
        run_events(seq![Some(XmlEventView::Eof)] + rest, html, false, out) == Outcome::Done(out),
        run_events(seq![None] + rest, html, false, out) == Outcome::XmlError,
        run_events(seq![Some(XmlEventView::Other)] + rest, html, false, out) == run_events(
            rest,
            html,
            false,
            out,
        ),
        run_events(seq![Some(XmlEventView::GeneralRef(t))] + rest, true, false, out) == run_events(
            rest,
            true,
            false,
            out + "&"@ + t + ";"@,
        ),
{
    reveal_strlit("&");
    reveal_strlit(";");
    assert((seq![Some(XmlEventView::Text(t))] + rest).drop_first() =~= rest);
    assert((seq![Some(XmlEventView::Other)] + rest).drop_first() =~= rest);
    assert((seq![Some(XmlEventView::GeneralRef(t))] + rest).drop_first() =~= rest);
    assert(out + seq!['&'] + t + seq![';'] =~= out + "&"@ + t + ";"@);
}

/// The JATS formatting tags and the HTML tags they become: `jats:p` is
/// `p`, `jats:italic` is `i`, `jats:bold` is `b`, `jats:sub` is `sub`,
/// `jats:sup` is `sup`, `jats:underline` is `u`, `jats:strike` is `s` and
/// `jats:monospace` is `code`. In HTML their start and end tags are written
/// as those HTML tags; in plain text they add nothing.
pub proof fn law_formatting_tags(
    jats_tag: Seq<char>,
    html_tag: Seq<char>,
    rest: Seq<Option<XmlEventView>>,
    out: Seq<char>,
)
    requires
        (jats_tag == "jats:p"@ && html_tag == "p"@) || (jats_tag == "jats:italic"@ && html_tag
            == "i"@) || (jats_tag == "jats:bold"@ && html_tag == "b"@) || (jats_tag
            == "jats:sub"@ && html_tag == "sub"@) || (jats_tag == "jats:sup"@ && html_tag
            == "sup"@) || (jats_tag == "jats:underline"@ && html_tag == "u"@) || (jats_tag
            == "jats:strike"@ && html_tag == "s"@) || (jats_tag == "jats:monospace"@ && html_tag
            == "code"@),
    ensures
        run_events(seq![Some(XmlEventView::Start(jats_tag))] + rest, true, false, out)
            == run_events(rest, true, false, out + "<"@ + html_tag + ">"@),
        run_events(seq![Some(XmlEventView::End(jats_tag))] + rest, true, false, out)
            == run_events(rest, true, false, out + "</"@ + html_tag + ">"@),
        run_events(seq![Some(XmlEventView::Start(jats_tag))] + rest, false, false, out)
            == run_events(rest, false, false, out),
        run_events(seq![Some(XmlEventView::End(jats_tag))] + rest, false, false, out)
            == run_events(rest, false, false, out),
{
    lemma_tag_literals();
    reveal_strlit("<");
    reveal_strlit(">");
    reveal_strlit("</");
    assert(trans_tag_spec(jats_tag) == Some(html_tag));
    assert((seq![Some(XmlEventView::Start(jats_tag))] + rest).drop_first() =~= rest);
    assert((seq![Some(XmlEventView::End(jats_tag))] + rest).drop_first() =~= rest);
    assert(out + seq!['<'] + html_tag + seq!['>'] =~= out + "<"@ + html_tag + ">"@);
    assert(out + seq!['<', '/'] + html_tag + seq!['>'] =~= out + "</"@ + html_tag + ">"@);
}

/// Any other tag stops the translation as unknown: a start tag that is
/// neither a formatting tag nor `jats:title`, and an end tag that is not a
/// formatting tag (a `jats:title` end tag with no title open included).
pub proof fn law_unknown_tags(
    name: Seq<char>,
    rest: Seq<Option<XmlEventView>>,
    html: bool,
    out: Seq<char>,
)
    requires
        name != "jats:p"@,
        name != "jats:italic"@,
        name != "jats:bold"@,
        name != "jats:sub"@,
        name != "jats:sup"@,
        name != "jats:underline"@,
        name != "jats:strike"@,
        name != "jats:monospace"@,
    ensures
        run_events(seq![Some(XmlEventView::End(name))] + rest, html, false, out)
            == Outcome::UnknownTag,
        name != "jats:title"@ ==> run_events(
            seq![Some(XmlEventView::Start(name))] + rest,
            html,
            false,
            out,
        ) == Outcome::UnknownTag,
{
}

/// In plain text, a reference that names an entity rather than a
/// character (`&lt;`, `&amp;`, ...: no leading `#`) adds nothing.
pub proof fn law_plain_entities_dropped(
    r: Seq<char>,
    rest: Seq<Option<XmlEventView>>,
    out: Seq<char>,
)
    requires
        r.len() == 0 || r[0] != '#',
    ensures
        run_events(seq![Some(XmlEventView::GeneralRef(r))] + rest, false, false, out)
            == run_events(rest, false, false, out),
{
    assert((seq![Some(XmlEventView::GeneralRef(r))] + rest).drop_first() =~= rest);
}

} // verus!
