//! What the application decides around fetching a paper: which DOIs it
//! accepts, where it asks for them, and where an abstract comes from.
use crate::bib::ascii_lower;
use crate::crossref::{self, Paper};
use crate::jats::{normalize_text, text_finishes, to_text, translate_spec, Outcome};
use crate::ss;
use crate::text::{
    chars_of, join_spec, opt_view, push_str, starts_with, starts_with_spec, string_views,
    to_owned,
};
use crate::webcache::WebcacheError;
use vstd::prelude::*;

verus! {

/// Whether a character may follow the `10.` of a DOI: an ASCII letter or
/// digit, or one of `.-_;()/`.
pub open spec fn doi_char(c: char) -> bool {
    ||| ('0' <= c && c <= '9')
    ||| ('a' <= c && c <= 'z')
    ||| ('A' <= c && c <= 'Z')
    ||| c == '.'
    ||| c == '-'
    ||| c == '_'
    ||| c == ';'
    ||| c == '('
    ||| c == ')'
    ||| c == '/'
}

/// Whether `c` is an ASCII digit.
pub open spec fn is_digit(c: char) -> bool {
    '0' <= c && c <= '9'
}

/// Where the run of digits that starts at position `i` ends.
pub open spec fn digits_end(s: Seq<char>, i: int) -> int
    decreases s.len() - i,
{
    if 0 <= i < s.len() && is_digit(s[i]) {
        digits_end(s, i + 1)
    } else {
        i
    }
}

/// A DOI as the regex `10\.[0-9]+/[A-Za-z0-9\.-_;()/]+` describes it
/// (suggested by Crossref staff): `10.`, one or more digits, `/`, then one
/// or more ASCII letters, digits or characters among `.-_;()/`.
pub open spec fn valid_doi_spec(doi: Seq<char>) -> bool {
    let k = digits_end(doi, 3);
    &&& starts_with_spec(doi, "10."@)
    &&& k > 3
    &&& k + 1 < doi.len()
    &&& doi[k] == '/'
    &&& forall|i: int| k < i < doi.len() ==> doi_char(#[trigger] doi[i])
}

/// Checks whether a DOI is valid (see [`valid_doi_spec`]).
pub fn valid_doi(doi: &str) -> (b: bool)
    ensures
        b == valid_doi_spec(doi@),
{
    proof {
        reveal_strlit("10.");
    }
    let cs = chars_of(doi);
    let prefix = chars_of("10.");
    if !starts_with(cs.as_slice(), prefix.as_slice()) {
        return false;
    }
    let n = cs.len();
    let mut k: usize = 3;
    while k < n && '0' <= cs[k] && cs[k] <= '9'
        invariant
            3 <= k <= n == cs.len(),
            cs@ == doi@,
            digits_end(cs@, 3) == digits_end(cs@, k as int),
        decreases n - k,
    {
        k = k + 1;
    }
    if k == 3 || k >= n - 1 || cs[k] != '/' {
        return false;
    }
    let mut i: usize = k + 1;
    while i < n
        invariant
            k + 1 <= i <= n == cs.len(),
            cs@ == doi@,
            digits_end(cs@, 3) == k,
            forall|j: int| k < j < i ==> doi_char(#[trigger] cs@[j]),
        decreases n - i,
    {
        let c = cs[i];
        if !(('0' <= c && c <= '9') || ('a' <= c && c <= 'z') || ('A' <= c && c <= 'Z') || c == '.'
            || c == '-' || c == '_' || c == ';' || c == '(' || c == ')' || c == '/') {
            return false;
        }
        i = i + 1;
    }
    true
}

/// Joins strings with a separator between each two of them.
pub fn join(ss: &Vec<String>, sep: &str) -> (out: String)
    ensures
        out@ == join_spec(string_views(ss@), sep@),
{
    let mut out = String::new();
    let mut i: usize = 0;
    while i < ss.len()
        invariant
            i <= ss.len(),
            out@ == join_spec(string_views(ss@).take(i as int), sep@),
        decreases ss.len() - i,
    {
        let ghost before = out@;
        if i > 0 {
            push_str(&mut out, sep);
        }
        push_str(&mut out, ss[i].as_str());
        proof {
            let t = string_views(ss@).take(i + 1);
            assert(t.drop_last() == string_views(ss@).take(i as int));
            assert(t.last() == ss@[i as int]@);
            if i == 0 {
                assert(t.len() == 1);
                assert(out@ =~= t[0]);
            }
        }
        i = i + 1;
    }
    assert(string_views(ss@).take(ss.len() as int) == string_views(ss@));
    out
}

/// An abstract that is either encoded in JATS XML, as plain text, or
/// missing altogether.
pub enum Abstract {
    Jats(String),
    Text(String),
    Missing,
}

impl Abstract {
    /// Whether the plain text of the abstract can be computed (a JATS
    /// abstract whose translation does not finish has none).
    pub open spec fn text_ready(&self) -> bool {
        match self {
            Abstract::Jats(j) => text_finishes(j@),
            _ => true,
        }
    }

    /// The abstract as plain text: the translated JATS (or the JATS source
    /// where it cannot be translated), the text itself, or nothing.
    pub open spec fn text_spec(&self) -> Option<Seq<char>> {
        match self {
            Abstract::Jats(j) => match translate_spec(j@, false) {
                Outcome::Done(s) => Some(normalize_text(s)),
                _ => Some(j@),
            },
            Abstract::Text(t) => Some(t@),
            Abstract::Missing => None,
        }
    }

    /// The abstract as plain text.
    pub fn text(self) -> (res: Option<String>)
        requires
            self.text_ready(),
        ensures
            opt_view(res) == self.text_spec(),
    {
        match self {
            Abstract::Jats(j) => match to_text(j.as_str()) {
                Ok(t) => Some(t),
                Err(_) => Some(j),
            },
            Abstract::Text(t) => Some(t),
            Abstract::Missing => None,
        }
    }

    /// The abstract as plain text, or `None` where a JATS abstract cannot be
    /// translated to the end (see [`Abstract::text_ready`]).
    pub fn checked_text(self) -> (res: Option<Option<String>>)
        ensures
            res is None <==> !self.text_ready(),
            res matches Some(t) ==> opt_view(t) == self.text_spec(),
    {
        let ready = match &self {
            Abstract::Jats(j) => match crate::jats::try_to_text(j.as_str()) {
                Some(_) => true,
                None => false,
            },
            _ => true,
        };
        if ready {
            Some(self.text())
        } else {
            None
        }
    }
}

/// The data sources for DOI data.
#[derive(Debug)]
pub enum Source {
    Crossref,
    SemanticScholar,
}

/// Why a paper could not be shown.
pub enum PaperError {
    /// Failed loading paper data.
    Fetch(WebcacheError),
    /// Could not parse the API response (the parser's description).
    Parse(String),
    /// No paper entry found for this DOI.
    NotFound(String),
}

impl PaperError {
    /// The error's message.
    pub fn message(&self) -> (s: &'static str)
        ensures
            s@ == match self {
                PaperError::Fetch(_) => "failed loading paper data"@,
                PaperError::Parse(_) => "could not parse API response"@,
                PaperError::NotFound(_) => "no paper entry found for this DOI"@,
            },
    {
        match self {
            PaperError::Fetch(_) => "failed loading paper data",
            PaperError::Parse(_) => "could not parse API response",
            PaperError::NotFound(_) => "no paper entry found for this DOI",
        }
    }
}

/// The user agent: the program's name and version, then the contact
/// address in parentheses where one is set and not empty.
pub open spec fn user_agent_spec(base: Seq<char>, mailto: Option<Seq<char>>) -> Seq<char> {
    match mailto {
        Some(email) => if email.len() > 0 {
            base + " (mailto:"@ + email + ")"@
        } else {
            base
        },
        None => base,
    }
}

/// The user agent sent with API requests.
pub fn user_agent(base: &str, mailto: Option<&str>) -> (ua: String)
    ensures
        ua@ == user_agent_spec(
            base@,
            match mailto {
                Some(m) => Some(m@),
                None => None,
            },
        ),
{
    let mut out = to_owned(base);
    if let Some(email) = mailto {
        if chars_of(email).len() > 0 {
            push_str(&mut out, " (mailto:");
            push_str(&mut out, email);
            push_str(&mut out, ")");
        }
    }
    out
}

/// The API address for a DOI at a source.
pub open spec fn source_url_spec(doi: Seq<char>, source: Source) -> Seq<char> {
    match source {
        Source::Crossref => crossref::paper_url_spec(doi),
        Source::SemanticScholar => ss::paper_url_spec(doi),
    }
}

/// Where to ask a source about a DOI: nowhere (not found) for an invalid
/// DOI.
pub fn request_url(doi: &str, source: &Source) -> (res: Result<String, PaperError>)
    ensures
        res is Ok <==> valid_doi_spec(doi@),
        res matches Ok(u) ==> u@ == source_url_spec(doi@, *source),
        res matches Err(e) ==> (e matches PaperError::NotFound(d) && d@ == doi@),
{
    if !valid_doi(doi) {
        return Err(PaperError::NotFound(to_owned(doi)));
    }
    match source {
        Source::Crossref => Ok(crossref::paper_url(doi)),
        Source::SemanticScholar => Ok(ss::paper_url(doi)),
    }
}

/// The answer to a DOI request once the cache or the API has been asked:
/// the body, or not found where there is none.
pub fn fetched_body(doi: &str, body: Option<Vec<u8>>) -> (res: Result<Vec<u8>, PaperError>)
    ensures
        match body {
            Some(b) => res == Ok::<Vec<u8>, PaperError>(b),
            None => res matches Err(e) && (e matches PaperError::NotFound(d) && d@ == doi@),
        },
{
    match body {
        Some(b) => Ok(b),
        None => Err(PaperError::NotFound(to_owned(doi))),
    }
}


/// The first abstract among the alternates.
pub open spec fn alternates_abstract_spec(alternates: Seq<Paper>) -> Option<String>
    decreases alternates.len(),
{
    if alternates.len() == 0 {
        None
    } else {
        match alternates[0].abstract_ {
            Some(a) => Some(a),
            None => alternates_abstract_spec(alternates.drop_first()),
        }
    }
}

/// The abstract that Crossref has: the paper's own, else the first one
/// among its identical alternates.
pub open spec fn crossref_abstract_spec(paper: Paper, alternates: Seq<Paper>) -> Option<Abstract> {
    match paper.abstract_ {
        Some(a) => Some(Abstract::Jats(a)),
        None => match alternates_abstract_spec(alternates) {
            Some(a) => Some(Abstract::Jats(a)),
            None => None,
        },
    }
}

/// Finds the abstract that Crossref has for a paper: its own, or, when
/// it has none, the first one among its identical alternates (which often
/// do have one). `None` means Semantic Scholar is to be asked.
pub fn crossref_abstract(paper: &Paper, alternates: &Vec<Paper>) -> (res: Option<Abstract>)
    ensures
        res == crossref_abstract_spec(*paper, alternates@),
{
    if let Some(a) = &paper.abstract_ {
        return Some(Abstract::Jats(a.clone()));
    }
    let mut i: usize = 0;
    assert(alternates@.skip(0) == alternates@);
    while i < alternates.len()
        invariant
            i <= alternates.len(),
            paper.abstract_ is None,
            alternates_abstract_spec(alternates@) == alternates_abstract_spec(
                alternates@.skip(i as int),
            ),
        decreases alternates.len() - i,
    {
        assert(alternates@.skip(i as int).drop_first() == alternates@.skip(i + 1));
        if let Some(a) = &alternates[i].abstract_ {
            return Some(Abstract::Jats(a.clone()));
        }
        i = i + 1;
    }
    None
}

/// The abstract once Semantic Scholar has been asked: its text, missing
/// where it has none or does not know the paper, or the error.
pub fn ss_abstract(result: Result<ss::Paper, PaperError>) -> (res: Result<Abstract, PaperError>)
    ensures
        match result {
            Ok(p) => match p.abstract_ {
                Some(a) => res == Ok::<Abstract, PaperError>(Abstract::Text(a)),
                None => res == Ok::<Abstract, PaperError>(Abstract::Missing),
            },
            Err(PaperError::NotFound(_)) => res == Ok::<Abstract, PaperError>(Abstract::Missing),
            Err(e) => res == Err::<Abstract, PaperError>(e),
        },
{
    match result {
        Ok(p) => match p.abstract_ {
            Some(a) => Ok(Abstract::Text(a)),
            None => Ok(Abstract::Missing),
        },
        Err(PaperError::NotFound(_)) => Ok(Abstract::Missing),
        Err(e) => Err(e),
    }
}

/// What one alternate lookup contributes to the list of alternates.
pub enum AlternateStep {
    /// The alternate was found.
    Keep(Paper),
    /// Crossref does not know it: leave it out.
    Skip,
    /// Any other error ends the search.
    Stop(PaperError),
}

/// Judges the lookup of one identical DOI.
pub fn alternate_step(result: Result<Paper, PaperError>) -> (step: AlternateStep)
    ensures
        match result {
            Ok(p) => step == AlternateStep::Keep(p),
            Err(PaperError::NotFound(_)) => step is Skip,
            Err(e) => step == AlternateStep::Stop(e),
        },
{
    match result {
        Ok(p) => AlternateStep::Keep(p),
        Err(PaperError::NotFound(_)) => AlternateStep::Skip,
        Err(e) => AlternateStep::Stop(e),
    }
}

/// The prefix of the cache keys of Crossref records.
pub open spec fn crossref_prefix() -> Seq<char> {
    "https://api.crossref.org/v1/works/"@
}

/// The line that the cache dump prints for an entry, if it is a Crossref
/// record: the fetch time, then the DOI and title, or a note that the
/// record does not parse.
pub open spec fn dump_line_spec(url: Seq<char>, time: u64, paper: Option<Paper>) -> Option<
    Seq<char>,
> {
    if starts_with_spec(url, crossref_prefix()) {
        Some(
            crate::text::decimal_spec(time as nat) + seq![' '] + match paper {
                Some(p) => p.doi@ + seq![' '] + crossref::with_subtitles(
                    p.title@,
                    string_views(p.subtitle@),
                ),
                None => "deserialization error: "@ + url,
            },
        )
    } else {
        None
    }
}

/// The cache dump's line for an entry (see [`dump_line_spec`]).
pub fn dump_line(url: &str, time: u64, paper: Option<&Paper>) -> (res: Option<String>)
    ensures
        opt_view(res) == dump_line_spec(
            url@,
            time,
            match paper {
                Some(p) => Some(*p),
                None => None,
            },
        ),
{
    let cs = chars_of(url);
    let prefix = chars_of("https://api.crossref.org/v1/works/");
    if !starts_with(cs.as_slice(), prefix.as_slice()) {
        return None;
    }
    let mut out = crate::text::string_of(crate::text::decimal(time).as_slice());
    crate::text::push_char(&mut out, ' ');
    match paper {
        Some(p) => {
            push_str(&mut out, p.doi.as_str());
            crate::text::push_char(&mut out, ' ');
            let t = p.title();
            push_str(&mut out, t.as_str());
        },
        None => {
            push_str(&mut out, "deserialization error: ");
            push_str(&mut out, url);
        },
    }
    Some(out)
}

/// The upper-case form of an ASCII letter (other characters unchanged).
pub open spec fn ascii_upper(c: char) -> char {
    if 'a' <= c && c <= 'z' {
        ((c as u32) - 32) as char
    } else {
        c
    }
}

proof fn lemma_case_char(c: char)
    ensures
        is_digit(ascii_upper(c)) == is_digit(c),
        is_digit(ascii_lower(c)) == is_digit(c),
        doi_char(ascii_upper(c)) == doi_char(c),
        doi_char(ascii_lower(c)) == doi_char(c),
        (ascii_upper(c) == '/') == (c == '/'),
        (ascii_lower(c) == '/') == (c == '/'),
        (ascii_upper(c) == '1') == (c == '1'),
        (ascii_lower(c) == '1') == (c == '1'),
        (ascii_upper(c) == '0') == (c == '0'),
        (ascii_lower(c) == '0') == (c == '0'),
        (ascii_upper(c) == '.') == (c == '.'),
        (ascii_lower(c) == '.') == (c == '.'),
{
    if 'a' <= c && c <= 'z' {
        assert(97 <= c as u32 <= 122);
        assert((((c as u32) - 32) as char) as u32 == (c as u32) - 32);
    }
    if 'A' <= c && c <= 'Z' {
        assert(65 <= c as u32 <= 90);
        assert((((c as u32) + 32) as char) as u32 == (c as u32) + 32);
    }
}

proof fn lemma_case_digits_end(s: Seq<char>, t: Seq<char>, i: int)
    requires
        s.len() == t.len(),
        forall|j: int| 0 <= j < s.len() ==> #[trigger] is_digit(s[j]) == is_digit(t[j]),
    ensures
        digits_end(s, i) == digits_end(t, i),
        digits_end(s, i) >= i,
    decreases s.len() - i,
{
    if 0 <= i < s.len() && is_digit(s[i]) {
        lemma_case_digits_end(s, t, i + 1);
    }
}

proof fn lemma_case_valid(s: Seq<char>, t: Seq<char>)
    requires
        s.len() == t.len(),
        forall|j: int|
            0 <= j < s.len() ==> (#[trigger] is_digit(s[j]) == is_digit(t[j])) && (doi_char(s[j])
                == doi_char(t[j])) && ((s[j] == '/') == (t[j] == '/')) && ((s[j] == '1') == (t[j]
                == '1')) && ((s[j] == '0') == (t[j] == '0')) && ((s[j] == '.') == (t[j] == '.')),
    ensures
        valid_doi_spec(s) == valid_doi_spec(t),
{
    reveal_strlit("10.");
    lemma_case_digits_end(s, t, 3);
    if s.len() >= 3 {
        assert(is_digit(s[0]) == is_digit(t[0]));
        assert(is_digit(s[1]) == is_digit(t[1]));
        assert(is_digit(s[2]) == is_digit(t[2]));
        assert(starts_with_spec(s, "10."@) == starts_with_spec(t, "10."@)) by {
            if starts_with_spec(s, "10."@) {
                assert(s.subrange(0, 3)[0] == '1' && s.subrange(0, 3)[1] == '0' && s.subrange(0, 3)[2] == '.');
                assert(t.subrange(0, 3) =~= "10."@);
            }
            if starts_with_spec(t, "10."@) {
                assert(t.subrange(0, 3)[0] == '1' && t.subrange(0, 3)[1] == '0' && t.subrange(0, 3)[2] == '.');
                assert(s.subrange(0, 3) =~= "10."@);
            }
        }
    }
    let k = digits_end(s, 3);
    if 0 <= k < s.len() {
        assert(is_digit(s[k]) == is_digit(t[k]));
    }
    assert((forall|i: int| k < i < s.len() ==> doi_char(#[trigger] s[i])) == (forall|i: int|
        k < i < t.len() ==> doi_char(#[trigger] t[i]))) by {
        if forall|i: int| k < i < s.len() ==> doi_char(#[trigger] s[i]) {
            assert forall|i: int| k < i < t.len() implies doi_char(#[trigger] t[i]) by {
                assert(is_digit(s[i]) == is_digit(t[i]));
            }
        }
        if forall|i: int| k < i < t.len() ==> doi_char(#[trigger] t[i]) {
            assert forall|i: int| k < i < s.len() implies doi_char(#[trigger] s[i]) by {
                assert(is_digit(s[i]) == is_digit(t[i]));
            }
        }
    }
}

/// Whether a DOI is valid does not depend on the case of its letters:
/// `10.1109/TSE.2018.2884955` is valid exactly as `10.1109/tse.2018.2884955`
/// is (DOIs are case-insensitive, and the suffix admits ASCII letters of
/// either case).
pub proof fn law_valid_doi_ignores_case(doi: Seq<char>)
    ensures
        valid_doi_spec(doi.map_values(|c: char| ascii_upper(c))) == valid_doi_spec(doi),
        valid_doi_spec(doi.map_values(|c: char| ascii_lower(c))) == valid_doi_spec(doi),
{
    let up = doi.map_values(|c: char| ascii_upper(c));
    let low = doi.map_values(|c: char| ascii_lower(c));
    assert forall|j: int| 0 <= j < doi.len() implies (#[trigger] is_digit(doi[j]) == is_digit(
        up[j],
    )) && (doi_char(doi[j]) == doi_char(up[j])) && ((doi[j] == '/') == (up[j] == '/')) && ((doi[j]
        == '1') == (up[j] == '1')) && ((doi[j] == '0') == (up[j] == '0')) && ((doi[j] == '.') == (
    up[j] == '.')) by {
        lemma_case_char(doi[j]);
    }
    assert forall|j: int| 0 <= j < doi.len() implies (#[trigger] is_digit(doi[j]) == is_digit(
        low[j],
    )) && (doi_char(doi[j]) == doi_char(low[j])) && ((doi[j] == '/') == (low[j] == '/')) && ((
    doi[j] == '1') == (low[j] == '1')) && ((doi[j] == '0') == (low[j] == '0')) && ((doi[j] == '.')
        == (low[j] == '.')) by {
        lemma_case_char(doi[j]);
    }
    lemma_case_valid(doi, up);
    lemma_case_valid(doi, low);
}

proof fn lemma_digits_end_push(s: Seq<char>, c: char, i: int)
    requires
        0 <= i <= digits_end(s, i) < s.len(),
    ensures
        digits_end(s.push(c), i) == digits_end(s, i),
    decreases s.len() - i,
{
    assert(s.push(c)[i] == s[i]);
    if is_digit(s[i]) {
        lemma_case_digits_end(s, s, i + 1);
        lemma_digits_end_push(s, c, i + 1);
    }
}

/// A valid DOI stays valid when an ASCII letter or digit or one of
/// `.-_;()/` is appended, and becomes invalid when any other character is.
pub proof fn law_valid_doi_extend(doi: Seq<char>, c: char)
    requires
        valid_doi_spec(doi),
    ensures
        valid_doi_spec(doi.push(c)) <==> (('0' <= c && c <= '9') || ('a' <= c && c <= 'z') || (
        'A' <= c && c <= 'Z') || c == '.' || c == '-' || c == '_' || c == ';' || c == '(' || c
            == ')' || c == '/'),
{
    reveal_strlit("10.");
    let t = doi.push(c);
    let k = digits_end(doi, 3);
    lemma_case_digits_end(doi, doi, 3);
    lemma_digits_end_push(doi, c, 3);
    assert(t.subrange(0, 3) =~= doi.subrange(0, 3));
    assert(t[k] == doi[k]);
    assert(t[t.len() - 1] == c);
    if valid_doi_spec(t) {
        assert(doi_char(t[t.len() - 1]));
    } else {
        assert forall|i: int| k < i < doi.len() implies doi_char(#[trigger] t[i]) by {
            assert(t[i] == doi[i]);
        }
    }
}

/// The shortest valid DOIs are `10.`, one digit, `/` and one suffix
/// character (an ASCII letter or digit, or one of `.-_;()/`); every valid
/// DOI starts with `10.` followed by a digit.
pub proof fn law_valid_doi_shape(d: char, c: char, doi: Seq<char>)
    ensures
        ('0' <= d && d <= '9') && (('0' <= c && c <= '9') || ('a' <= c && c <= 'z') || ('A' <= c
            && c <= 'Z') || c == '.' || c == '-' || c == '_' || c == ';' || c == '(' || c == ')'
            || c == '/') ==> valid_doi_spec(seq!['1', '0', '.', d, '/', c]),
        valid_doi_spec(doi) ==> doi.len() > 3 && doi[0] == '1' && doi[1] == '0' && doi[2] == '.'
            && '0' <= doi[3] && doi[3] <= '9',
{
    reveal_strlit("10.");
    let s = seq!['1', '0', '.', d, '/', c];
    if '0' <= d && d <= '9' {
        assert(s.subrange(0, 3) =~= "10."@);
        assert(digits_end(s, 4) == 4);
        assert(digits_end(s, 3) == 4);
    }
    if valid_doi_spec(doi) {
        assert(doi.subrange(0, 3)[0] == doi[0]);
        assert(doi.subrange(0, 3)[1] == doi[1]);
        assert(doi.subrange(0, 3)[2] == doi[2]);
        assert(is_digit(doi[3]));
    }
}

} // verus!
