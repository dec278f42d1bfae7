//! BibTeX entries for Crossref works.
use crate::crossref::{Author, Paper};
use crate::text::{
    join_spec, chars_of, decimal, decimal_spec, opt_view, push_char, push_chars, push_str, str_equal,
};
use vstd::prelude::*;

verus! {

/// The type of a BibTeX entry.
pub enum Type {
    Article,
    InProceedings,
    Misc,
}

/// The BibTeX type for a Crossref type string.
pub open spec fn type_spec(type_: Seq<char>) -> Type {
    if type_ == "journal-article"@ {
        Type::Article
    } else if type_ == "proceedings-article"@ {
        Type::InProceedings
    } else {
        Type::Misc
    }
}

/// The name of a BibTeX type, as it follows `@`.
pub open spec fn type_name_spec(t: Type) -> Seq<char> {
    match t {
        Type::Article => "article"@,
        Type::InProceedings => "inproceedings"@,
        Type::Misc => "misc"@,
    }
}

impl Type {
    /// Maps a Crossref API type string to a BibTeX type (`@misc` for
    /// anything but journal and proceedings articles).
    pub fn from_crossref(type_: &str) -> (t: Type)
        ensures
            t == type_spec(type_@),
    {
        if str_equal(type_, "journal-article") {
            Type::Article
        } else if str_equal(type_, "proceedings-article") {
            Type::InProceedings
        } else {
            Type::Misc
        }
    }

    /// The entry type's name.
    pub fn name(&self) -> (s: &'static str)
        ensures
            s@ == type_name_spec(*self),
    {
        match self {
            Type::Article => "article",
            Type::InProceedings => "inproceedings",
            Type::Misc => "misc",
        }
    }
}

/// Whether a character is preceded by a backslash in a BibTeX value
/// (braces and backslashes always; the other TeX specials only outside
/// verbatim values).
pub open spec fn should_escape_spec(c: char, verbatim: bool) -> bool {
    ||| c == '{'
    ||| c == '}'
    ||| c == '\\'
    ||| !verbatim && (c == '~' || c == '^' || c == '#' || c == '&' || c == '%' || c == '$' || c
        == '_')
}

/// `s` with a backslash before each character that needs one.
pub open spec fn escape_spec(s: Seq<char>, verbatim: bool) -> Seq<char>
    decreases s.len(),
{
    if s.len() == 0 {
        seq![]
    } else {
        escape_spec(s.drop_last(), verbatim) + if should_escape_spec(s.last(), verbatim) {
            seq!['\\', s.last()]
        } else {
            seq![s.last()]
        }
    }
}

/// A BibTeX value: the escaped text in braces, in double braces when
/// verbatim.
pub open spec fn bibstr_spec(s: Seq<char>, verbatim: bool) -> Seq<char> {
    if verbatim {
        seq!['{', '{'] + escape_spec(s, true) + seq!['}', '}']
    } else {
        seq!['{'] + escape_spec(s, false) + seq!['}']
    }
}

/// A string formatted for a BibTeX value.
pub struct BibStr {
    pub value: String,
    pub verbatim: bool,
}

impl BibStr {
    /// A value whose TeX specials are escaped.
    pub fn new(value: &str) -> (b: BibStr)
        ensures
            b.value@ == value@,
            !b.verbatim,
    {
        BibStr { value: crate::text::to_owned(value), verbatim: false }
    }

    /// A verbatim value: only braces and backslashes are escaped, and the
    /// value is wrapped in double braces.
    pub fn verb(value: &str) -> (b: BibStr)
        ensures
            b.value@ == value@,
            b.verbatim,
    {
        BibStr { value: crate::text::to_owned(value), verbatim: true }
    }

    pub fn should_escape(&self, c: char) -> (b: bool)
        ensures
            b == should_escape_spec(c, self.verbatim),
    {
        c == '{' || c == '}' || c == '\\' || (!self.verbatim && (c == '~' || c == '^' || c == '#'
            || c == '&' || c == '%' || c == '$' || c == '_'))
    }

    /// The value as it stands in a BibTeX entry.
    pub fn to_string(&self) -> (s: String)
        ensures
            s@ == bibstr_spec(self.value@, self.verbatim),
    {
        let cs = chars_of(self.value.as_str());
        let mut out = String::new();
        push_char(&mut out, '{');
        if self.verbatim {
            push_char(&mut out, '{');
        }
        let ghost start = out@;
        let mut i: usize = 0;
        while i < cs.len()
            invariant
                i <= cs.len(),
                cs@ == self.value@,
                out@ == start + escape_spec(cs@.take(i as int), self.verbatim),
            decreases cs.len() - i,
        {
            let c = cs[i];
            if self.should_escape(c) {
                push_char(&mut out, '\\');
            }
            push_char(&mut out, c);
            proof {
                assert(cs@.take(i + 1).drop_last() == cs@.take(i as int));
                assert(cs@.take(i + 1).last() == c);
            }
            i = i + 1;
        }
        assert(cs@.take(cs.len() as int) == cs@);
        push_char(&mut out, '}');
        if self.verbatim {
            push_char(&mut out, '}');
        }
        assert(out@ =~= bibstr_spec(self.value@, self.verbatim));
        out
    }
}


/// The authors for BibTeX: each name (given name, space, family name),
/// separated by ` and `.
pub open spec fn authors_spec(authors: Seq<Author>) -> Seq<char>
    decreases authors.len(),
{
    if authors.len() == 0 {
        seq![]
    } else if authors.len() == 1 {
        authors[0].name_spec()
    } else {
        authors_spec(authors.drop_last()) + " and "@ + authors.last().name_spec()
    }
}

/// A list of authors formatted for BibTeX.
pub fn authors_text(authors: &Vec<Author>) -> (s: String)
    ensures
        s@ == authors_spec(authors@),
{
    let mut out = String::new();
    let mut i: usize = 0;
    while i < authors.len()
        invariant
            i <= authors.len(),
            out@ == authors_spec(authors@.take(i as int)),
        decreases authors.len() - i,
    {
        let ghost before = out@;
        if i > 0 {
            push_str(&mut out, " and ");
        }
        if let Some(given) = &authors[i].given {
            push_str(&mut out, given.as_str());
            push_char(&mut out, ' ');
        }
        push_str(&mut out, authors[i].family.as_str());
        proof {
            let a = authors@.take(i + 1);
            assert(a.drop_last() == authors@.take(i as int));
            assert(a.last() == authors@[i as int]);
            if i == 0 {
                assert(out@ =~= a[0].name_spec());
            } else {
                assert(out@ =~= before + " and "@ + a.last().name_spec());
            }
        }
        i = i + 1;
    }
    assert(authors@.take(authors.len() as int) == authors@);
    out
}

/// Whether `c` is an ASCII letter.
pub open spec fn is_ascii_alpha(c: char) -> bool {
    ('a' <= c && c <= 'z') || ('A' <= c && c <= 'Z')
}

/// The lower-case form of an ASCII letter.
pub open spec fn ascii_lower(c: char) -> char {
    if 'A' <= c && c <= 'Z' {
        ((c as u32) + 32) as char
    } else {
        c
    }
}

/// The ASCII letters of `s`, in lower case.
pub open spec fn key_letters(s: Seq<char>) -> Seq<char>
    decreases s.len(),
{
    if s.len() == 0 {
        seq![]
    } else {
        key_letters(s.drop_last()) + if is_ascii_alpha(s.last()) {
            seq![ascii_lower(s.last())]
        } else {
            seq![]
        }
    }
}

/// Whether a paper has what its BibTeX entry needs: a first author and a
/// publication year.
pub open spec fn entry_ready(p: Paper) -> bool {
    &&& p.author.len() > 0
    &&& p.published.date_parts.len() > 0
    &&& p.published.date_parts@[0].len() > 0
}

/// The citation key: the first author's family name reduced to lower-case
/// ASCII letters, followed by the publication year.
pub open spec fn citekey_spec(p: Paper) -> Seq<char> {
    key_letters(p.author@[0].family@) + decimal_spec(p.published.parts()[0] as nat)
}

fn lower_ascii_letter(c: char) -> (r: char)
    requires
        is_ascii_alpha(c),
    ensures
        r == ascii_lower(c),
{
    if 'A' <= c && c <= 'Z' {
        let b: u8 = (c as u32) as u8;
        let l = (b + 32) as char;
        assert(l == ((c as u32) + 32) as char);
        l
    } else {
        c
    }
}

/// Generates a BibTeX citation key for a paper, such as `lamport1978`.
pub fn citekey(paper: &Paper) -> (s: String)
    requires
        entry_ready(*paper),
    ensures
        s@ == citekey_spec(*paper),
{
    let family = chars_of(paper.author[0].family.as_str());
    let mut out = String::new();
    let mut i: usize = 0;
    while i < family.len()
        invariant
            i <= family.len(),
            out@ == key_letters(family@.take(i as int)),
        decreases family.len() - i,
    {
        let c = family[i];
        if ('a' <= c && c <= 'z') || ('A' <= c && c <= 'Z') {
            push_char(&mut out, lower_ascii_letter(c));
        }
        proof {
            assert(family@.take(i + 1).drop_last() == family@.take(i as int));
            assert(family@.take(i + 1).last() == c);
        }
        i = i + 1;
    }
    assert(family@.take(family.len() as int) == family@);
    push_chars(&mut out, decimal(paper.published.year() as u64).as_slice());
    out
}


/// One `key = value,` line of an entry.
pub open spec fn pair_spec(key: Seq<char>, value: Seq<char>) -> Seq<char> {
    seq![' ', ' '] + key + seq![' ', '=', ' '] + value + seq![',', '\n']
}

/// A string field's line, if the field is present.
pub open spec fn str_opt_spec(key: Seq<char>, value: Option<Seq<char>>) -> Seq<char> {
    match value {
        Some(s) => pair_spec(key, bibstr_spec(s, false)),
        None => seq![],
    }
}

/// A number field's line, if the field is present.
pub open spec fn num_opt_spec(key: Seq<char>, value: Option<u32>) -> Seq<char> {
    match value {
        Some(n) => pair_spec(key, decimal_spec(n as nat)),
        None => seq![],
    }
}

/// The first container title (journal name), if any.
pub open spec fn journal_spec(p: Paper) -> Option<Seq<char>> {
    if p.container_title.len() > 0 {
        Some(p.container_title@[0]@)
    } else {
        None
    }
}

/// The lines that depend on the entry type.
pub open spec fn type_fields_spec(p: Paper, t: Type) -> Seq<char> {
    let year = pair_spec("year"@, decimal_spec(p.published.parts()[0] as nat));
    let parts = p.published.parts();
    match t {
        Type::Article => str_opt_spec("journal"@, journal_spec(p)) + str_opt_spec(
            "volume"@,
            opt_view(p.volume),
        ) + str_opt_spec("issue"@, opt_view(p.issue)) + year + num_opt_spec(
            "month"@,
            if parts.len() > 1 { Some(parts[1]) } else { None },
        ) + num_opt_spec("day"@, if parts.len() > 2 { Some(parts[2]) } else { None }),
        Type::InProceedings => str_opt_spec("booktitle"@, opt_view(p.event)) + year,
        Type::Misc => year,
    }
}

/// The BibTeX entry of a paper.
pub open spec fn entry_spec(p: Paper) -> Seq<char> {
    let t = type_spec(p.type_@);
    seq!['@'] + type_name_spec(t) + seq!['{'] + citekey_spec(p) + seq![',', '\n'] + pair_spec(
        "title"@,
        bibstr_spec(p.title@, true),
    ) + pair_spec("author"@, bibstr_spec(authors_spec(p.author@), false)) + type_fields_spec(p, t)
        + pair_spec("doi"@, bibstr_spec(p.doi@, false)) + seq!['}']
}

/// Writes a key/value pair in a BibTeX entry.
pub fn write_pair(out: &mut String, key: &str, value: &str)
    ensures
        final(out)@ == old(out)@ + pair_spec(key@, value@),
{
    push_char(out, ' ');
    push_char(out, ' ');
    push_str(out, key);
    push_char(out, ' ');
    push_char(out, '=');
    push_char(out, ' ');
    push_str(out, value);
    push_char(out, ',');
    push_char(out, '\n');
    assert(out@ =~= old(out)@ + pair_spec(key@, value@));
}

/// Like `write_pair`, but only writes anything if the number is present.
pub fn write_pair_opt(out: &mut String, key: &str, value: Option<u32>)
    ensures
        final(out)@ == old(out)@ + num_opt_spec(key@, value),
{
    if let Some(v) = value {
        let d = crate::text::string_of(decimal(v as u64).as_slice());
        write_pair(out, key, d.as_str());
    } else {
        assert(out@ =~= old(out)@ + num_opt_spec(key@, value));
    }
}

/// Like `write_pair`, but just for plain strings.
pub fn write_str(out: &mut String, key: &str, value: &str)
    ensures
        final(out)@ == old(out)@ + pair_spec(key@, bibstr_spec(value@, false)),
{
    let v = BibStr::new(value).to_string();
    write_pair(out, key, v.as_str());
}

/// Like `write_str`, but just for optional strings.
pub fn write_str_opt(out: &mut String, key: &str, value: Option<&str>)
    ensures
        final(out)@ == old(out)@ + str_opt_spec(
            key@,
            match value {
                Some(s) => Some(s@),
                None => None,
            },
        ),
{
    if let Some(s) = value {
        write_str(out, key, s);
    } else {
        assert(out@ =~= old(out)@ + seq![]);
    }
}

/// The lines of a journal article between the authors and the DOI.
pub open spec fn article_fields_spec(p: Paper) -> Seq<char> {
    let parts = p.published.parts();
    str_opt_spec("journal"@, journal_spec(p)) + str_opt_spec("volume"@, opt_view(p.volume))
        + str_opt_spec("issue"@, opt_view(p.issue)) + pair_spec(
        "year"@,
        decimal_spec(parts[0] as nat),
    ) + num_opt_spec("month"@, if parts.len() > 1 { Some(parts[1]) } else { None })
        + num_opt_spec("day"@, if parts.len() > 2 { Some(parts[2]) } else { None })
}

proof fn lemma_concat6(
    s: Seq<char>,
    a: Seq<char>,
    b: Seq<char>,
    c: Seq<char>,
    d: Seq<char>,
    e: Seq<char>,
    f: Seq<char>,
)
    ensures
        s + a + b + c + d + e + f == s + (a + b + c + d + e + f),
{
    assert(s + a + b + c + d + e + f =~= s + (a + b + c + d + e + f));
}

/// Writes the lines of a journal article.
fn write_article_fields(out: &mut String, p: &Paper, year: &str)
    requires
        entry_ready(*p),
        year@ == decimal_spec(p.published.parts()[0] as nat),
    ensures
        final(out)@ == old(out)@ + article_fields_spec(*p),
{
    let journal = if p.container_title.len() > 0 {
        Some(p.container_title[0].as_str())
    } else {
        None
    };
    let ghost s0 = out@;
    write_str_opt(out, "journal", journal);
    let ghost s1 = out@;
    write_str_opt(out, "volume", opt_str(&p.volume));
    let ghost s2 = out@;
    write_str_opt(out, "issue", opt_str(&p.issue));
    let ghost s3 = out@;
    write_pair(out, "year", year);
    let ghost s4 = out@;
    write_pair_opt(out, "month", p.published.month());
    let ghost s5 = out@;
    write_pair_opt(out, "day", p.published.day());
    proof {
        let parts = p.published.parts();
        lemma_concat6(
            s0,
            str_opt_spec("journal"@, journal_spec(*p)),
            str_opt_spec("volume"@, opt_view(p.volume)),
            str_opt_spec("issue"@, opt_view(p.issue)),
            pair_spec("year"@, decimal_spec(parts[0] as nat)),
            num_opt_spec("month"@, if parts.len() > 1 { Some(parts[1]) } else { None }),
            num_opt_spec("day"@, if parts.len() > 2 { Some(parts[2]) } else { None }),
        );
    }
}

/// Writes the lines that depend on the entry type.
fn write_type_fields(out: &mut String, p: &Paper, t: &Type)
    requires
        entry_ready(*p),
    ensures
        final(out)@ == old(out)@ + type_fields_spec(*p, *t),
{
    let year = crate::text::string_of(decimal(p.published.year() as u64).as_slice());
    let ghost s0 = out@;
    match t {
        Type::Article => {
            write_article_fields(out, p, year.as_str());
            assert(type_fields_spec(*p, *t) == article_fields_spec(*p));
        },
        Type::InProceedings => {
            write_str_opt(out, "booktitle", p.event_title());
            write_pair(out, "year", year.as_str());
            assert(out@ =~= s0 + type_fields_spec(*p, *t));
        },
        Type::Misc => {
            write_pair(out, "year", year.as_str());
        },
    }
}

/// Writes the first line, up to the citation key.
fn write_head(out: &mut String, p: &Paper, t: &Type)
    requires
        entry_ready(*p),
        old(out)@ == Seq::<char>::empty(),
    ensures
        final(out)@ == seq!['@'] + type_name_spec(*t) + seq!['{'] + citekey_spec(*p) + seq![',', '\n'],
{
    let key = citekey(p);
    push_char(out, '@');
    push_str(out, t.name());
    push_char(out, '{');
    push_str(out, key.as_str());
    push_char(out, ',');
    push_char(out, '\n');
    assert(out@ =~= seq!['@'] + type_name_spec(*t) + seq!['{'] + citekey_spec(*p) + seq![',', '\n']);
}

/// A BibTeX entry for a single paper.
pub struct Entry<'a>(pub &'a Paper);

impl<'a> Entry<'a> {
    /// The entry's text.
    pub fn to_string(&self) -> (s: String)
        requires
            entry_ready(*self.0),
        ensures
            s@ == entry_spec(*self.0),
    {
        let p = self.0;
        let t = Type::from_crossref(p.type_.as_str());
        let mut out = String::new();
        write_head(&mut out, p, &t);
        let ghost s1 = out@;
        let title = BibStr::verb(p.title.as_str()).to_string();
        write_pair(&mut out, "title", title.as_str());
        let ghost s2 = out@;
        let authors = authors_text(&p.author);
        let authors = BibStr::new(authors.as_str()).to_string();
        write_pair(&mut out, "author", authors.as_str());
        let ghost s3 = out@;
        write_type_fields(&mut out, p, &t);
        let ghost s4 = out@;
        write_str(&mut out, "doi", p.doi.as_str());
        let ghost s5 = out@;
        push_char(&mut out, '}');
        proof {
            let e = entry_spec(*p);
            assert(s2 == s1 + pair_spec("title"@, bibstr_spec(p.title@, true)));
            assert(s3 == s2 + pair_spec("author"@, bibstr_spec(authors_spec(p.author@), false)));
            assert(out@ =~= s5 + seq!['}']);
            assert(out@ =~= e);
        }
        out
    }
}

fn opt_str(s: &Option<String>) -> (r: Option<&str>)
    ensures
        match r {
            Some(t) => opt_view(*s) == Some(t@),
            None => s is None,
        },
{
    match s {
        Some(t) => Some(t.as_str()),
        None => None,
    }
}


/// A character of a citation key: a lower-case ASCII letter or a digit.
pub open spec fn is_key_char(c: char) -> bool {
    ('a' <= c && c <= 'z') || ('0' <= c && c <= '9')
}

proof fn lemma_key_letters(s: Seq<char>)
    ensures
        forall|i: int| 0 <= i < key_letters(s).len() ==> is_key_char(#[trigger] key_letters(s)[i]),
    decreases s.len(),
{
    if s.len() > 0 {
        lemma_key_letters(s.drop_last());
        let c = s.last();
        if is_ascii_alpha(c) {
            let l = ascii_lower(c);
            if 'A' <= c && c <= 'Z' {
                assert(65 <= c as u32 <= 90);
                assert((((c as u32) + 32) as char) as u32 == (c as u32) + 32);
            }
            assert(is_key_char(l));
        }
        let k = key_letters(s);
        let prev = key_letters(s.drop_last());
        assert forall|i: int| 0 <= i < k.len() implies is_key_char(#[trigger] k[i]) by {
            if i < prev.len() {
                assert(k[i] == prev[i]);
            }
        }
    }
}

proof fn lemma_decimal_digits(n: nat)
    ensures
        decimal_spec(n).len() > 0,
        forall|i: int| 0 <= i < decimal_spec(n).len() ==> ('0' <= #[trigger] decimal_spec(n)[i]
            && decimal_spec(n)[i] <= '9'),
    decreases n,
{
    if n >= 10 {
        lemma_decimal_digits(n / 10);
    }
}

/// Citation keys look like `lamport1978`: every character of a key is a
/// lower-case ASCII letter or a digit, and the key ends with the year.
pub proof fn law_citekey_shape(p: Paper)
    requires
        entry_ready(p),
    ensures
        forall|i: int| 0 <= i < citekey_spec(p).len() ==> is_key_char(#[trigger] citekey_spec(p)[i]),
        citekey_spec(p).len() >= decimal_spec(p.published.parts()[0] as nat).len(),
        citekey_spec(p).skip(
            citekey_spec(p).len() - decimal_spec(p.published.parts()[0] as nat).len(),
        ) == decimal_spec(p.published.parts()[0] as nat),
{
    let letters = key_letters(p.author@[0].family@);
    let year = decimal_spec(p.published.parts()[0] as nat);
    lemma_key_letters(p.author@[0].family@);
    lemma_decimal_digits(p.published.parts()[0] as nat);
    assert forall|i: int| 0 <= i < citekey_spec(p).len() implies is_key_char(
        #[trigger] citekey_spec(p)[i],
    ) by {
        if i < letters.len() {
            assert(citekey_spec(p)[i] == letters[i]);
        } else {
            assert(citekey_spec(p)[i] == year[i - letters.len()]);
        }
    }
    assert(citekey_spec(p).skip(citekey_spec(p).len() - year.len()) =~= year);
}

/// The BibTeX author list is every author's name, in order, with ` and `
/// between each two of them, however many authors there are (`A and B and
/// C`).
pub proof fn law_authors_joined_by_and(authors: Seq<Author>)
    ensures
        authors_spec(authors) == join_spec(
            authors.map_values(|a: Author| a.name_spec()),
            " and "@,
        ),
    decreases authors.len(),
{
    let names = authors.map_values(|a: Author| a.name_spec());
    if authors.len() > 1 {
        law_authors_joined_by_and(authors.drop_last());
        assert(names.drop_last() =~= authors.drop_last().map_values(|a: Author| a.name_spec()));
        assert(names.last() == authors.last().name_spec());
    } else if authors.len() == 1 {
        assert(names[0] == authors[0].name_spec());
    }
}

} // verus!
