//! What the pages show: static pages with the host filled in, and the
//! content of a paper's page.
use crate::bib::{entry_ready, entry_spec, journal_spec, Entry};
use crate::context::{join, Abstract};
use crate::crossref::{display_spec, iso_spec, with_subtitles, Author, Paper};
use crate::jats::{text_finishes, translate_spec, try_to_html, Outcome};
use crate::text::{
    chars_of, concat, join_spec, opt_view, push_str, replace, replace_spec, split, split_spec,
    starts_with, starts_with_spec, string_of, string_views, trim, trim_spec, views,
};
use std::fmt::Write;
use vstd::prelude::*;

verus! {

/// `s` with `&`, `<`, `>` and `"` written as HTML character entities.
pub open spec fn html_escape_spec(s: Seq<char>) -> Seq<char>
    decreases s.len(),
{
    if s.len() == 0 {
        seq![]
    } else {
        let c = s.last();
        html_escape_spec(s.drop_last()) + if c == '&' {
            "&amp;"@
        } else if c == '<' {
            "&lt;"@
        } else if c == '>' {
            "&gt;"@
        } else if c == '"' {
            "&quot;"@
        } else {
            seq![c]
        }
    }
}

/// Appends `s` to `out` with HTML special characters escaped.
///
/// Trusted: wraps `maud::Escaper`'s `write_str`, which the crate documents
/// (and its source shows) as escaping exactly `&`, `<`, `>` and `"` into
/// `&amp;`, `&lt;`, `&gt;` and `&quot;` and passing everything else
/// through; it never fails.
#[verifier::external_body]
fn escape_html_into(out: &mut String, s: &str)
    ensures
        final(out)@ == old(out)@ + html_escape_spec(s@),
{
    let _ = maud::Escaper::new(out).write_str(s);
}

/// `s` with HTML special characters escaped.
pub fn html_escape(s: &str) -> (r: String)
    ensures
        r@ == html_escape_spec(s@),
{
    let mut out = String::new();
    escape_html_into(&mut out, s);
    out
}

/// Every occurrence of a non-empty literal replaced.
fn replace_str(s: &str, pat: &str, rep: &str) -> (r: String)
    requires
        pat@.len() > 0,
    ensures
        r@ == replace_spec(s@, pat@, rep@),
{
    let cs = chars_of(s);
    let p = chars_of(pat);
    let q = chars_of(rep);
    let r = replace(cs.as_slice(), p.as_slice(), q.as_slice());
    string_of(r.as_slice())
}

/// A static asset with the server's host in place of `__HOST__`.
pub open spec fn asset_spec(script: Seq<char>, host: Seq<char>) -> Seq<char> {
    replace_spec(script, "__HOST__"@, host)
}

/// Serves a static(ish) asset: replaces the `__HOST__` token in the
/// asset's text with the server's host.
pub fn asset(script: &str, host: &str) -> (r: String)
    ensures
        r@ == asset_spec(script@, host@),
{
    proof {
        reveal_strlit("__HOST__");
    }
    replace_str(script, "__HOST__", host)
}

/// The home page's content: the template with the host and version filled
/// in, and the bookmarklet (with its host filled in, its lines joined by
/// spaces, trimmed and HTML-escaped) in place of `__BOOKMARKLET__`.
pub open spec fn home_spec(
    template: Seq<char>,
    bookmarklet: Seq<char>,
    host: Seq<char>,
    version: Seq<char>,
) -> Seq<char> {
    let page = replace_spec(replace_spec(template, "__HOST__"@, host), "__VERSION__"@, version);
    let bm = trim_spec(replace_spec(asset_spec(bookmarklet, host), seq!['\n'], seq![' ']));
    replace_spec(page, "__BOOKMARKLET__"@, html_escape_spec(bm))
}

/// The home page's content (see [`home_spec`]).
pub fn home(template: &str, bookmarklet: &str, host: &str, version: &str) -> (r: String)
    ensures
        r@ == home_spec(template@, bookmarklet@, host@, version@),
{
    proof {
        reveal_strlit("__HOST__");
        reveal_strlit("__VERSION__");
        reveal_strlit("__BOOKMARKLET__");
    }
    let page = replace_str(template, "__HOST__", host);
    let page = replace_str(page.as_str(), "__VERSION__", version);
    let bm = asset(bookmarklet, host);
    let bm = chars_of(bm.as_str());
    let nl = vec!['\n'];
    let sp = vec![' '];
    assert(nl@ =~= seq!['\n']);
    assert(sp@ =~= seq![' ']);
    let bm = replace(bm.as_slice(), nl.as_slice(), sp.as_slice());
    let bm = trim(bm.as_slice());
    let bm = string_of(bm.as_slice());
    let escaped = html_escape(bm.as_str());
    replace_str(page.as_str(), "__BOOKMARKLET__", escaped.as_str())
}

/// The page for a DOI that is not found.
pub enum NotFoundPage {
    /// A fake `10.5555/` DOI of the ACM Digital Library, with the DOI's
    /// address there.
    FakeDoi { acm_url: String },
    /// Any other DOI, with its address at the official DOI redirector.
    Unknown { redirector_url: String },
}

/// Chooses the not-found page for a DOI.
pub fn not_found_page(doi: &str) -> (p: NotFoundPage)
    ensures
        starts_with_spec(doi@, "10.5555/"@) ==> (p matches NotFoundPage::FakeDoi { acm_url }
            && acm_url@ == "https://dl.acm.org/doi/"@ + doi@),
        !starts_with_spec(doi@, "10.5555/"@) ==> (p matches NotFoundPage::Unknown {
            redirector_url,
        } && redirector_url@ == "https://dx.doi.org/"@ + doi@),
{
    let cs = chars_of(doi);
    let prefix = chars_of("10.5555/");
    if starts_with(cs.as_slice(), prefix.as_slice()) {
        NotFoundPage::FakeDoi { acm_url: concat("https://dl.acm.org/doi/", doi) }
    } else {
        NotFoundPage::Unknown { redirector_url: concat("https://dx.doi.org/", doi) }
    }
}


/// `label` and the value, where the value is present.
pub open spec fn opt_piece(label: Seq<char>, v: Option<Seq<char>>) -> Seq<char> {
    match v {
        Some(x) => label + x,
        None => seq![],
    }
}

/// Whether the publication line shows the date (it does for journal and
/// proceedings articles).
pub open spec fn shows_date(p: Paper) -> bool {
    p.type_@ == "journal-article"@ || p.type_@ == "proceedings-article"@
}

/// Where the paper was published: for a journal article the journal
/// (`Unknown journal` if none is listed), volume, issue and pages, then the
/// date; for a proceedings article the event (`Unknown Event` if none) and
/// the date; nothing for other works.
pub open spec fn published_line_spec(p: Paper) -> Seq<char> {
    if p.type_@ == "journal-article"@ {
        (match journal_spec(p) {
            Some(j) => j,
            None => "Unknown journal"@,
        }) + opt_piece(", volume "@, opt_view(p.volume)) + opt_piece(", issue "@, opt_view(p.issue))
            + opt_piece(", pp. "@, opt_view(p.page)) + ". "@ + display_spec(p.published.parts())
            + "."@
    } else if p.type_@ == "proceedings-article"@ {
        "In "@ + (match opt_view(p.event) {
            Some(e) => e,
            None => "Unknown Event"@,
        }) + ". "@ + display_spec(p.published.parts()) + "."@
    } else {
        seq![]
    }
}

fn push_opt_piece(out: &mut String, label: &str, v: &Option<String>)
    ensures
        final(out)@ == old(out)@ + opt_piece(label@, opt_view(*v)),
{
    if let Some(x) = v {
        push_str(out, label);
        push_str(out, x.as_str());
    } else {
        assert(out@ =~= old(out)@ + opt_piece(label@, opt_view(*v)));
    }
}

/// The publication line of a paper (see [`published_line_spec`]).
pub fn published_line(p: &Paper) -> (r: String)
    requires
        shows_date(*p) ==> p.published.date_parts.len() > 0,
    ensures
        r@ == published_line_spec(*p),
{
    let mut out = String::new();
    if crate::text::str_equal(p.type_.as_str(), "journal-article") {
        if p.container_title.len() > 0 {
            push_str(&mut out, p.container_title[0].as_str());
        } else {
            push_str(&mut out, "Unknown journal");
        }
        let ghost s0 = out@;
        push_opt_piece(&mut out, ", volume ", &p.volume);
        push_opt_piece(&mut out, ", issue ", &p.issue);
        push_opt_piece(&mut out, ", pp. ", &p.page);
        push_str(&mut out, ". ");
        let date = p.published.to_string();
        push_str(&mut out, date.as_str());
        push_str(&mut out, ".");
        assert(out@ =~= published_line_spec(*p));
    } else if crate::text::str_equal(p.type_.as_str(), "proceedings-article") {
        push_str(&mut out, "In ");
        match &p.event {
            Some(e) => push_str(&mut out, e.as_str()),
            None => push_str(&mut out, "Unknown Event"),
        }
        push_str(&mut out, ". ");
        let date = p.published.to_string();
        push_str(&mut out, date.as_str());
        push_str(&mut out, ".");
        assert(out@ =~= published_line_spec(*p));
    }
    out
}

/// How the abstract is shown.
pub enum AbstractView {
    /// JATS translated to HTML (already escaped).
    Html(String),
    /// JATS that could not be translated, shown as text.
    Source(String),
    /// Plain text, split into paragraphs.
    Paragraphs(Vec<String>),
    /// No abstract: "Data missing."
    Missing,
}

/// Whether a JATS abstract can be translated to HTML to the end.
pub open spec fn html_ready(a: Abstract) -> bool {
    match a {
        Abstract::Jats(j) => !(translate_spec(j@, true) is Hangs),
        _ => true,
    }
}

/// Whether a JATS abstract can be translated to the end, both to HTML and
/// to plain text.
pub open spec fn abstract_ready(a: Abstract) -> bool {
    html_ready(a) && match a {
        Abstract::Jats(j) => text_finishes(j@),
        _ => true,
    }
}

/// Whether an abstract view is what the page shows for an abstract: the
/// JATS as HTML (or as its source where it does not translate), the
/// paragraphs of the trimmed text, or the missing-data note.
pub open spec fn abstract_view_spec(a: Abstract, v: AbstractView) -> bool {
    match a {
        Abstract::Jats(j) => match translate_spec(j@, true) {
            Outcome::Done(h) => v matches AbstractView::Html(x) && x@ == h,
            _ => v matches AbstractView::Source(x) && x@ == j@,
        },
        Abstract::Text(t) => v matches AbstractView::Paragraphs(ps) && string_views(ps@)
            == split_spec(trim_spec(t@), seq!['\n', '\n']),
        Abstract::Missing => v is Missing,
    }
}

fn strings_of(parts: &Vec<Vec<char>>) -> (r: Vec<String>)
    ensures
        string_views(r@) == views(parts@),
{
    let mut r: Vec<String> = Vec::new();
    let mut i: usize = 0;
    while i < parts.len()
        invariant
            i <= parts.len(),
            string_views(r@) == views(parts@).take(i as int),
        decreases parts.len() - i,
    {
        let s = string_of(parts[i].as_slice());
        proof {
            assert(string_views(r@.push(s)) == string_views(r@).push(s@));
            assert(views(parts@).take(i + 1) == views(parts@).take(i as int).push(parts@[i as int]@));
        }
        r.push(s);
        i = i + 1;
    }
    assert(views(parts@).take(parts.len() as int) == views(parts@));
    r
}

/// How the page shows an abstract (see [`abstract_view_spec`]).
pub fn abstract_view(a: &Abstract) -> (v: AbstractView)
    requires
        html_ready(*a),
    ensures
        abstract_view_spec(*a, v),
{
    match a {
        Abstract::Jats(j) => match crate::jats::to_html(j.as_str()) {
            Ok(h) => AbstractView::Html(h),
            Err(_) => AbstractView::Source(j.clone()),
        },
        Abstract::Text(t) => {
            let cs = chars_of(t.as_str());
            let trimmed = trim(cs.as_slice());
            let sep = vec!['\n', '\n'];
            assert(sep@ =~= seq!['\n', '\n']);
            let pars = split(trimmed.as_slice(), sep.as_slice());
            AbstractView::Paragraphs(strings_of(&pars))
        },
        Abstract::Missing => AbstractView::Missing,
    }
}

/// A link to another version of the paper.
pub struct AlternateLink {
    /// The page of the other version (`/doi/` and its DOI).
    pub href: String,
    pub doi: String,
    /// Its journal or proceedings title (`Unknown` if none is listed).
    pub venue: String,
}

/// Whether `l` is the link shown for the alternate `p`.
pub open spec fn alternate_link_spec(p: Paper, l: AlternateLink) -> bool {
    &&& l.href@ == "/doi/"@ + p.doi@
    &&& l.doi@ == p.doi@
    &&& l.venue@ == match journal_spec(p) {
        Some(j) => j,
        None => "Unknown"@,
    }
}

/// The links to the other versions of a paper.
pub fn alternate_links(alternates: &Vec<Paper>) -> (r: Vec<AlternateLink>)
    ensures
        r@.len() == alternates@.len(),
        forall|i: int| 0 <= i < r@.len() ==> alternate_link_spec(alternates@[i], #[trigger] r@[i]),
{
    let mut r: Vec<AlternateLink> = Vec::new();
    let mut i: usize = 0;
    while i < alternates.len()
        invariant
            i <= alternates.len(),
            r@.len() == i,
            forall|k: int| 0 <= k < i ==> alternate_link_spec(alternates@[k], #[trigger] r@[k]),
        decreases alternates.len() - i,
    {
        let p = &alternates[i];
        let venue = if p.container_title.len() > 0 {
            p.container_title[0].clone()
        } else {
            crate::text::to_owned("Unknown")
        };
        let link = AlternateLink {
            href: concat("/doi/", p.doi.as_str()),
            doi: p.doi.clone(),
            venue,
        };
        r.push(link);
        i = i + 1;
    }
    r
}

/// The names of the authors, in order.
pub fn author_names(authors: &Vec<Author>) -> (r: Vec<String>)
    ensures
        r@.len() == authors@.len(),
        forall|i: int| 0 <= i < r@.len() ==> (#[trigger] r@[i])@ == authors@[i].name_spec(),
{
    let mut r: Vec<String> = Vec::new();
    let mut i: usize = 0;
    while i < authors.len()
        invariant
            i <= authors.len(),
            r@.len() == i,
            forall|k: int| 0 <= k < i ==> (#[trigger] r@[k])@ == authors@[k].name_spec(),
        decreases authors.len() - i,
    {
        r.push(authors[i].name());
        i = i + 1;
    }
    r
}


/// The content of a paper's page.
pub struct PaperView {
    /// The full title (with subtitles).
    pub title: String,
    /// The work type for people (`journal article`).
    pub human_type: String,
    pub doi: String,
    /// The link to a publisher page, if any.
    pub link: Option<String>,
    /// The domain the link points to, shown as its text.
    pub link_domain: Option<String>,
    /// The direct link to the PDF, if any.
    pub pdf: Option<String>,
    /// The authors' names, in order.
    pub authors: Vec<String>,
    /// Where the paper was published.
    pub published: String,
    /// The other versions of the paper.
    pub alternates: Vec<AlternateLink>,
    pub abstract_: AbstractView,
    /// The BibTeX entry.
    pub bibtex: String,
    /// The DOI's address at doi.org.
    pub doi_url: String,
    /// The authors' names joined by `, `.
    pub author_list: String,
    /// The abstract as plain text, for the page's description.
    pub description: Option<String>,
    /// The publication date in ISO form.
    pub published_time: String,
}

/// Whether the page of a paper can be made: its BibTeX entry needs a first
/// author and a year, and a JATS abstract must translate to the end.
pub open spec fn page_ready(paper: Paper, abstract_: Abstract) -> bool {
    entry_ready(paper) && abstract_ready(abstract_)
}

/// Whether `v` is the page content of `paper` with its alternates and
/// abstract.
pub open spec fn paper_view_spec(
    paper: Paper,
    alternates: Seq<Paper>,
    abstract_: Abstract,
    v: PaperView,
) -> bool {
    &&& v.title@ == with_subtitles(paper.title@, string_views(paper.subtitle@))
    &&& v.human_type@ == replace_spec(paper.type_@, seq!['-'], seq![' '])
    &&& v.doi@ == paper.doi@
    &&& opt_view(v.link) == paper.link_url_spec()
    &&& match paper.link_url_spec() {
        Some(u) => opt_view(v.link_domain) == crate::crossref::domain_spec(u),
        None => v.link_domain is None,
    }
    &&& opt_view(v.pdf) == paper.pdf_url_spec()
    &&& v.authors@.len() == paper.author@.len()
    &&& forall|i: int| 0 <= i < v.authors@.len() ==> (#[trigger] v.authors@[i])@
        == paper.author@[i].name_spec()
    &&& v.published@ == published_line_spec(paper)
    &&& v.alternates@.len() == alternates.len()
    &&& forall|i: int| 0 <= i < v.alternates@.len() ==> alternate_link_spec(
        alternates[i],
        #[trigger] v.alternates@[i],
    )
    &&& abstract_view_spec(abstract_, v.abstract_)
    &&& v.bibtex@ == entry_spec(paper)
    &&& v.doi_url@ == "https://doi.org/"@ + paper.doi@
    &&& v.author_list@ == join_spec(string_views(v.authors@), ", "@)
    &&& opt_view(v.description) == abstract_.text_spec()
    &&& v.published_time@ == iso_spec(paper.published.parts())
}

/// The content of a paper's page.
pub fn paper_view(paper: &Paper, alternates: &Vec<Paper>, abstract_: Abstract) -> (v: PaperView)
    requires
        page_ready(*paper, abstract_),
    ensures
        paper_view_spec(*paper, alternates@, abstract_, v),
{
    let title = paper.title();
    let link = paper.link_url();
    let link_domain = match &link {
        Some(u) => crate::crossref::domain(u.as_str()),
        None => None,
    };
    let authors = author_names(&paper.author);
    let author_list = join(&authors, ", ");
    let abstract_html = abstract_view(&abstract_);
    let description = abstract_.text();
    PaperView {
        title,
        human_type: paper.human_type(),
        doi: paper.doi.clone(),
        link,
        link_domain,
        pdf: paper.pdf_url(),
        authors,
        published: published_line(paper),
        alternates: alternate_links(alternates),
        abstract_: abstract_html,
        bibtex: Entry(paper).to_string(),
        doi_url: concat("https://doi.org/", paper.doi.as_str()),
        author_list,
        description,
        published_time: paper.published.iso(),
    }
}

/// The content of a paper's page, or `None` where the page cannot be made
/// (see [`page_ready`]).
pub fn try_paper_view(paper: &Paper, alternates: &Vec<Paper>, abstract_: Abstract) -> (v: Option<
    PaperView,
>)
    ensures
        v is None <==> !page_ready(*paper, abstract_),
        v matches Some(pv) ==> paper_view_spec(*paper, alternates@, abstract_, pv),
{
    if paper.author.len() == 0 || paper.published.date_parts.len() == 0
        || paper.published.date_parts[0].len() == 0 {
        return None;
    }
    let ready = match &abstract_ {
        Abstract::Jats(j) => {
            let html_ok = match try_to_html(j.as_str()) {
                Some(_) => true,
                None => false,
            };
            let text_ok = match crate::jats::try_to_text(j.as_str()) {
                Some(_) => true,
                None => false,
            };
            html_ok && text_ok
        },
        _ => true,
    };
    if ready {
        Some(paper_view(paper, alternates, abstract_))
    } else {
        None
    }
}

} // verus!
