//! Paper metadata from the Crossref API.
use crate::text::{
    chars_of, concat, decimal, decimal_spec, extend, opt_view, pad_zeros, padded_decimal, push_char,
    push_chars, push_str, replace, replace_spec, slice_range, starts_with, starts_with_spec,
    str_equal, string_of, string_views, to_owned,
};
use crate::keymap::KeyMap;
use vstd::prelude::*;

verus! {

/// A work in the Crossref database.
pub struct Paper {
    pub title: String,
    pub subtitle: Vec<String>,
    pub short_title: Vec<String>,
    pub author: Vec<Author>,
    pub type_: String,
    pub abstract_: Option<String>,
    pub publisher: String,
    pub url: String,
    pub issued: Date,
    pub published: Date,
    /// Relations to other works, grouped by relation type.
    pub relation: KeyMap<Vec<Relation>>,
    /// Resources, keyed by their role.
    pub resource: KeyMap<Resource>,
    pub doi: String,
    pub container_title: Vec<String>,
    pub page: Option<String>,
    pub volume: Option<String>,
    pub issue: Option<String>,
    pub event: Option<String>,
}

/// A partial date: year, then optionally month and day.
pub struct Date {
    pub date_parts: Vec<Vec<u32>>,
}

pub struct Author {
    pub orcid: Option<String>,
    pub given: Option<String>,
    pub family: String,
    pub sequence: String,
    pub affiliation: Vec<Affiliation>,
}

pub struct Affiliation {
    pub name: String,
}

pub struct Relation {
    pub id_type: String,
    pub id: String,
    pub asserted_by: String,
}

pub struct Resource {
    pub url: String,
}

/// The title followed by each subtitle, each after `": "`.
pub open spec fn with_subtitles(title: Seq<char>, subs: Seq<Seq<char>>) -> Seq<char>
    decreases subs.len(),
{
    if subs.len() == 0 {
        title
    } else {
        with_subtitles(title, subs.drop_last()) + seq![':', ' '] + subs.last()
    }
}

/// `d` without a leading `www.`.
pub open spec fn strip_www(d: Seq<char>) -> Seq<char> {
    if starts_with_spec(d, "www."@) {
        d.skip("www."@.len() as int)
    } else {
        d
    }
}

/// The domain of a URL whose host `url::Url::parse` reads as a domain name
/// (as opposed to an IP address or no host at all), or `None` where it
/// fails to parse or has no such host.
pub uninterp spec fn url_domain_host(input: Seq<char>) -> Option<Seq<char>>;

/// The domain name that a URL names, if any.
///
/// Trusted: wraps `url::Url::parse` and `Url::host`, keeping the host only
/// where it is `Host::Domain`. What the URL parser makes of the input is
/// named, not stated ([`url_domain_host`]).
#[verifier::external_body]
fn url_domain(input: &str) -> (res: Option<String>)
    ensures
        match res {
            Some(d) => url_domain_host(input@) == Some(d@),
            None => url_domain_host(input@) is None,
        },
{
    match url::Url::parse(input) {
        Ok(u) => match u.host() {
            Some(url::Host::Domain(d)) => Some(d.to_string()),
            _ => None,
        },
        Err(_) => None,
    }
}

/// The domain of a URL, without a leading `www.`.
pub open spec fn domain_spec(url: Seq<char>) -> Option<Seq<char>> {
    match url_domain_host(url) {
        Some(d) => Some(strip_www(d)),
        None => None,
    }
}

/// The domain name of a URL without a leading `www.`, if the URL parses
/// and names a domain.
pub fn domain(url: &str) -> (res: Option<String>)
    ensures
        match res {
            Some(d) => domain_spec(url@) == Some(d@),
            None => domain_spec(url@) is None,
        },
{
    match url_domain(url) {
        Some(d) => {
            let cs = chars_of(d.as_str());
            let www = chars_of("www.");
            if starts_with(cs.as_slice(), www.as_slice()) {
                let rest = slice_range(cs.as_slice(), www.len(), cs.len());
                Some(string_of(rest.as_slice()))
            } else {
                Some(d)
            }
        },
        None => None,
    }
}


impl Paper {
    /// The DOIs of the works that Crossref lists as identical to this one.
    pub open spec fn identical_dois_spec(&self) -> Seq<Seq<char>> {
        match self.relation.get_spec("is-identical-to"@) {
            Some(rels) => rels@.map_values(|r: Relation| r.id@),
            None => seq![],
        }
    }

    /// The URL of the primary resource, if Crossref lists one.
    pub open spec fn resource_url_spec(&self) -> Option<Seq<char>> {
        match self.resource.get_spec("primary"@) {
            Some(r) => Some(r.url@),
            None => None,
        }
    }

    /// Whether the primary resource is hosted by the ACM Digital Library.
    pub open spec fn is_acm_spec(&self) -> bool {
        match self.resource_url_spec() {
            Some(u) => match domain_spec(u) {
                Some(d) => d == "dl.acm.org"@ || d == "portal.acm.org"@,
                None => false,
            },
            None => false,
        }
    }

    /// A direct link to the PDF: known for ACM papers only.
    pub open spec fn pdf_url_spec(&self) -> Option<Seq<char>> {
        if self.is_acm_spec() {
            Some("https://dl.acm.org/doi/pdf/"@ + self.doi@)
        } else {
            None
        }
    }

    /// A link to a publisher page: the ACM page of an ACM paper, else the
    /// primary resource.
    pub open spec fn link_url_spec(&self) -> Option<Seq<char>> {
        if self.is_acm_spec() {
            Some("https://dl.acm.org/doi/"@ + self.doi@)
        } else {
            self.resource_url_spec()
        }
    }

    /// The full title: the title followed by each subtitle after `": "`.
    pub fn title(&self) -> (res: String)
        ensures
            res@ == with_subtitles(self.title@, string_views(self.subtitle@)),
    {
        let mut out = to_owned(self.title.as_str());
        let mut i: usize = 0;
        while i < self.subtitle.len()
            invariant
                i <= self.subtitle.len(),
                out@ == with_subtitles(self.title@, string_views(self.subtitle@).take(i as int)),
            decreases self.subtitle.len() - i,
        {
            let ghost before = out@;
            push_char(&mut out, ':');
            push_char(&mut out, ' ');
            push_str(&mut out, self.subtitle[i].as_str());
            proof {
                let subs = string_views(self.subtitle@).take(i + 1);
                assert(subs.drop_last() == string_views(self.subtitle@).take(i as int));
                assert(out@ =~= before + seq![':', ' '] + subs.last());
            }
            i = i + 1;
        }
        assert(string_views(self.subtitle@).take(self.subtitle.len() as int) == string_views(
            self.subtitle@,
        ));
        out
    }

    /// The DOIs of the works that Crossref lists as identical to this one.
    pub fn identical_dois(&self) -> (res: Vec<String>)
        ensures
            string_views(res@) == self.identical_dois_spec(),
    {
        let mut res: Vec<String> = Vec::new();
        if let Some(rels) = self.relation.get("is-identical-to") {
            let mut i: usize = 0;
            while i < rels.len()
                invariant
                    i <= rels.len(),
                    string_views(res@) == rels@.map_values(|r: Relation| r.id@).take(i as int),
                decreases rels.len() - i,
            {
                let id = rels[i].id.clone();
                proof {
                    assert(string_views(res@.push(id)) == string_views(res@).push(id@));
                    assert(rels@.map_values(|r: Relation| r.id@).take(i + 1) == rels@.map_values(
                        |r: Relation| r.id@,
                    ).take(i as int).push(rels@[i as int].id@));
                }
                res.push(id);
                i = i + 1;
            }
            assert(rels@.map_values(|r: Relation| r.id@).take(rels.len() as int) == rels@.map_values(
                |r: Relation| r.id@,
            ));
        } else {
            assert(string_views(res@) =~= seq![]);
        }
        res
    }

    /// The URL of the primary resource, if Crossref lists one.
    pub fn resource_url(&self) -> (res: Option<&str>)
        ensures
            match res {
                Some(u) => self.resource_url_spec() == Some(u@),
                None => self.resource_url_spec() is None,
            },
    {
        match self.resource.get("primary") {
            Some(r) => Some(r.url.as_str()),
            None => None,
        }
    }

    /// Whether the primary resource is hosted by the ACM Digital Library.
    pub fn is_acm(&self) -> (b: bool)
        ensures
            b == self.is_acm_spec(),
    {
        match self.resource_url() {
            Some(url) => match domain(url) {
                Some(d) => str_equal(d.as_str(), "dl.acm.org") || str_equal(
                    d.as_str(),
                    "portal.acm.org",
                ),
                None => false,
            },
            None => false,
        }
    }

    /// Gets a direct link to the paper PDF, if one is known.
    pub fn pdf_url(&self) -> (res: Option<String>)
        ensures
            opt_view(res) == self.pdf_url_spec(),
    {
        if self.is_acm() {
            Some(concat("https://dl.acm.org/doi/pdf/", self.doi.as_str()))
        } else {
            None
        }
    }

    /// Gets a link to a publisher page about the paper, if we have one.
    pub fn link_url(&self) -> (res: Option<String>)
        ensures
            opt_view(res) == self.link_url_spec(),
    {
        if self.is_acm() {
            Some(concat("https://dl.acm.org/doi/", self.doi.as_str()))
        } else {
            match self.resource_url() {
                Some(u) => Some(to_owned(u)),
                None => None,
            }
        }
    }

    /// The work type with dashes turned into spaces (`journal article`).
    pub fn human_type(&self) -> (res: String)
        ensures
            res@ == replace_spec(self.type_@, seq!['-'], seq![' ']),
    {
        let t = chars_of(self.type_.as_str());
        let dash = vec!['-'];
        let space = vec![' '];
        assert(dash@ =~= seq!['-']);
        assert(space@ =~= seq![' ']);
        let r = replace(t.as_slice(), dash.as_slice(), space.as_slice());
        string_of(r.as_slice())
    }

    /// The name of the event (conference) the work appeared at, if any.
    pub fn event_title(&self) -> (res: Option<&str>)
        ensures
            match res {
                Some(e) => self.event matches Some(ev) && ev@ == e@,
                None => self.event is None,
            },
    {
        match &self.event {
            Some(e) => Some(e.as_str()),
            None => None,
        }
    }
}


/// The API address of a work's Crossref record.
pub open spec fn paper_url_spec(doi: Seq<char>) -> Seq<char> {
    "https://api.crossref.org/v1/works/"@ + doi
}

/// The API address of a work's Crossref record.
pub fn paper_url(doi: &str) -> (res: String)
    ensures
        res@ == paper_url_spec(doi@),
{
    concat("https://api.crossref.org/v1/works/", doi)
}

impl Author {
    /// The author's name: the given name (if any), a space, the family name.
    pub open spec fn name_spec(&self) -> Seq<char> {
        match self.given {
            Some(g) => g@ + seq![' '] + self.family@,
            None => self.family@,
        }
    }

    /// The author's full name.
    pub fn name(&self) -> (res: String)
        ensures
            res@ == self.name_spec(),
    {
        let mut out = String::new();
        if let Some(g) = &self.given {
            push_str(&mut out, g.as_str());
            push_char(&mut out, ' ');
        }
        push_str(&mut out, self.family.as_str());
        out
    }
}

/// The English name of month `n`, counting from `January` for 0, or `?`
/// past the twelfth.
pub open spec fn month_name_spec(n: u32) -> Seq<char> {
    if n == 0 {
        "January"@
    } else if n == 1 {
        "February"@
    } else if n == 2 {
        "March"@
    } else if n == 3 {
        "April"@
    } else if n == 4 {
        "May"@
    } else if n == 5 {
        "June"@
    } else if n == 6 {
        "July"@
    } else if n == 7 {
        "August"@
    } else if n == 8 {
        "September"@
    } else if n == 9 {
        "October"@
    } else if n == 10 {
        "November"@
    } else if n == 11 {
        "December"@
    } else {
        "?"@
    }
}

/// The name that `Date` formatting gives month number `n` (the entry at
/// index `n` of the month list, or `?`).
pub fn month(n: u32) -> (res: &'static str)
    ensures
        res@ == month_name_spec(n),
{
    if n == 0 {
        "January"
    } else if n == 1 {
        "February"
    } else if n == 2 {
        "March"
    } else if n == 3 {
        "April"
    } else if n == 4 {
        "May"
    } else if n == 5 {
        "June"
    } else if n == 6 {
        "July"
    } else if n == 7 {
        "August"
    } else if n == 8 {
        "September"
    } else if n == 9 {
        "October"
    } else if n == 10 {
        "November"
    } else if n == 11 {
        "December"
    } else {
        "?"
    }
}

/// The date in ISO form: `YYYY-MM-DD`, `YYYY-MM` or `YYYY` (fields
/// zero-padded), or nothing for another number of parts.
pub open spec fn iso_spec(p: Seq<u32>) -> Seq<char> {
    if p.len() == 3 {
        pad_zeros(decimal_spec(p[0] as nat), 4) + seq!['-'] + pad_zeros(decimal_spec(p[1] as nat), 2)
            + seq!['-'] + pad_zeros(decimal_spec(p[2] as nat), 2)
    } else if p.len() == 2 {
        pad_zeros(decimal_spec(p[0] as nat), 4) + seq!['-'] + pad_zeros(decimal_spec(p[1] as nat), 2)
    } else if p.len() == 1 {
        pad_zeros(decimal_spec(p[0] as nat), 4)
    } else {
        seq![]
    }
}

/// The date for people: `Month D, YYYY`, `Month YYYY` or `YYYY`, or nothing
/// for another number of parts.
pub open spec fn display_spec(p: Seq<u32>) -> Seq<char> {
    if p.len() == 3 {
        month_name_spec(p[1]) + seq![' '] + decimal_spec(p[2] as nat) + seq![',', ' '] + decimal_spec(
            p[0] as nat,
        )
    } else if p.len() == 2 {
        month_name_spec(p[1]) + seq![' '] + decimal_spec(p[0] as nat)
    } else if p.len() == 1 {
        decimal_spec(p[0] as nat)
    } else {
        seq![]
    }
}

impl Date {
    /// The parts of the first date listed.
    pub open spec fn parts(&self) -> Seq<u32> {
        self.date_parts@[0]@
    }

    pub fn year(&self) -> (y: u32)
        requires
            self.date_parts.len() > 0,
            self.date_parts@[0].len() > 0,
        ensures
            y == self.parts()[0],
    {
        self.date_parts[0][0]
    }

    pub fn month(&self) -> (m: Option<u32>)
        requires
            self.date_parts.len() > 0,
        ensures
            m == (if self.parts().len() > 1 { Some(self.parts()[1]) } else { None }),
    {
        if self.date_parts[0].len() > 1 {
            Some(self.date_parts[0][1])
        } else {
            None
        }
    }

    pub fn day(&self) -> (d: Option<u32>)
        requires
            self.date_parts.len() > 0,
        ensures
            d == (if self.parts().len() > 2 { Some(self.parts()[2]) } else { None }),
    {
        if self.date_parts[0].len() > 2 {
            Some(self.date_parts[0][2])
        } else {
            None
        }
    }

    /// The date in ISO form (see [`iso_spec`]).
    pub fn iso(&self) -> (res: String)
        requires
            self.date_parts.len() > 0,
        ensures
            res@ == iso_spec(self.parts()),
    {
        let p = &self.date_parts[0];
        let mut out: Vec<char> = Vec::new();
        if p.len() == 3 || p.len() == 2 || p.len() == 1 {
            let y = padded_decimal(p[0], 4);
            extend(&mut out, y.as_slice());
        }
        if p.len() == 3 || p.len() == 2 {
            out.push('-');
            let m = padded_decimal(p[1], 2);
            extend(&mut out, m.as_slice());
        }
        if p.len() == 3 {
            out.push('-');
            let d = padded_decimal(p[2], 2);
            extend(&mut out, d.as_slice());
        }
        assert(out@ =~= iso_spec(self.parts()));
        string_of(out.as_slice())
    }

    /// The date for people (see [`display_spec`]).
    pub fn to_string(&self) -> (res: String)
        requires
            self.date_parts.len() > 0,
        ensures
            res@ == display_spec(self.parts()),
    {
        let p = &self.date_parts[0];
        let mut out = String::new();
        if p.len() == 3 {
            push_str(&mut out, month(p[1]));
            push_char(&mut out, ' ');
            push_chars(&mut out, decimal(p[2] as u64).as_slice());
            push_char(&mut out, ',');
            push_char(&mut out, ' ');
            push_chars(&mut out, decimal(p[0] as u64).as_slice());
        } else if p.len() == 2 {
            push_str(&mut out, month(p[1]));
            push_char(&mut out, ' ');
            push_chars(&mut out, decimal(p[0] as u64).as_slice());
        } else if p.len() == 1 {
            push_chars(&mut out, decimal(p[0] as u64).as_slice());
        }
        assert(out@ =~= display_spec(self.parts()));
        out
    }
}

/// Papers hosted by the ACM Digital Library, whether its primary resource
/// is on `dl.acm.org` or on the older `portal.acm.org` (with or without a
/// leading `www.`), link to their ACM page and PDF by DOI; any other paper
/// has no PDF link and links to its primary resource.
pub proof fn law_acm_links(p: Paper)
    ensures
        p.resource_url_spec() matches Some(u) && (url_domain_host(u) == Some("dl.acm.org"@)
            || url_domain_host(u) == Some("portal.acm.org"@) || url_domain_host(u) == Some(
            "www.dl.acm.org"@,
        ) || url_domain_host(u) == Some("www.portal.acm.org"@)) ==> p.pdf_url_spec() == Some(
            "https://dl.acm.org/doi/pdf/"@ + p.doi@,
        ) && p.link_url_spec() == Some("https://dl.acm.org/doi/"@ + p.doi@),
        !(p.resource_url_spec() matches Some(u) && (domain_spec(u) == Some("dl.acm.org"@)
            || domain_spec(u) == Some("portal.acm.org"@))) ==> p.pdf_url_spec() is None
            && p.link_url_spec() == p.resource_url_spec(),
{
    reveal_strlit("www.");
    reveal_strlit("dl.acm.org");
    reveal_strlit("portal.acm.org");
    reveal_strlit("www.dl.acm.org");
    reveal_strlit("www.portal.acm.org");
    if let Some(u) = p.resource_url_spec() {
        if url_domain_host(u) == Some("dl.acm.org"@) {
            assert(!starts_with_spec("dl.acm.org"@, "www."@)) by {
                assert("dl.acm.org"@.subrange(0, 4)[0] == 'd');
            }
        } else if url_domain_host(u) == Some("portal.acm.org"@) {
            assert(!starts_with_spec("portal.acm.org"@, "www."@)) by {
                assert("portal.acm.org"@.subrange(0, 4)[0] == 'p');
            }
        } else if url_domain_host(u) == Some("www.dl.acm.org"@) {
            assert(starts_with_spec("www.dl.acm.org"@, "www."@)) by {
                assert("www.dl.acm.org"@.subrange(0, 4) =~= "www."@);
            }
            assert("www.dl.acm.org"@.skip(4) =~= "dl.acm.org"@);
        } else if url_domain_host(u) == Some("www.portal.acm.org"@) {
            assert(starts_with_spec("www.portal.acm.org"@, "www."@)) by {
                assert("www.portal.acm.org"@.subrange(0, 4) =~= "www."@);
            }
            assert("www.portal.acm.org"@.skip(4) =~= "portal.acm.org"@);
        }
    }
}

} // verus!
