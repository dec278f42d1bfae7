//! Character-level string helpers with their specifications.
use vstd::prelude::*;

verus! {

/// Appends one character to a string.
///
/// Trusted: wraps `String::push`, which std documents as appending the
/// given `char` to the end of the string.
#[verifier::external_body]
pub fn push_char(s: &mut String, c: char)
    ensures
        final(s)@ == old(s)@.push(c),
{
    s.push(c);
}

/// The characters of a string slice, in order.
pub fn chars_of(s: &str) -> (v: Vec<char>)
    ensures
        v@ == s@,
{
    let mut v: Vec<char> = Vec::new();
    for c in it: s.chars()
        invariant
            v@ == it.seq().take(it.index() as int),
            it.seq() == s@,
    {
        v.push(c);
    }
    v
}

/// A string holding exactly the given characters.
pub fn string_of(cs: &[char]) -> (s: String)
    ensures
        s@ == cs@,
{
    let mut s = String::new();
    let mut i: usize = 0;
    while i < cs.len()
        invariant
            i <= cs.len(),
            s@ == cs@.take(i as int),
        decreases cs.len() - i,
    {
        push_char(&mut s, cs[i]);
        assert(cs@.take(i + 1) == cs@.take(i as int).push(cs@[i as int]));
        i = i + 1;
    }
    assert(cs@.take(cs.len() as int) == cs@);
    s
}


/// The Unicode `White_Space` characters, which `char::is_whitespace` and
/// `str::trim` treat as whitespace.
pub open spec fn is_ws(c: char) -> bool {
    let n = c as u32;
    ||| 9 <= n <= 13
    ||| n == 32
    ||| n == 0x85
    ||| n == 0xA0
    ||| n == 0x1680
    ||| 0x2000 <= n <= 0x200A
    ||| n == 0x2028
    ||| n == 0x2029
    ||| n == 0x202F
    ||| n == 0x205F
    ||| n == 0x3000
}

/// Whether a character is whitespace in the sense of `char::is_whitespace`.
pub fn is_whitespace(c: char) -> (b: bool)
    ensures
        b == is_ws(c),
{
    let n = c as u32;
    (9 <= n && n <= 13) || n == 32 || n == 0x85 || n == 0xA0 || n == 0x1680 || (0x2000 <= n && n
        <= 0x200A) || n == 0x2028 || n == 0x2029 || n == 0x202F || n == 0x205F || n == 0x3000
}

/// `s` without its leading whitespace.
pub open spec fn trim_start_spec(s: Seq<char>) -> Seq<char>
    decreases s.len(),
{
    if s.len() > 0 && is_ws(s[0]) {
        trim_start_spec(s.drop_first())
    } else {
        s
    }
}

/// `s` without its trailing whitespace.
pub open spec fn trim_end_spec(s: Seq<char>) -> Seq<char>
    decreases s.len(),
{
    if s.len() > 0 && is_ws(s.last()) {
        trim_end_spec(s.drop_last())
    } else {
        s
    }
}

/// `s` without leading and trailing whitespace, as `str::trim` gives it.
pub open spec fn trim_spec(s: Seq<char>) -> Seq<char> {
    trim_end_spec(trim_start_spec(s))
}

/// A copy of `s[lo..hi]`.
pub fn slice_range(s: &[char], lo: usize, hi: usize) -> (v: Vec<char>)
    requires
        lo <= hi <= s.len(),
    ensures
        v@ == s@.subrange(lo as int, hi as int),
{
    let mut v: Vec<char> = Vec::new();
    let mut i = lo;
    while i < hi
        invariant
            lo <= i <= hi <= s.len(),
            v@ == s@.subrange(lo as int, i as int),
        decreases hi - i,
    {
        v.push(s[i]);
        i = i + 1;
    }
    v
}

/// Removes leading and trailing whitespace.
pub fn trim(s: &[char]) -> (v: Vec<char>)
    ensures
        v@ == trim_spec(s@),
{
    let n = s.len();
    let mut lo: usize = 0;
    assert(s@.subrange(0, n as int) == s@);
    while lo < n && is_whitespace(s[lo])
        invariant
            lo <= n == s.len(),
            trim_start_spec(s@) == trim_start_spec(s@.subrange(lo as int, n as int)),
        decreases n - lo,
    {
        assert(s@.subrange(lo as int, n as int).drop_first() == s@.subrange(lo + 1, n as int));
        lo = lo + 1;
    }
    let mut hi: usize = n;
    while hi > lo && is_whitespace(s[hi - 1])
        invariant
            lo <= hi <= n == s.len(),
            trim_spec(s@) == trim_end_spec(s@.subrange(lo as int, hi as int)),
        decreases hi,
    {
        assert(s@.subrange(lo as int, hi as int).drop_last() == s@.subrange(lo as int, hi - 1));
        hi = hi - 1;
    }
    slice_range(s, lo, hi)
}

/// Whether `pat` occurs in `s` at position `i`.
pub open spec fn occurs_at(s: Seq<char>, pat: Seq<char>, i: int) -> bool {
    0 <= i && i + pat.len() <= s.len() && s.subrange(i, i + pat.len()) == pat
}

/// The pieces of `s[start..]` cut at the occurrences of `pat`, scanning
/// from position `i` and taking each occurrence left to right.
pub open spec fn split_scan(s: Seq<char>, pat: Seq<char>, start: int, i: int) -> Seq<Seq<char>>
    decreases s.len() - i,
{
    if pat.len() == 0 || i < 0 || i + pat.len() > s.len() {
        seq![s.subrange(start, s.len() as int)]
    } else if s.subrange(i, i + pat.len()) == pat {
        seq![s.subrange(start, i)] + split_scan(s, pat, i + pat.len(), i + pat.len())
    } else {
        split_scan(s, pat, start, i + 1)
    }
}

/// The pieces that `str::split` yields for a non-empty string pattern.
pub open spec fn split_spec(s: Seq<char>, pat: Seq<char>) -> Seq<Seq<char>> {
    split_scan(s, pat, 0, 0)
}

/// The pieces joined with `sep` between each two of them.
pub open spec fn join_spec(parts: Seq<Seq<char>>, sep: Seq<char>) -> Seq<char>
    decreases parts.len(),
{
    if parts.len() == 0 {
        seq![]
    } else if parts.len() == 1 {
        parts[0]
    } else {
        join_spec(parts.drop_last(), sep) + sep + parts.last()
    }
}

/// Every occurrence of `pat` replaced by `rep`, as `str::replace` does it.
pub open spec fn replace_spec(s: Seq<char>, pat: Seq<char>, rep: Seq<char>) -> Seq<char> {
    join_spec(split_spec(s, pat), rep)
}

/// Whether `s` begins with `p`.
pub open spec fn starts_with_spec(s: Seq<char>, p: Seq<char>) -> bool {
    p.len() <= s.len() && s.subrange(0, p.len() as int) == p
}

/// The views of a sequence of character vectors.
pub open spec fn views(v: Seq<Vec<char>>) -> Seq<Seq<char>> {
    v.map_values(|x: Vec<char>| x@)
}

/// Whether `pat` occurs in `s` at position `i`.
pub fn matches_at(s: &[char], pat: &[char], i: usize) -> (b: bool)
    ensures
        b == occurs_at(s@, pat@, i as int),
{
    if i > s.len() || pat.len() > s.len() - i {
        return false;
    }
    let mut k: usize = 0;
    while k < pat.len()
        invariant
            i + pat.len() <= s.len(),
            k <= pat.len(),
            forall|j: int| 0 <= j < k ==> s@[i + j] == pat@[j],
        decreases pat.len() - k,
    {
        if s[i + k] != pat[k] {
            assert(s@.subrange(i as int, i + pat.len())[k as int] != pat@[k as int]);
            return false;
        }
        k = k + 1;
    }
    assert(s@.subrange(i as int, i + pat.len()) =~= pat@);
    true
}

/// Whether `s` begins with `p`.
pub fn starts_with(s: &[char], p: &[char]) -> (b: bool)
    ensures
        b == starts_with_spec(s@, p@),
{
    matches_at(s, p, 0)
}

/// The pieces of `s` between the occurrences of `pat`, as `str::split` yields them.
pub fn split(s: &[char], pat: &[char]) -> (parts: Vec<Vec<char>>)
    requires
        pat.len() > 0,
    ensures
        views(parts@) == split_spec(s@, pat@),
{
    let mut parts: Vec<Vec<char>> = Vec::new();
    let mut start: usize = 0;
    let mut i: usize = 0;
    while pat.len() <= s.len() - i
        invariant
            start <= i <= s.len(),
            pat.len() > 0,
            split_spec(s@, pat@) == views(parts@) + split_scan(s@, pat@, start as int, i as int),
        decreases s.len() - i,
    {
        if matches_at(s, pat, i) {
            let piece = slice_range(s, start, i);
            proof {
                assert(views(parts@.push(piece)) == views(parts@).push(piece@));
            }
            parts.push(piece);
            i = i + pat.len();
            start = i;
        } else {
            i = i + 1;
        }
    }
    let piece = slice_range(s, start, s.len());
    proof {
        assert(views(parts@.push(piece)) == views(parts@).push(piece@));
    }
    parts.push(piece);
    parts
}

/// Appends all of `t` to `v`.
pub fn extend(v: &mut Vec<char>, t: &[char])
    ensures
        final(v)@ == old(v)@ + t@,
{
    let mut i: usize = 0;
    while i < t.len()
        invariant
            i <= t.len(),
            v@ == old(v)@ + t@.take(i as int),
        decreases t.len() - i,
    {
        v.push(t[i]);
        assert(t@.take(i + 1) == t@.take(i as int).push(t@[i as int]));
        i = i + 1;
    }
    assert(t@.take(t.len() as int) == t@);
}

/// The pieces joined with `sep` between each two of them.
pub fn join(parts: &Vec<Vec<char>>, sep: &[char]) -> (v: Vec<char>)
    ensures
        v@ == join_spec(views(parts@), sep@),
{
    let mut v: Vec<char> = Vec::new();
    let mut i: usize = 0;
    while i < parts.len()
        invariant
            i <= parts.len(),
            v@ == join_spec(views(parts@).take(i as int), sep@),
        decreases parts.len() - i,
    {
        let ghost before = views(parts@).take(i as int);
        if i > 0 {
            extend(&mut v, sep);
        }
        extend(&mut v, parts[i].as_slice());
        proof {
            let after = views(parts@).take(i + 1);
            assert(after.drop_last() == before);
            assert(after.last() == parts@[i as int]@);
            if i == 0 {
                assert(after.len() == 1);
            }
        }
        i = i + 1;
    }
    assert(views(parts@).take(parts.len() as int) == views(parts@));
    v
}

/// Every occurrence of `pat` in `s` replaced by `rep`.
pub fn replace(s: &[char], pat: &[char], rep: &[char]) -> (v: Vec<char>)
    requires
        pat.len() > 0,
    ensures
        v@ == replace_spec(s@, pat@, rep@),
{
    let parts = split(s, pat);
    join(&parts, rep)
}


/// The decimal digit for `d < 10`.
pub open spec fn digit_spec(d: nat) -> char {
    if d == 0 { '0' }
    else if d == 1 { '1' }
    else if d == 2 { '2' }
    else if d == 3 { '3' }
    else if d == 4 { '4' }
    else if d == 5 { '5' }
    else if d == 6 { '6' }
    else if d == 7 { '7' }
    else if d == 8 { '8' }
    else { '9' }
}

/// The decimal notation of `n`, without leading zeros (`{}` formatting).
pub open spec fn decimal_spec(n: nat) -> Seq<char>
    decreases n,
{
    if n < 10 {
        seq![digit_spec(n)]
    } else {
        decimal_spec(n / 10).push(digit_spec(n % 10))
    }
}

/// `s` padded on the left with zeros to at least `width` characters
/// (`{:0width}` formatting of a number whose notation is `s`).
pub open spec fn pad_zeros(s: Seq<char>, width: nat) -> Seq<char> {
    if s.len() >= width {
        s
    } else {
        Seq::new((width - s.len()) as nat, |i: int| '0') + s
    }
}

fn digit(d: u64) -> (c: char)
    requires
        d < 10,
    ensures
        c == digit_spec(d as nat),
{
    if d == 0 { '0' }
    else if d == 1 { '1' }
    else if d == 2 { '2' }
    else if d == 3 { '3' }
    else if d == 4 { '4' }
    else if d == 5 { '5' }
    else if d == 6 { '6' }
    else if d == 7 { '7' }
    else if d == 8 { '8' }
    else { '9' }
}

/// The decimal notation of `n`.
pub fn decimal(n: u64) -> (v: Vec<char>)
    ensures
        v@ == decimal_spec(n as nat),
    decreases n,
{
    if n < 10 {
        let mut v = Vec::new();
        v.push(digit(n));
        v
    } else {
        let mut v = decimal(n / 10);
        v.push(digit(n % 10));
        v
    }
}

/// The decimal notation of `n`, zero-padded to at least `width` characters.
pub fn padded_decimal(n: u32, width: usize) -> (v: Vec<char>)
    ensures
        v@ == pad_zeros(decimal_spec(n as nat), width as nat),
{
    let d = decimal(n as u64);
    if d.len() >= width {
        d
    } else {
        let mut v: Vec<char> = Vec::new();
        let fill = width - d.len();
        while v.len() < fill
            invariant
                v.len() <= fill,
                forall|i: int| 0 <= i < v.len() ==> v@[i] == '0',
            decreases fill - v.len(),
        {
            v.push('0');
        }
        extend(&mut v, d.as_slice());
        assert(v@ =~= Seq::new((width - d@.len()) as nat, |i: int| '0') + d@);
        v
    }
}


/// Whether two character sequences are equal.
pub fn chars_equal(a: &[char], b: &[char]) -> (r: bool)
    ensures
        r == (a@ == b@),
{
    if a.len() != b.len() {
        return false;
    }
    let mut i: usize = 0;
    while i < a.len()
        invariant
            a.len() == b.len(),
            i <= a.len(),
            forall|j: int| 0 <= j < i ==> a@[j] == b@[j],
        decreases a.len() - i,
    {
        if a[i] != b[i] {
            return false;
        }
        i = i + 1;
    }
    assert(a@ =~= b@);
    true
}

/// Whether two string slices hold the same characters.
pub fn str_equal(a: &str, b: &str) -> (r: bool)
    ensures
        r == (a@ == b@),
{
    let ca = chars_of(a);
    let cb = chars_of(b);
    chars_equal(ca.as_slice(), cb.as_slice())
}

/// Appends all characters of `t` to `s`.
pub fn push_chars(s: &mut String, t: &[char])
    ensures
        final(s)@ == old(s)@ + t@,
{
    let mut i: usize = 0;
    while i < t.len()
        invariant
            i <= t.len(),
            s@ == old(s)@ + t@.take(i as int),
        decreases t.len() - i,
    {
        push_char(s, t[i]);
        assert(t@.take(i + 1) == t@.take(i as int).push(t@[i as int]));
        i = i + 1;
    }
    assert(t@.take(t.len() as int) == t@);
}

/// Appends all characters of `t` to `s`.
pub fn push_str(s: &mut String, t: &str)
    ensures
        final(s)@ == old(s)@ + t@,
{
    let cs = chars_of(t);
    push_chars(s, cs.as_slice());
}


/// Each piece with its leading and trailing whitespace removed.
pub open spec fn trim_all(parts: Seq<Seq<char>>) -> Seq<Seq<char>> {
    parts.map_values(|p: Seq<char>| trim_spec(p))
}

/// Trims each piece.
pub fn trim_each(parts: &Vec<Vec<char>>) -> (r: Vec<Vec<char>>)
    ensures
        views(r@) == trim_all(views(parts@)),
{
    let mut r: Vec<Vec<char>> = Vec::new();
    let mut i: usize = 0;
    while i < parts.len()
        invariant
            i <= parts.len(),
            views(r@) == trim_all(views(parts@)).take(i as int),
        decreases parts.len() - i,
    {
        let t = trim(parts[i].as_slice());
        proof {
            assert(views(r@.push(t)) == views(r@).push(t@));
            assert(trim_all(views(parts@)).take(i + 1) == trim_all(views(parts@)).take(i as int).push(
                trim_spec(parts@[i as int]@),
            ));
        }
        r.push(t);
        i = i + 1;
    }
    assert(trim_all(views(parts@)).take(parts.len() as int) == trim_all(views(parts@)));
    r
}


/// The views of a sequence of strings.
pub open spec fn string_views(v: Seq<String>) -> Seq<Seq<char>> {
    v.map_values(|x: String| x@)
}

/// A string made of the characters of `a` followed by those of `b`.
pub fn concat(a: &str, b: &str) -> (s: String)
    ensures
        s@ == a@ + b@,
{
    let mut s = String::new();
    push_str(&mut s, a);
    push_str(&mut s, b);
    s
}

/// A copy of a string slice.
pub fn to_owned(a: &str) -> (s: String)
    ensures
        s@ == a@,
{
    let mut s = String::new();
    push_str(&mut s, a);
    s
}


/// The view of an optional string.
pub open spec fn opt_view(s: Option<String>) -> Option<Seq<char>> {
    match s {
        Some(t) => Some(t@),
        None => None,
    }
}

/// What is left after trimming the start is a suffix, with no whitespace
/// in front, and not empty where the last character is no whitespace.
pub(crate) proof fn lemma_trim_start(x: Seq<char>)
    ensures
        trim_start_spec(x).len() <= x.len(),
        trim_start_spec(x) == x.subrange(x.len() - trim_start_spec(x).len(), x.len() as int),
        trim_start_spec(x).len() > 0 ==> !is_ws(trim_start_spec(x)[0]),
        x.len() > 0 && !is_ws(x.last()) ==> trim_start_spec(x).len() > 0,
    decreases x.len(),
{
    if x.len() > 0 && is_ws(x[0]) {
        lemma_trim_start(x.drop_first());
        assert(x.drop_first().subrange(
            x.drop_first().len() - trim_start_spec(x).len(),
            x.drop_first().len() as int,
        ) == x.subrange(x.len() - trim_start_spec(x).len(), x.len() as int));
    } else {
        assert(x.subrange(0, x.len() as int) == x);
    }
}

/// What is left after trimming the end is a prefix, with no whitespace at
/// its end, and not empty where the first character is no whitespace.
pub(crate) proof fn lemma_trim_end(x: Seq<char>)
    ensures
        trim_end_spec(x).len() <= x.len(),
        trim_end_spec(x) == x.subrange(0, trim_end_spec(x).len() as int),
        trim_end_spec(x).len() > 0 ==> !is_ws(trim_end_spec(x).last()),
        x.len() > 0 && !is_ws(x[0]) ==> trim_end_spec(x).len() > 0,
    decreases x.len(),
{
    if x.len() > 0 && is_ws(x.last()) {
        lemma_trim_end(x.drop_last());
        assert(x.drop_last().subrange(0, trim_end_spec(x).len() as int) == x.subrange(
            0,
            trim_end_spec(x).len() as int,
        ));
    } else {
        assert(x.subrange(0, x.len() as int) == x);
    }
}

/// A trimmed sequence is empty or begins and ends with non-whitespace.
pub(crate) proof fn lemma_trim_edges(x: Seq<char>)
    ensures
        trim_spec(x).len() > 0 ==> !is_ws(trim_spec(x)[0]) && !is_ws(trim_spec(x).last()),
{
    let a = trim_start_spec(x);
    lemma_trim_start(x);
    lemma_trim_end(a);
    if trim_spec(x).len() > 0 {
        assert(trim_spec(x)[0] == a[0]);
    }
}

/// Trimming keeps a first non-whitespace character in front, and a last
/// non-whitespace character at the end.
pub(crate) proof fn lemma_trim_keeps_edges(x: Seq<char>)
    requires
        x.len() > 0,
    ensures
        !is_ws(x[0]) ==> trim_spec(x).len() > 0 && trim_spec(x)[0] == x[0],
        !is_ws(x.last()) ==> trim_spec(x).len() > 0 && trim_spec(x).last() == x.last(),
{
    let a = trim_start_spec(x);
    lemma_trim_start(x);
    lemma_trim_end(a);
    if !is_ws(x[0]) {
        assert(a == x);
    }
    if !is_ws(x.last()) {
        assert(a.last() == x.last());
        assert(trim_end_spec(a) == a);
    }
}

/// The first piece of a split begins with the first character of what is
/// split, where that character does not begin the pattern.
pub(crate) proof fn lemma_split_first(s: Seq<char>, pat: Seq<char>, start: int, i: int)
    requires
        pat.len() > 0,
        0 <= start <= i,
        start < s.len(),
        i == start ==> s[start] != pat[0],
    ensures
        split_scan(s, pat, start, i).len() > 0,
        split_scan(s, pat, start, i)[0].len() > 0,
        split_scan(s, pat, start, i)[0][0] == s[start],
    decreases s.len() - i,
{
    if i + pat.len() > s.len() {
    } else if s.subrange(i, i + pat.len()) == pat {
        assert(s.subrange(i, i + pat.len())[0] == s[i]);
    } else {
        lemma_split_first(s, pat, start, i + 1);
    }
}

/// The last piece of a split ends with the last character of what is
/// split, where that character does not end the pattern.
pub(crate) proof fn lemma_split_last(s: Seq<char>, pat: Seq<char>, start: int, i: int)
    requires
        pat.len() > 0,
        0 <= start <= i <= s.len(),
    ensures
        split_scan(s, pat, start, i).len() > 0,
        start < s.len() && s.last() != pat.last() ==> split_scan(s, pat, start, i).last().len() > 0
            && split_scan(s, pat, start, i).last().last() == s.last(),
    decreases s.len() - i,
{
    if i + pat.len() > s.len() {
    } else if s.subrange(i, i + pat.len()) == pat {
        let j = i + pat.len();
        lemma_split_last(s, pat, j, j);
        if start < s.len() && s.last() != pat.last() {
            if j == s.len() {
                assert(s.subrange(i, j).last() == s.last());
            }
        }
    } else {
        lemma_split_last(s, pat, start, i + 1);
    }
}

/// The joined sequence begins with the first character of the first piece.
pub(crate) proof fn lemma_join_first(parts: Seq<Seq<char>>, sep: Seq<char>)
    requires
        parts.len() > 0,
        parts[0].len() > 0,
    ensures
        join_spec(parts, sep).len() > 0,
        join_spec(parts, sep)[0] == parts[0][0],
    decreases parts.len(),
{
    if parts.len() > 1 {
        lemma_join_first(parts.drop_last(), sep);
    }
}

/// The joined sequence ends with the last character of the last piece.
pub(crate) proof fn lemma_join_last(parts: Seq<Seq<char>>, sep: Seq<char>)
    requires
        parts.len() > 0,
        parts.last().len() > 0,
    ensures
        join_spec(parts, sep).len() > 0,
        join_spec(parts, sep).last() == parts.last().last(),
{
}

/// Joining a non-empty first piece before more pieces puts the separator
/// between it and the rest.
proof fn lemma_join_prepend(a: Seq<char>, rest: Seq<Seq<char>>, sep: Seq<char>)
    requires
        rest.len() > 0,
    ensures
        join_spec(seq![a] + rest, sep) == a + sep + join_spec(rest, sep),
    decreases rest.len(),
{
    let all = seq![a] + rest;
    if rest.len() == 1 {
        assert(all.drop_last() =~= seq![a]);
        assert(all.last() == rest[0]);
        assert(join_spec(seq![a], sep) == a);
        assert(join_spec(all, sep) == join_spec(all.drop_last(), sep) + sep + all.last());
    } else {
        assert(all.drop_last() =~= seq![a] + rest.drop_last());
        assert(all.last() == rest.last());
        lemma_join_prepend(a, rest.drop_last(), sep);
        assert(join_spec(all, sep) == join_spec(all.drop_last(), sep) + sep + all.last());
        assert(join_spec(rest, sep) == join_spec(rest.drop_last(), sep) + sep + rest.last());
        assert(a + sep + join_spec(rest.drop_last(), sep) + sep + rest.last() =~= a + sep + (
        join_spec(rest.drop_last(), sep) + sep + rest.last()));
    }
}

proof fn lemma_join_split_scan(s: Seq<char>, pat: Seq<char>, start: int, i: int)
    requires
        pat.len() > 0,
        0 <= start <= i <= s.len(),
    ensures
        join_spec(split_scan(s, pat, start, i), pat) == s.subrange(start, s.len() as int),
    decreases s.len() - i,
{
    if i + pat.len() > s.len() {
    } else if s.subrange(i, i + pat.len()) == pat {
        let j = i + pat.len();
        lemma_join_split_scan(s, pat, j, j);
        lemma_split_last(s, pat, j, j);
        lemma_join_prepend(s.subrange(start, i), split_scan(s, pat, j, j), pat);
        assert(s.subrange(start, i) + pat + s.subrange(j, s.len() as int) =~= s.subrange(
            start,
            s.len() as int,
        ));
    } else {
        lemma_join_split_scan(s, pat, start, i + 1);
    }
}

/// Joining the pieces of a split with the same (non-empty) separator gives
/// the input back.
pub proof fn law_join_split(s: Seq<char>, sep: Seq<char>)
    requires
        sep.len() > 0,
    ensures
        join_spec(split_spec(s, sep), sep) == s,
{
    lemma_join_split_scan(s, sep, 0, 0);
    assert(s.subrange(0, s.len() as int) =~= s);
}

} // verus!
