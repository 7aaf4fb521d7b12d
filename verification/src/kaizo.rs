//! The command parser: turns the raw text of a mention into a structured
//! remodel request with a `from` and a `to` object name.
//!
//! The delimiter is not a literal substring: every maximal run of the glyphs
//! `-` and `>` that holds at least one `>` counts as one arrow occurrence,
//! so `->`, `-->`, `>>` and a bare `>` each split once, while a run of `-`
//! alone does not split at all.
use vstd::prelude::*;

verus! {

/// The characters of the Unicode `White_Space` set, the set that `str::trim`
/// strips from both ends of a string.
pub open spec fn is_ws(c: char) -> bool {
    c == ' ' || c == '\t' || c == '\n' || c == '\u{b}' || c == '\u{c}' || c == '\r'
        || c == '\u{85}' || c == '\u{a0}' || c == '\u{1680}' || c == '\u{2000}'
        || c == '\u{2001}' || c == '\u{2002}' || c == '\u{2003}' || c == '\u{2004}'
        || c == '\u{2005}' || c == '\u{2006}' || c == '\u{2007}' || c == '\u{2008}'
        || c == '\u{2009}' || c == '\u{200a}' || c == '\u{2028}' || c == '\u{2029}'
        || c == '\u{202f}' || c == '\u{205f}' || c == '\u{3000}'
}

/// Whether a character counts as whitespace when a command is trimmed.
pub fn is_whitespace_char(c: char) -> (r: bool)
    ensures
        r == is_ws(c),
{
    c == ' ' || c == '\t' || c == '\n' || c == '\u{b}' || c == '\u{c}' || c == '\r'
        || c == '\u{85}' || c == '\u{a0}' || c == '\u{1680}' || c == '\u{2000}'
        || c == '\u{2001}' || c == '\u{2002}' || c == '\u{2003}' || c == '\u{2004}'
        || c == '\u{2005}' || c == '\u{2006}' || c == '\u{2007}' || c == '\u{2008}'
        || c == '\u{2009}' || c == '\u{200a}' || c == '\u{2028}' || c == '\u{2029}'
        || c == '\u{202f}' || c == '\u{205f}' || c == '\u{3000}'
}

/// The characters of a string, collected into a vector.
pub fn str_chars(s: &str) -> (r: Vec<char>)
    ensures
        r@ == s@,
{
    let n = s.unicode_len();
    let mut r: Vec<char> = Vec::new();
    let mut i: usize = 0;
    while i < n
        invariant
            n == s@.len(),
            i <= n,
            r@ == s@.subrange(0, i as int),
        decreases n - i,
    {
        r.push(s.get_char(i));
        i = i + 1;
        proof {
            assert(r@ =~= s@.subrange(0, i as int));
        }
    }
    proof {
        assert(r@ =~= s@);
    }
    r
}

/// Relies on `String`'s `FromIterator<char>` impl: collecting characters
/// yields the string that holds exactly those characters in order.
#[verifier::external_body]
pub(crate) fn chars_to_string(v: &Vec<char>) -> (r: String)
    ensures
        r@ == v@,
{
    v.iter().collect()
}

pub open spec fn drop_leading_ws(s: Seq<char>) -> Seq<char>
    decreases s.len(),
{
    if s.len() > 0 && is_ws(s[0]) {
        drop_leading_ws(s.drop_first())
    } else {
        s
    }
}

pub open spec fn drop_trailing_ws(s: Seq<char>) -> Seq<char>
    decreases s.len(),
{
    if s.len() > 0 && is_ws(s.last()) {
        drop_trailing_ws(s.drop_last())
    } else {
        s
    }
}

/// What remains of a text once whitespace is stripped from both ends.
pub open spec fn spec_trim(s: Seq<char>) -> Seq<char> {
    drop_trailing_ws(drop_leading_ws(s))
}

/// Strips whitespace from both ends of a character sequence.
pub fn trim_chars(s: &Vec<char>) -> (r: Vec<char>)
    ensures
        r@ == spec_trim(s@),
{
    let n = s.len();
    proof {
        assert(s@.subrange(0, n as int) =~= s@);
    }
    let mut lo: usize = 0;
    while lo < n && is_whitespace_char(s[lo])
        invariant
            n == s@.len(),
            lo <= n,
            drop_leading_ws(s@) == drop_leading_ws(s@.subrange(lo as int, n as int)),
        decreases n - lo,
    {
        proof {
            assert(s@.subrange(lo as int, n as int).drop_first() =~= s@.subrange(
                lo as int + 1,
                n as int,
            ));
        }
        lo = lo + 1;
    }
    proof {
        assert(drop_leading_ws(s@) == s@.subrange(lo as int, n as int));
    }
    let mut hi: usize = n;
    while hi > lo && is_whitespace_char(s[hi - 1])
        invariant
            lo <= hi <= n,
            n == s@.len(),
            drop_leading_ws(s@) == s@.subrange(lo as int, n as int),
            drop_trailing_ws(s@.subrange(lo as int, n as int)) == drop_trailing_ws(
                s@.subrange(lo as int, hi as int),
            ),
        decreases hi,
    {
        proof {
            assert(s@.subrange(lo as int, hi as int).drop_last() =~= s@.subrange(
                lo as int,
                hi as int - 1,
            ));
        }
        hi = hi - 1;
    }
    proof {
        assert(spec_trim(s@) == s@.subrange(lo as int, hi as int));
    }
    let mut r: Vec<char> = Vec::new();
    let mut i: usize = lo;
    while i < hi
        invariant
            lo <= i <= hi <= n,
            n == s@.len(),
            r@ == s@.subrange(lo as int, i as int),
        decreases hi - i,
    {
        r.push(s[i]);
        i = i + 1;
        proof {
            assert(r@ =~= s@.subrange(lo as int, i as int));
        }
    }
    r
}

/// Replaces every non-overlapping, leftmost-first occurrence of `pat` in `s`
/// with the single character `rep`.
pub open spec fn spec_replace(s: Seq<char>, pat: Seq<char>, rep: char) -> Seq<char>
    decreases s.len(),
{
    if s.len() == 0 || pat.len() == 0 {
        s
    } else if pat.len() <= s.len() && s.subrange(0, pat.len() as int) == pat {
        seq![rep] + spec_replace(s.skip(pat.len() as int), pat, rep)
    } else {
        seq![s[0]] + spec_replace(s.drop_first(), pat, rep)
    }
}

/// Whether `pat` occurs in `s` starting at position `i`.
fn matches_at(s: &Vec<char>, pat: &Vec<char>, i: usize) -> (r: bool)
    requires
        i <= s@.len(),
    ensures
        r == (i as int + pat@.len() <= s@.len() && s@.subrange(i as int, i as int + pat@.len())
            =~= pat@),
{
    if pat.len() > s.len() - i {
        return false;
    }
    let mut j: usize = 0;
    while j < pat.len()
        invariant
            s@.len() <= usize::MAX,
            i as int + pat@.len() <= s@.len(),
            j <= pat@.len(),
            forall|m: int| 0 <= m < j ==> s@[i + m] == pat@[m],
        decreases pat@.len() - j,
    {
        if s[i + j] != pat[j] {
            proof {
                assert(s@.subrange(i as int, i as int + pat@.len())[j as int] == s@[i + j]);
            }
            return false;
        }
        j = j + 1;
    }
    proof {
        assert(s@.subrange(i as int, i as int + pat@.len()) =~= pat@);
    }
    true
}

/// Replaces every occurrence of `pat` with `rep`, scanning left to right.
fn replace_all(s: &Vec<char>, pat: &Vec<char>, rep: char) -> (r: Vec<char>)
    requires
        pat@.len() >= 1,
    ensures
        r@ == spec_replace(s@, pat@, rep),
{
    let mut out: Vec<char> = Vec::new();
    let mut i: usize = 0;
    proof {
        assert(s@.skip(0) =~= s@);
        assert(out@ + spec_replace(s@, pat@, rep) =~= spec_replace(s@, pat@, rep));
    }
    while i < s.len()
        invariant
            i <= s@.len(),
            pat@.len() >= 1,
            spec_replace(s@, pat@, rep) == out@ + spec_replace(s@.skip(i as int), pat@, rep),
        decreases s@.len() - i,
    {
        let ghost old_out = out@;
        let ghost suf = s@.skip(i as int);
        if matches_at(s, pat, i) {
            proof {
                assert(suf.subrange(0, pat@.len() as int) =~= s@.subrange(
                    i as int,
                    i as int + pat@.len(),
                ));
                assert(suf.skip(pat@.len() as int) =~= s@.skip(i as int + pat@.len()));
            }
            out.push(rep);
            i = i + pat.len();
            proof {
                assert(old_out + (seq![rep] + spec_replace(s@.skip(i as int), pat@, rep)) =~= out@
                    + spec_replace(s@.skip(i as int), pat@, rep));
            }
        } else {
            proof {
                assert(suf[0] == s@[i as int]);
                assert(suf.drop_first() =~= s@.skip(i as int + 1));
                if pat@.len() <= suf.len() {
                    assert(suf.subrange(0, pat@.len() as int) =~= s@.subrange(
                        i as int,
                        i as int + pat@.len(),
                    ));
                }
            }
            let c = s[i];
            out.push(c);
            i = i + 1;
            proof {
                assert(old_out + (seq![c] + spec_replace(s@.skip(i as int), pat@, rep)) =~= out@
                    + spec_replace(s@.skip(i as int), pat@, rep));
            }
        }
    }
    proof {
        assert(s@.skip(i as int).len() == 0);
        assert(out@ + spec_replace(s@.skip(i as int), pat@, rep) =~= out@);
    }
    out
}

/// The three HTML entity escapes undone before any splitting: `&lt;`, `&gt;`
/// and `&amp;`, replaced in that order.
pub open spec fn spec_unescape(s: Seq<char>) -> Seq<char> {
    spec_replace(spec_replace(spec_replace(s, "&lt;"@, '<'), "&gt;"@, '>'), "&amp;"@, '&')
}

/// Undoes the three HTML entity escapes in a command's text.
pub fn unescape_chars(s: &Vec<char>) -> (r: Vec<char>)
    ensures
        r@ == spec_unescape(s@),
{
    let mut lt: Vec<char> = Vec::new();
    lt.push('&');
    lt.push('l');
    lt.push('t');
    lt.push(';');
    let mut gt: Vec<char> = Vec::new();
    gt.push('&');
    gt.push('g');
    gt.push('t');
    gt.push(';');
    let mut amp: Vec<char> = Vec::new();
    amp.push('&');
    amp.push('a');
    amp.push('m');
    amp.push('p');
    amp.push(';');
    proof {
        reveal_strlit("&lt;");
        reveal_strlit("&gt;");
        reveal_strlit("&amp;");
        assert(lt@ =~= "&lt;"@);
        assert(gt@ =~= "&gt;"@);
        assert(amp@ =~= "&amp;"@);
    }
    let step1 = replace_all(s, &lt, '<');
    let step2 = replace_all(&step1, &gt, '>');
    replace_all(&step2, &amp, '&')
}

/// Whether the text begins inside an arrow delimiter: the maximal run of
/// `-`/`>` glyphs at its head holds at least one `>` — equivalently, a `>`
/// stands after zero or more `-` glyphs.
pub open spec fn starts_arrow(s: Seq<char>) -> bool
    decreases s.len(),
{
    if s.len() == 0 {
        false
    } else if s[0] == '>' {
        true
    } else if s[0] == '-' {
        starts_arrow(s.drop_first())
    } else {
        false
    }
}

/// The text with its leading `-` glyphs removed: the part of a delimiter run
/// that stands after its last scanned `>`.
pub open spec fn strip_dashes(s: Seq<char>) -> Seq<char>
    decreases s.len(),
{
    if s.len() > 0 && s[0] == '-' {
        strip_dashes(s.drop_first())
    } else {
        s
    }
}

/// The segments that splitting on arrow delimiters yields. One maximal run
/// of `-`/`>` glyphs holding at least one `>` is one delimiter occurrence,
/// however many `>` it holds; everything between two occurrences is one
/// segment. A run of `-` glyphs with no `>` is ordinary text.
pub open spec fn spec_segments(s: Seq<char>) -> Seq<Seq<char>>
    decreases s.len(),
{
    if s.len() == 0 {
        seq![Seq::<char>::empty()]
    } else if s[0] == '>' {
        let rest = spec_segments(s.drop_first());
        if starts_arrow(s.drop_first()) {
            // this `>` extends the delimiter run just behind it
            rest
        } else {
            // this `>` ends a run: the `-` glyphs behind it join the run too
            seq![Seq::<char>::empty()] + rest.update(0, strip_dashes(rest[0]))
        }
    } else if s[0] == '-' && starts_arrow(s) {
        spec_segments(s.drop_first())
    } else {
        let rest = spec_segments(s.drop_first());
        rest.update(0, seq![s[0]] + rest[0])
    }
}

pub proof fn lemma_segments_nonempty(s: Seq<char>)
    ensures
        spec_segments(s).len() >= 1,
    decreases s.len(),
{
    if s.len() > 0 {
        lemma_segments_nonempty(s.drop_first());
    }
}

/// The views of a vector of character vectors.
pub open spec fn views_of(v: Seq<Vec<char>>) -> Seq<Seq<char>> {
    Seq::new(v.len(), |j: int| v[j]@)
}

/// Splits a text on arrow delimiters, yielding the raw (untrimmed) segments.
pub fn split_arrow_chars(s: &Vec<char>) -> (r: Vec<Vec<char>>)
    ensures
        views_of(r@) == spec_segments(s@),
        r@.len() >= 1,
{
    let mut segs: Vec<Vec<char>> = Vec::new();
    segs.push(Vec::new());
    let mut sa: bool = false;
    let mut i: usize = s.len();
    proof {
        assert(s@.subrange(i as int, s@.len() as int) =~= Seq::<char>::empty());
        assert(views_of(segs@) =~= spec_segments(s@.subrange(i as int, s@.len() as int)));
    }
    while i > 0
        invariant
            i <= s@.len(),
            segs@.len() >= 1,
            views_of(segs@) == spec_segments(s@.subrange(i as int, s@.len() as int)),
            sa == starts_arrow(s@.subrange(i as int, s@.len() as int)),
        decreases i,
    {
        i = i - 1;
        let c = s[i];
        let ghost prev = s@.subrange(i as int + 1, s@.len() as int);
        let ghost suf = s@.subrange(i as int, s@.len() as int);
        proof {
            assert(suf[0] == s@[i as int]);
            assert(suf.drop_first() =~= prev);
        }
        if c == '>' {
            if sa {
                // this `>` extends the delimiter run just scanned
            } else {
                let ghost old_views = views_of(segs@);
                proof {
                    lemma_segments_nonempty(prev);
                    assert(old_views[0] == segs@[0]@);
                }
                let mut first = segs.remove(0);
                let ghost first0 = first@;
                while first.len() > 0 && first[0] == '-'
                    invariant
                        strip_dashes(first0) == strip_dashes(first@),
                    decreases first@.len(),
                {
                    let ghost before = first@;
                    let _dash = first.remove(0);
                    proof {
                        assert(first@ =~= before.drop_first());
                    }
                }
                proof {
                    assert(strip_dashes(first@) == first@);
                }
                segs.insert(0, first);
                segs.insert(0, Vec::new());
                proof {
                    assert(views_of(segs@) =~= seq![Seq::<char>::empty()] + old_views.update(
                        0,
                        strip_dashes(old_views[0]),
                    ));
                }
            }
            sa = true;
        } else if c == '-' && sa {
            // the `-` joins the arrow just scanned; the segments are unchanged
        } else {
            let ghost old_views = views_of(segs@);
            let mut first = segs.remove(0);
            first.insert(0, c);
            segs.insert(0, first);
            sa = false;
            proof {
                lemma_segments_nonempty(prev);
                assert(first@ =~= seq![c] + old_views[0]);
                assert(views_of(segs@) =~= old_views.update(0, seq![c] + old_views[0]));
            }
        }
    }
    proof {
        assert(s@.subrange(0, s@.len() as int) =~= s@);
    }
    segs
}

/// The raw segments of a command around arrow delimiters.
pub fn arrow_segments(s: &str) -> (r: Vec<String>)
    ensures
        r@.len() == spec_segments(s@).len(),
        forall|j: int| 0 <= j < r@.len() ==> r@[j]@ == spec_segments(s@)[j],
{
    let cs = str_chars(s);
    let segs = split_arrow_chars(&cs);
    let mut r: Vec<String> = Vec::new();
    let mut i: usize = 0;
    while i < segs.len()
        invariant
            i <= segs@.len(),
            views_of(segs@) == spec_segments(cs@),
            cs@ == s@,
            r@.len() == i,
            forall|j: int| 0 <= j < i ==> r@[j]@ == spec_segments(s@)[j],
        decreases segs@.len() - i,
    {
        let piece = chars_to_string(&segs[i]);
        proof {
            assert(views_of(segs@)[i as int] == segs@[i as int]@);
        }
        r.push(piece);
        i = i + 1;
    }
    r
}

/// A parsed remodel command: either a `from -> to` pair, a single argument,
/// or nothing at all.
#[derive(Clone, Debug)]
pub enum RequestData {
    One(String),
    Two(String, String),
    Empty,
}

/// Whether the text splits into exactly two segments that are both non-empty
/// once trimmed.
pub open spec fn two_way(t: Seq<char>) -> bool {
    let segs = spec_segments(t);
    segs.len() == 2 && spec_trim(segs[0]).len() > 0 && spec_trim(segs[1]).len() > 0
}

/// Splits a command on the arrow delimiter.
///
/// A two-way split is made only when the split yields exactly two segments
/// and both are non-empty once trimmed; otherwise the whole trimmed text is a
/// single argument, and a text that trims to nothing yields `Empty`.
pub fn split_with_arrow(s: &str) -> (r: RequestData)
    ensures
        two_way(s@) ==> (r matches RequestData::Two(f, t) && f@ == spec_trim(
            spec_segments(s@)[0],
        ) && t@ == spec_trim(spec_segments(s@)[1])),
        !two_way(s@) && spec_trim(s@).len() > 0 ==> (r matches RequestData::One(x) && x@
            == spec_trim(s@)),
        !two_way(s@) && spec_trim(s@).len() == 0 ==> r is Empty,
{
    let cs = str_chars(s);
    let segs = split_arrow_chars(&cs);
    if segs.len() == 2 {
        proof {
            assert(views_of(segs@)[0] == segs@[0]@);
            assert(views_of(segs@)[1] == segs@[1]@);
        }
        let f = trim_chars(&segs[0]);
        let t = trim_chars(&segs[1]);
        if f.len() > 0 && t.len() > 0 {
            return RequestData::Two(chars_to_string(&f), chars_to_string(&t));
        }
    }
    let w = trim_chars(&cs);
    if w.len() > 0 {
        RequestData::One(chars_to_string(&w))
    } else {
        RequestData::Empty
    }
}

/// A structured remodel request parsed out of a mention.
#[derive(Clone, Debug)]
pub struct Kaizo {
    pub screen_name: String,
    pub status_id: u64,
    pub from: String,
    pub to: String,
}

/// Whether `r` is the remodel request that parsing `command` (as sent by
/// `screen_name` in the post `status_id`) must yield: entities are unescaped
/// exactly once, then the text is split on the arrow delimiter; a one-way
/// command targets the default object.
pub open spec fn parse_result_ok(
    screen_name: Seq<char>,
    status_id: u64,
    command: Seq<char>,
    r: Option<Kaizo>,
) -> bool {
    let t = spec_unescape(command);
    if two_way(t) {
        r matches Some(k) && k.screen_name@ == screen_name && k.status_id == status_id && k.from@
            == spec_trim(spec_segments(t)[0]) && k.to@ == spec_trim(spec_segments(t)[1])
    } else if spec_trim(t).len() > 0 {
        r matches Some(k) && k.screen_name@ == screen_name && k.status_id == status_id && k.from@
            == spec_trim(t) && k.to@ == "시공"@
    } else {
        r is None
    }
}

impl Kaizo {
    /// Parses a remodel request out of a command's raw text.
    pub fn new(screen_name: String, status_id: u64, command: &str) -> (r: Option<Kaizo>)
        ensures
            parse_result_ok(screen_name@, status_id, command@, r),
    {
        let cs = str_chars(command);
        let unescaped = chars_to_string(&unescape_chars(&cs));
        match split_with_arrow(unescaped.as_str()) {
            RequestData::Two(from, to) => Some(
                Kaizo { screen_name, status_id, from, to },
            ),
            RequestData::One(text) => Some(
                Kaizo { screen_name, status_id, from: text, to: String::from_str("시공") },
            ),
            RequestData::Empty => None,
        }
    }
}

/// Law: a two-way split is made only when the arrow split yields exactly two
/// segments and both are non-empty once trimmed.
pub proof fn lemma_two_way_needs_nonempty_segments(t: Seq<char>)
    ensures
        two_way(t) ==> spec_segments(t).len() == 2 && spec_trim(spec_segments(t)[0]).len() > 0
            && spec_trim(spec_segments(t)[1]).len() > 0,
{
}

} // verus!
