//! Search-result highlights: which field of a result shows the match, and the snippet
//! around the match with the query marked.

use crate::search::SearchService;
use crate::text::{chars_of, spec_ascii_lowercase, string_of, sub_chars, to_lowercase, unicode_lowercase};
use vstd::prelude::*;
use vstd::string::StringSliceAdditionalSpecFns;
use vstd::utf8::{decode_utf8, encode_utf8, is_ascii_chars, is_char_boundary};

verus! {

broadcast use vstd::utf8::group_utf8_lib;

/// The first position from `i` on where the bytes `n` occur in `h`.
pub open spec fn spec_find_bytes_from(h: Seq<u8>, n: Seq<u8>, i: int) -> Option<int>
    decreases h.len() + 1 - i,
{
    if i < 0 || i + n.len() > h.len() {
        None
    } else if h.subrange(i, i + n.len()) == n {
        Some(i)
    } else {
        spec_find_bytes_from(h, n, i + 1)
    }
}

/// The first position where the bytes `n` occur in `h` (`str::find` on UTF-8 text).
pub open spec fn spec_find_bytes(h: Seq<u8>, n: Seq<u8>) -> Option<int> {
    spec_find_bytes_from(h, n, 0)
}

/// Each character of `s` followed by `r`.
pub open spec fn spec_each_then(s: Seq<char>, r: Seq<char>) -> Seq<char>
    decreases s.len(),
{
    if s.len() == 0 {
        Seq::empty()
    } else {
        seq![s[0]] + r + spec_each_then(s.drop_first(), r)
    }
}

/// `r` before every character of `s` and after the last (`str::replace` with an empty
/// pattern).
pub open spec fn spec_mark_everywhere(s: Seq<char>, r: Seq<char>) -> Seq<char> {
    r + spec_each_then(s, r)
}

/// `s` with every occurrence of `p`, from left to right and without overlaps, replaced by
/// `r` (`str::replace`).
pub open spec fn spec_replace(s: Seq<char>, p: Seq<char>, r: Seq<char>) -> Seq<char>
    decreases s.len(),
{
    if p.len() == 0 {
        spec_mark_everywhere(s, r)
    } else if s.len() == 0 {
        s
    } else if p.len() <= s.len() && s.take(p.len() as int) == p {
        r + spec_replace(s.skip(p.len() as int), p, r)
    } else {
        seq![s[0]] + spec_replace(s.drop_first(), p, r)
    }
}

/// Where the match of the query starts in the lower-case text, in bytes.
pub open spec fn spec_match_pos(text: Seq<char>, term: Seq<char>) -> Option<int> {
    spec_find_bytes(encode_utf8(unicode_lowercase(text)), encode_utf8(unicode_lowercase(term)))
}

/// The byte range of the text a snippet shows around a match at `pos`: thirty bytes
/// before it (from the start at the earliest) to thirty bytes after the query's length
/// (to the end at the latest).
pub open spec fn spec_snippet_range(text: Seq<char>, term: Seq<char>, pos: int) -> (int, int) {
    let len = encode_utf8(text).len() as int;
    let end = pos + encode_utf8(term).len() + 30;
    (if pos >= 30 { pos - 30 } else { 0 }, if end < len { end } else { len })
}

/// Whether a snippet can be cut from the text: the range is ordered and both ends fall
/// on character boundaries (and its end is a machine-size number).
pub open spec fn spec_snippet_ok(text: Seq<char>, term: Seq<char>) -> bool {
    match spec_match_pos(text, term) {
        Some(pos) => {
            let r = spec_snippet_range(text, term, pos);
            &&& pos + encode_utf8(term).len() + 30 <= usize::MAX
            &&& r.0 <= r.1
            &&& is_char_boundary(encode_utf8(text), r.0)
            &&& is_char_boundary(encode_utf8(text), r.1)
        },
        None => true,
    }
}

/// The highlight snippet of a text for a query: when the query occurs in the text (case
/// ignored), the text around the first match, with `...` where it was cut and the query
/// marked; otherwise the first hundred characters and `...`.
pub open spec fn spec_highlight_snippet(text: Seq<char>, term: Seq<char>) -> Seq<char> {
    match spec_match_pos(text, term) {
        Some(pos) => {
            let r = spec_snippet_range(text, term, pos);
            let bytes = encode_utf8(text);
            let cut = (if r.0 > 0 { "..."@ } else { Seq::<char>::empty() }) + decode_utf8(bytes.subrange(r.0, r.1)) + (
            if r.1 < bytes.len() { "..."@ } else { Seq::<char>::empty() });
            spec_replace(cut, term, "<mark>"@ + term + "</mark>"@)
        },
        None => text.take(if text.len() < 100 { text.len() as int } else { 100 }) + "..."@,
    }
}

/// Whether the query occurs in a text, case ignored (`contains` on lower-case texts).
pub open spec fn spec_contains_ignoring_case(text: Seq<char>, term: Seq<char>) -> bool {
    spec_match_pos(text, term) is Some
}

/// The field of a search result that shows the match.
#[derive(Clone, Copy, Debug, PartialEq, Eq, Structural)]
pub enum HighlightField {
    Title,
    Excerpt,
}

/// The field that shows the match: the title when it contains the query, else the
/// excerpt (or description) when it does; none otherwise.
pub open spec fn spec_highlight_field(title: Seq<char>, excerpt: Option<Seq<char>>, q: Seq<char>) -> Option<
    HighlightField,
> {
    if spec_contains_ignoring_case(title, q) {
        Some(HighlightField::Title)
    } else {
        match excerpt {
            Some(e) => if spec_contains_ignoring_case(e, q) {
                Some(HighlightField::Excerpt)
            } else {
                None
            },
            None => None,
        }
    }
}

/// The first position where the bytes `n` occur in `h`.
fn find_bytes(h: &[u8], n: &[u8]) -> (r: Option<usize>)
    ensures
        match r {
            Some(i) => spec_find_bytes(h@, n@) == Some(i as int),
            None => spec_find_bytes(h@, n@) is None,
        },
{
    let hl = h.len();
    let nl = n.len();
    if nl > hl {
        return None;
    }
    if nl == 0 {
        assert(h@.subrange(0, 0) =~= n@);
        return Some(0);
    }
    let last = hl - nl;
    let mut i: usize = 0;
    while i <= last
        invariant
            hl == h@.len(),
            nl == n@.len(),
            0 < nl <= hl,
            last == hl - nl,
            i <= last + 1,
            spec_find_bytes(h@, n@) == spec_find_bytes_from(h@, n@, i as int),
        decreases last + 1 - i,
    {
        let mut k: usize = 0;
        let mut same = true;
        while k < nl
            invariant
                hl == h@.len(),
                nl == n@.len(),
                i <= last,
                last == hl - nl,
                k <= nl,
                same == (forall|j: int| 0 <= j < k ==> h@[i + j] == n@[j]),
            decreases nl - k,
        {
            if h[i + k] != n[k] {
                same = false;
            }
            k = k + 1;
        }
        if same {
            assert(h@.subrange(i as int, i + n@.len()) =~= n@);
            return Some(i);
        } else {
            assert(h@.subrange(i as int, i + n@.len()) != n@) by {
                let j = choose|j: int| 0 <= j < n@.len() && h@[i + j] != n@[j];
                assert(h@.subrange(i as int, i + n@.len())[j] == h@[i + j]);
            }
        }
        i = i + 1;
    }
    None
}

/// Appends characters.
fn append_chars(out: &mut Vec<char>, r: &Vec<char>)
    ensures
        final(out)@ == old(out)@ + r@,
{
    let ghost start = out@;
    let mut j: usize = 0;
    while j < r.len()
        invariant
            j <= r@.len(),
            out@ == start + r@.take(j as int),
        decreases r.len() - j,
    {
        out.push(r[j]);
        j = j + 1;
        assert(out@ =~= start + r@.take(j as int));
    }
    assert(r@.take(r@.len() as int) =~= r@);
}

/// Whether `p` occurs in `s` at position `i`.
fn occurs_at(s: &Vec<char>, p: &Vec<char>, i: usize) -> (b: bool)
    requires
        i <= s@.len(),
    ensures
        b == (p@.len() <= s@.len() - i && s@.skip(i as int).take(p@.len() as int) == p@),
{
    let sl = s.len();
    if p.len() > sl - i {
        return false;
    }
    let mut k: usize = 0;
    while k < p.len()
        invariant
            sl == s@.len(),
            i + p@.len() <= s@.len(),
            k <= p@.len(),
            forall|j: int| 0 <= j < k ==> s@[i + j] == p@[j],
        decreases p.len() - k,
    {
        if s[i + k] != p[k] {
            assert(s@.skip(i as int).take(p@.len() as int)[k as int] != p@[k as int]);
            return false;
        }
        k = k + 1;
    }
    assert(s@.skip(i as int).take(p@.len() as int) =~= p@);
    true
}

/// `s` with every occurrence of `p` replaced by `r`.
pub(crate) fn replace_all(s: &Vec<char>, p: &Vec<char>, r: &Vec<char>) -> (out: Vec<char>)
    ensures
        out@ == spec_replace(s@, p@, r@),
{
    let mut out: Vec<char> = Vec::new();
    let mut i: usize = 0;
    assert(s@.skip(0) =~= s@);
    if p.len() == 0 {
        append_chars(&mut out, r);
        assert(out@ =~= r@);
        while i < s.len()
            invariant
                p@.len() == 0,
                i <= s@.len(),
                out@ + spec_each_then(s@.skip(i as int), r@) == spec_mark_everywhere(s@, r@),
            decreases s.len() - i,
        {
            let ghost before = out@;
            let ghost t = s@.skip(i as int);
            assert(t.drop_first() =~= s@.skip(i + 1));
            out.push(s[i]);
            append_chars(&mut out, r);
            assert(before + (seq![t[0]] + r@ + spec_each_then(t.drop_first(), r@)) =~= out@ + spec_each_then(
                s@.skip(i + 1),
                r@,
            ));
            i = i + 1;
        }
        assert(s@.skip(s@.len() as int) =~= Seq::<char>::empty());
        assert(out@ + Seq::<char>::empty() =~= out@);
        return out;
    }
    while i < s.len()
        invariant
            p@.len() > 0,
            i <= s@.len(),
            out@ + spec_replace(s@.skip(i as int), p@, r@) == spec_replace(s@, p@, r@),
        decreases s.len() - i,
    {
        let ghost before = out@;
        let ghost t = s@.skip(i as int);
        if occurs_at(s, p, i) {
            append_chars(&mut out, r);
            assert(t.skip(p@.len() as int) =~= s@.skip(i + p@.len()));
            assert(before + (r@ + spec_replace(t.skip(p@.len() as int), p@, r@)) =~= out@ + spec_replace(
                s@.skip(i + p@.len()),
                p@,
                r@,
            ));
            i = i + p.len();
        } else {
            out.push(s[i]);
            assert(t.drop_first() =~= s@.skip(i + 1));
            assert(before + (seq![t[0]] + spec_replace(t.drop_first(), p@, r@)) =~= out@ + spec_replace(
                s@.skip(i + 1),
                p@,
                r@,
            ));
            i = i + 1;
        }
    }
    assert(s@.skip(s@.len() as int) =~= Seq::<char>::empty());
    assert(out@ + Seq::<char>::empty() =~= out@);
    out
}

/// A match found from `i` on lies within the searched bytes.
proof fn lemma_find_bytes_from_bounds(h: Seq<u8>, n: Seq<u8>, i: int)
    ensures
        spec_find_bytes_from(h, n, i) matches Some(p) ==> i <= p && p + n.len() <= h.len(),
    decreases h.len() + 1 - i,
{
    if i < 0 || i + n.len() > h.len() {
    } else if h.subrange(i, i + n.len()) == n {
    } else {
        lemma_find_bytes_from_bounds(h, n, i + 1);
    }
}

/// The ASCII lower case of an ASCII text is ASCII, of the same length in characters and
/// in bytes.
proof fn lemma_ascii_lowercase(s: Seq<char>)
    requires
        is_ascii_chars(s),
    ensures
        is_ascii_chars(spec_ascii_lowercase(s)),
        spec_ascii_lowercase(s).len() == s.len(),
        encode_utf8(spec_ascii_lowercase(s)).len() == s.len(),
        encode_utf8(s).len() == s.len(),
{
    assert forall|i: int| 0 <= i < s.len() implies '\0' <= #[trigger] spec_ascii_lowercase(s)[i] <= '\u{7f}' by {
        assert('\0' <= s[i] <= '\u{7f}');
    }
}

/// Every byte offset of an ASCII text falls on a character boundary.
proof fn lemma_ascii_boundaries(s: Seq<char>)
    requires
        is_ascii_chars(s),
    ensures
        forall|i: int| 0 <= i <= s.len() ==> #[trigger] is_char_boundary(encode_utf8(s), i),
{
    let b = encode_utf8(s);
    assert forall|i: int| 0 <= i <= s.len() implies #[trigger] is_char_boundary(b, i) by {
        if i == 0 {
            assert(vstd::utf8::valid_utf8(b));
        } else if i < s.len() {
            assert(s[i] as u8 == b[i]);
            assert((s[i] as nat) < 128);
            assert(b[i] < 128);
            assert(!vstd::utf8::is_continuation_byte(b[i]));
        } else {
            assert(is_char_boundary(b, b.len() as int));
        }
    }
}

/// The byte position of the first match of the query in the text, both in lower case.
fn match_pos(text: &str, term: &str) -> (r: Option<usize>)
    ensures
        match r {
            Some(i) => spec_match_pos(text@, term@) == Some(i as int),
            None => spec_match_pos(text@, term@) is None,
        },
        is_ascii_chars(text@) ==> unicode_lowercase(text@) == spec_ascii_lowercase(text@),
        is_ascii_chars(term@) ==> unicode_lowercase(term@) == spec_ascii_lowercase(term@),
{
    let lower_text = to_lowercase(text);
    let lower_term = to_lowercase(term);
    find_bytes(lower_text.as_str().as_bytes(), lower_term.as_str().as_bytes())
}

impl SearchService {
    /// The highlight snippet of a text for a query, for texts
    /// and queries where the snippet can be cut.
    pub fn create_highlight_snippet(text: &str, search_term: &str) -> (r: String)
        requires
            spec_snippet_ok(text@, search_term@),
        ensures
            r@ == spec_highlight_snippet(text@, search_term@),
    {
        match match_pos(text, search_term) {
            Some(pos) => {
                let ghost bytes = encode_utf8(text@);
                let tlen = text.as_bytes().len();
                let ghost range = spec_snippet_range(text@, search_term@, pos as int);
                assert(tlen == bytes.len());
                assert(is_char_boundary(bytes, range.0) && is_char_boundary(bytes, range.1) && range.0 <= range.1);
                let start: usize = if pos >= 30 {
                    pos - 30
                } else {
                    0
                };
                let qlen = search_term.as_bytes().len();
                let end0: usize = pos + qlen + 30;
                let end: usize = if end0 < tlen {
                    end0
                } else {
                    tlen
                };
                assert(start == range.0 && end == range.1);
                let (_, tail) = text.split_at(start);
                proof {
                    let tb = bytes.subrange(start as int, bytes.len() as int);
                    assert(tail.spec_bytes() == tb);
                    vstd::utf8::valid_utf8_split(bytes, start as int);
                    if end < tlen {
                        vstd::utf8::is_char_boundary_iff_not_is_continuation_byte(bytes, end as int);
                        vstd::utf8::is_char_boundary_iff_not_is_continuation_byte(tb, end - start);
                        assert(tb[end - start] == bytes[end as int]);
                    } else {
                        vstd::utf8::is_char_boundary_start_end_of_seq(tb);
                    }
                }
                let (mid, _) = tail.split_at(end - start);
                proof {
                    assert(encode_utf8(mid@) =~= bytes.subrange(start as int, end as int));
                }
                let mut cut = String::new();
                if start > 0 {
                    cut.append("...");
                }
                cut.append(mid);
                if end < tlen {
                    cut.append("...");
                }
                let cs = chars_of(cut.as_str());
                let p = chars_of(search_term);
                let mut mark = String::from_str("<mark>");
                mark.append(search_term);
                mark.append("</mark>");
                let rc = chars_of(mark.as_str());
                let out = replace_all(&cs, &p, &rc);
                string_of(&out)
            },
            None => {
                let cs = chars_of(text);
                let k: usize = if cs.len() < 100 {
                    cs.len()
                } else {
                    100
                };
                let head = sub_chars(&cs, 0, k);
                let mut r = string_of(&head);
                r.append("...");
                r
            },
        }
    }

    /// The highlight snippet of a text for a query, or none for a text and query where
    /// `create_highlight_snippet` cannot cut it (a byte range that is out of order or not
    /// on character boundaries, where the slicing of the text fails).
    pub fn highlight_snippet(text: &str, search_term: &str) -> (r: Option<String>)
        ensures
            r is None <==> !spec_snippet_ok(text@, search_term@),
            r matches Some(s) ==> s@ == spec_highlight_snippet(text@, search_term@),
            is_ascii_chars(text@) && is_ascii_chars(search_term@) && text@.len() + 30 <= usize::MAX ==> r is Some,
    {
        match match_pos(text, search_term) {
            Some(pos) => {
                proof {
                    if is_ascii_chars(text@) && is_ascii_chars(search_term@) && text@.len() + 30 <= usize::MAX {
                        lemma_ascii_lowercase(text@);
                        lemma_ascii_lowercase(search_term@);
                        lemma_find_bytes_from_bounds(
                            encode_utf8(unicode_lowercase(text@)),
                            encode_utf8(unicode_lowercase(search_term@)),
                            0,
                        );
                        lemma_ascii_boundaries(text@);
                    }
                }
                let tlen = text.as_bytes().len();
                let qlen = search_term.as_bytes().len();
                let end0 = match pos.checked_add(qlen) {
                    Some(a) => a.checked_add(30),
                    None => None,
                };
                let end0: usize = match end0 {
                    Some(e) => e,
                    None => {
                        return None;
                    },
                };
                let start: usize = if pos >= 30 {
                    pos - 30
                } else {
                    0
                };
                let end: usize = if end0 < tlen {
                    end0
                } else {
                    tlen
                };
                if start <= end && text.is_char_boundary(start) && text.is_char_boundary(end) {
                    Some(Self::create_highlight_snippet(text, search_term))
                } else {
                    None
                }
            },
            None => Some(Self::create_highlight_snippet(text, search_term)),
        }
    }

    /// The field of a search result that shows the match of the query
    /// (in the advanced article search and the series search).
    pub fn highlight_field(title: &str, excerpt: Option<&str>, q: &str) -> (r: Option<HighlightField>)
        ensures
            r == spec_highlight_field(
                title@,
                match excerpt {
                    Some(e) => Some(e@),
                    None => None,
                },
                q@,
            ),
    {
        if match_pos(title, q).is_some() {
            return Some(HighlightField::Title);
        }
        match excerpt {
            Some(e) => {
                if match_pos(e, q).is_some() {
                    Some(HighlightField::Excerpt)
                } else {
                    None
                }
            },
            None => None,
        }
    }
}

} // verus!
