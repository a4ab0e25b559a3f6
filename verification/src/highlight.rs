//! Splitting text around the matches of a search term, so that matches
//! can be drawn highlighted.
use vstd::prelude::*;
use vstd::string::*;
use crate::text::{chars_of, string_of};

verus! {

/// A piece of text and whether it is a match of the search term.
#[derive(Debug)]
pub struct SearchSpan {
    pub text: String,
    pub highlighted: bool,
}

impl View for SearchSpan {
    type V = (Seq<char>, bool);

    open spec fn view(&self) -> (Seq<char>, bool) {
        (self.text@, self.highlighted)
    }
}

/// The view of a list of spans.
pub open spec fn spans_view(v: Seq<SearchSpan>) -> Seq<(Seq<char>, bool)> {
    Seq::new(v.len(), |i: int| v[i]@)
}

/// Whether `p` occurs in `t` at position `i`.
pub open spec fn matches_at(t: Seq<char>, p: Seq<char>, i: int) -> bool {
    0 <= i && i + p.len() <= t.len() && t.subrange(i, i + p.len()) == p
}

/// The start positions of the matches of `p` in `t` at or after `from`,
/// scanning left to right and resuming after each match (the matches that
/// `str::match_indices` reports). An empty term matches at every position,
/// the end of the text included.
pub open spec fn match_starts(t: Seq<char>, p: Seq<char>, from: int) -> Seq<int>
    decreases t.len() + 1 - from,
{
    if from < 0 || from > t.len() {
        Seq::empty()
    } else if p.len() == 0 {
        seq![from] + match_starts(t, p, from + 1)
    } else if from + p.len() > t.len() {
        Seq::empty()
    } else if matches_at(t, p, from) {
        seq![from] + match_starts(t, p, from + p.len())
    } else {
        match_starts(t, p, from + 1)
    }
}

/// The spans for the matches `ms`, given that the text before `last` is
/// already covered: before each match the unmatched text since `last`
/// (emitted, possibly empty, unless the match starts the text), then the
/// match itself.
pub open spec fn spans_between(t: Seq<char>, plen: int, ms: Seq<int>, last: int) -> Seq<(Seq<char>, bool)>
    decreases ms.len(),
{
    if ms.len() == 0 {
        Seq::empty()
    } else {
        let m = ms[0];
        let before: Seq<(Seq<char>, bool)> = if m > 0 { seq![(t.subrange(last, m), false)] } else { Seq::empty() };
        before + seq![(t.subrange(m, m + plen), true)] + spans_between(t, plen, ms.drop_first(), m + plen)
    }
}

/// Where the text after the matches `ms` begins.
pub open spec fn end_of_matches(plen: int, ms: Seq<int>, last: int) -> int {
    if ms.len() == 0 {
        last
    } else {
        ms.last() + plen
    }
}

/// The spans of `t` for the term `p`, the trailing text always included.
pub open spec fn search_spans(t: Seq<char>, p: Seq<char>) -> Seq<(Seq<char>, bool)> {
    let ms = match_starts(t, p, 0);
    let end = end_of_matches(p.len() as int, ms, 0);
    spans_between(t, p.len() as int, ms, 0) + seq![(t.subrange(end, t.len() as int), false)]
}

/// The spans of `t` for the term `p`, the trailing text only when it is
/// not empty.
pub open spec fn split_spans(t: Seq<char>, p: Seq<char>) -> Seq<(Seq<char>, bool)> {
    let ms = match_starts(t, p, 0);
    let end = end_of_matches(p.len() as int, ms, 0);
    if end < t.len() {
        spans_between(t, p.len() as int, ms, 0) + seq![(t.subrange(end, t.len() as int), false)]
    } else {
        spans_between(t, p.len() as int, ms, 0)
    }
}

/// Whether `p` occurs in `t` at position `i`.
fn match_here(t: &Vec<char>, p: &Vec<char>, i: usize) -> (r: bool)
    requires
        i + p@.len() <= t@.len(),
        t@.len() <= usize::MAX,
    ensures
        r == matches_at(t@, p@, i as int),
{
    let mut k: usize = 0;
    while k < p.len()
        invariant
            i + p@.len() <= t@.len(),
            t@.len() <= usize::MAX,
            k <= p@.len(),
            forall|j: int| 0 <= j < k ==> t@[i + j] == p@[j],
        decreases p@.len() - k,
    {
        if t[i + k] != p[k] {
            assert(t@.subrange(i as int, i + p@.len())[k as int] != p@[k as int]);
            return false;
        }
        k = k + 1;
    }
    assert(t@.subrange(i as int, i + p@.len()) =~= p@);
    true
}

/// Lists the spans for the matches of a non-empty term.
fn scan(t: &Vec<char>, p: &Vec<char>, out: &mut Vec<SearchSpan>) -> (last: usize)
    requires
        p@.len() > 0,
    ensures
        spans_view(final(out)@) == spans_view(old(out)@) + spans_between(t@, p@.len() as int, match_starts(t@, p@, 0), 0),
        last == end_of_matches(p@.len() as int, match_starts(t@, p@, 0), 0),
        last <= t@.len(),
{
    let ghost out0 = spans_view(out@);
    let plen = p.len();
    let n = t.len();
    let mut pos: usize = 0;
    let mut last: usize = 0;
    while plen <= n && pos <= n - plen
        invariant
            plen == p@.len() > 0,
            n == t@.len(),
            pos <= n,
            last <= pos,
            out0 + spans_between(t@, plen as int, match_starts(t@, p@, 0), 0)
                == spans_view(out@) + spans_between(t@, plen as int, match_starts(t@, p@, pos as int), last as int),
            end_of_matches(plen as int, match_starts(t@, p@, 0), 0)
                == end_of_matches(plen as int, match_starts(t@, p@, pos as int), last as int),
        decreases n + 1 - pos,
    {
        let ghost ms = match_starts(t@, p@, pos as int);
        let ghost rest = match_starts(t@, p@, pos + plen);
        let ghost before_out = spans_view(out@);
        let ghost before_last = last;
        if match_here(t, p, pos) {
            assert(ms =~= seq![pos as int] + rest);
            assert(ms.drop_first() =~= rest);
            assert(ms[0] == pos);
            if pos > 0 {
                out.push(SearchSpan { text: string_of(t, last, pos), highlighted: false });
            }
            out.push(SearchSpan { text: string_of(t, pos, pos + plen), highlighted: true });
            let ghost before: Seq<(Seq<char>, bool)> = if pos > 0 {
                seq![(t@.subrange(before_last as int, pos as int), false)]
            } else {
                Seq::empty()
            };
            assert(spans_view(out@) =~= before_out + before + seq![(t@.subrange(pos as int, pos + plen), true)]);
            assert(spans_between(t@, plen as int, ms, before_last as int)
                == before + seq![(t@.subrange(pos as int, pos + plen), true)] + spans_between(t@, plen as int, rest, pos + plen));
            assert(before_out + spans_between(t@, plen as int, ms, before_last as int)
                =~= spans_view(out@) + spans_between(t@, plen as int, rest, pos + plen));
            proof {
                if rest.len() > 0 {
                    assert(ms.last() == rest.last());
                }
            }
            last = pos + plen;
            pos = pos + plen;
        } else {
            assert(ms == match_starts(t@, p@, pos + 1));
            pos = pos + 1;
        }
    }
    assert(match_starts(t@, p@, pos as int) =~= Seq::<int>::empty());
    assert(spans_view(out@) + spans_between(t@, plen as int, Seq::<int>::empty(), last as int) =~= spans_view(out@));
    last
}

/// Lists the spans for the empty match at `pos`: the unmatched text since
/// `last` (unless at the very start), then the empty match.
fn empty_match_at(t: &Vec<char>, pos: usize, last: usize, out: &mut Vec<SearchSpan>)
    requires
        last <= pos <= t@.len(),
    ensures
        spans_view(final(out)@) == spans_view(old(out)@) + (if pos > 0 {
            seq![(t@.subrange(last as int, pos as int), false)]
        } else {
            Seq::<(Seq<char>, bool)>::empty()
        }) + seq![(t@.subrange(pos as int, pos as int), true)],
{
    let ghost before_out = spans_view(out@);
    if pos > 0 {
        out.push(SearchSpan { text: string_of(t, last, pos), highlighted: false });
    }
    out.push(SearchSpan { text: String::new(), highlighted: true });
    assert(t@.subrange(pos as int, pos as int) =~= Seq::<char>::empty());
    let ghost before: Seq<(Seq<char>, bool)> = if pos > 0 {
        seq![(t@.subrange(last as int, pos as int), false)]
    } else {
        Seq::empty()
    };
    assert(spans_view(out@) =~= before_out + before + seq![(t@.subrange(pos as int, pos as int), true)]);
}

/// Lists the spans for an empty term, which matches at every position.
fn scan_empty(t: &Vec<char>, p: &Vec<char>, out: &mut Vec<SearchSpan>) -> (last: usize)
    requires
        p@.len() == 0,
    ensures
        spans_view(final(out)@) == spans_view(old(out)@) + spans_between(t@, 0, match_starts(t@, p@, 0), 0),
        last == end_of_matches(0, match_starts(t@, p@, 0), 0),
        last <= t@.len(),
{
    let ghost out0 = spans_view(out@);
    let n = t.len();
    let mut pos: usize = 0;
    let mut last: usize = 0;
    while pos < n
        invariant
            p@.len() == 0,
            n == t@.len(),
            pos <= n,
            last <= pos,
            out0 + spans_between(t@, 0, match_starts(t@, p@, 0), 0)
                == spans_view(out@) + spans_between(t@, 0, match_starts(t@, p@, pos as int), last as int),
            end_of_matches(0, match_starts(t@, p@, 0), 0)
                == end_of_matches(0, match_starts(t@, p@, pos as int), last as int),
        decreases n - pos,
    {
        let ghost ms = match_starts(t@, p@, pos as int);
        let ghost rest = match_starts(t@, p@, pos + 1);
        let ghost before_out = spans_view(out@);
        let ghost before_last = last;
        assert(ms =~= seq![pos as int] + rest);
        assert(ms.drop_first() =~= rest);
        empty_match_at(t, pos, last, out);
        assert(before_out + spans_between(t@, 0, ms, before_last as int)
            =~= spans_view(out@) + spans_between(t@, 0, rest, pos as int));
        proof {
            if rest.len() > 0 {
                assert(ms.last() == rest.last());
            }
        }
        last = pos;
        pos = pos + 1;
    }
    let ghost ms = match_starts(t@, p@, pos as int);
    let ghost rest = match_starts(t@, p@, pos + 1);
    let ghost before_out = spans_view(out@);
    let ghost before_last = last;
    assert(rest =~= Seq::<int>::empty());
    assert(ms =~= seq![pos as int] + rest);
    assert(ms.drop_first() =~= rest);
    empty_match_at(t, pos, last, out);
    assert(before_out + spans_between(t@, 0, ms, before_last as int)
        =~= spans_view(out@) + spans_between(t@, 0, rest, pos as int));
    assert(spans_view(out@) + spans_between(t@, 0, Seq::<int>::empty(), pos as int) =~= spans_view(out@));
    pos
}

/// The spans of `text` around the matches of `search`: the unmatched text
/// before each match and the match itself, then the rest of the text; with
/// no search term, the whole text.
pub fn split_search(text: &str, search: Option<&str>) -> (r: Vec<SearchSpan>)
    ensures
        spans_view(r@) == match search {
            Some(s) => split_spans(text@, s@),
            None => seq![(text@, false)],
        },
{
    let t = chars_of(text);
    let mut out: Vec<SearchSpan> = Vec::new();
    match search {
        None => {
            out.push(SearchSpan { text: String::from_str(text), highlighted: false });
            assert(spans_view(out@) =~= seq![(text@, false)]);
        },
        Some(s) => {
            let p = chars_of(s);
            let last = if p.len() == 0 {
                scan_empty(&t, &p, &mut out)
            } else {
                scan(&t, &p, &mut out)
            };
            if last < t.len() {
                let rest = string_of(&t, last, t.len());
                out.push(SearchSpan { text: rest, highlighted: false });
            }
            assert(spans_view(out@) =~= split_spans(text@, s@));
        },
    }
    out
}

/// The text of a list of spans, joined.
pub open spec fn joined(s: Seq<(Seq<char>, bool)>) -> Seq<char>
    decreases s.len(),
{
    if s.len() == 0 {
        Seq::empty()
    } else {
        s[0].0 + joined(s.drop_first())
    }
}

proof fn lemma_joined_one(x: (Seq<char>, bool))
    ensures
        joined(seq![x]) == x.0,
{
    let e = Seq::<(Seq<char>, bool)>::empty();
    assert(joined(e) =~= Seq::<char>::empty());
    assert(seq![x].drop_first() =~= e);
    assert(x.0 + Seq::<char>::empty() =~= x.0);
}

proof fn lemma_joined_concat(a: Seq<(Seq<char>, bool)>, b: Seq<(Seq<char>, bool)>)
    ensures
        joined(a + b) == joined(a) + joined(b),
    decreases a.len(),
{
    if a.len() == 0 {
        assert(a + b =~= b);
        assert(joined(a) + joined(b) =~= joined(b));
    } else {
        assert((a + b).drop_first() =~= a.drop_first() + b);
        lemma_joined_concat(a.drop_first(), b);
        assert(joined(a + b) =~= joined(a) + joined(b));
    }
}

/// What `match_starts` lists: matches, in order, not overlapping, within
/// the text.
proof fn lemma_match_starts(t: Seq<char>, p: Seq<char>, from: int)
    requires
        0 <= from <= t.len(),
    ensures
        ({
            let ms = match_starts(t, p, from);
            &&& forall|k: int| 0 <= k < ms.len() ==> from <= #[trigger] ms[k] && matches_at(t, p, ms[k])
            &&& forall|k: int| 0 <= k < ms.len() - 1 ==> #[trigger] ms[k] + p.len() <= ms[k + 1]
        }),
    decreases t.len() + 1 - from,
{
    let ms = match_starts(t, p, from);
    if p.len() == 0 {
        assert(t.subrange(from, from) =~= p);
        if from < t.len() {
            lemma_match_starts(t, p, from + 1);
            let rest = match_starts(t, p, from + 1);
            assert(ms =~= seq![from] + rest);
            assert forall|k: int| 0 <= k < ms.len() - 1 implies #[trigger] ms[k] + p.len() <= ms[k + 1] by {
                if k > 0 {
                    assert(ms[k] == rest[k - 1]);
                    assert(ms[k + 1] == rest[k]);
                } else if rest.len() > 0 {
                    assert(ms[1] == rest[0]);
                }
            }
            assert forall|k: int| 0 <= k < ms.len() implies from <= #[trigger] ms[k] && matches_at(t, p, ms[k]) by {
                if k > 0 {
                    assert(ms[k] == rest[k - 1]);
                }
            }
        } else {
            assert(match_starts(t, p, from + 1) =~= Seq::<int>::empty());
            assert(ms =~= seq![from]);
        }
    } else if from + p.len() > t.len() {
        assert(ms =~= Seq::<int>::empty());
    } else if matches_at(t, p, from) {
        lemma_match_starts(t, p, from + p.len());
        let rest = match_starts(t, p, from + p.len());
        assert(ms =~= seq![from] + rest);
        assert forall|k: int| 0 <= k < ms.len() - 1 implies #[trigger] ms[k] + p.len() <= ms[k + 1] by {
            if k > 0 {
                assert(ms[k] == rest[k - 1]);
                assert(ms[k + 1] == rest[k]);
            } else {
                assert(ms[1] == rest[0]);
            }
        }
        assert forall|k: int| 0 <= k < ms.len() implies from <= #[trigger] ms[k] && matches_at(t, p, ms[k]) by {
            if k > 0 {
                assert(ms[k] == rest[k - 1]);
            }
        }
    } else {
        lemma_match_starts(t, p, from + 1);
        assert(ms == match_starts(t, p, from + 1));
    }
}

proof fn lemma_chain(ms: Seq<int>, plen: int, k: int)
    requires
        plen >= 0,
        1 <= k < ms.len(),
        forall|j: int| 0 <= j < ms.len() - 1 ==> #[trigger] ms[j] + plen <= ms[j + 1],
    ensures
        ms[0] + plen <= ms[k],
    decreases k,
{
    if k > 1 {
        lemma_chain(ms, plen, k - 1);
        assert(ms[k - 1] + plen <= ms[k]);
    } else {
        assert(ms[0] + plen <= ms[1]);
    }
}

/// The spans for well-ordered matches join to the text they cover, and
/// each highlighted span is a match.
proof fn lemma_spans_between(t: Seq<char>, p: Seq<char>, ms: Seq<int>, last: int)
    requires
        0 <= last,
        forall|k: int| 0 <= k < ms.len() ==> last <= #[trigger] ms[k] && matches_at(t, p, ms[k]),
        forall|k: int| 0 <= k < ms.len() - 1 ==> #[trigger] ms[k] + p.len() <= ms[k + 1],
        last <= t.len(),
    ensures
        joined(spans_between(t, p.len() as int, ms, last)) == t.subrange(last, end_of_matches(p.len() as int, ms, last)),
        forall|i: int| 0 <= i < spans_between(t, p.len() as int, ms, last).len()
            && (#[trigger] spans_between(t, p.len() as int, ms, last)[i]).1
            ==> spans_between(t, p.len() as int, ms, last)[i].0 == p,
    decreases ms.len(),
{
    let plen = p.len() as int;
    if ms.len() == 0 {
        assert(t.subrange(last, last) =~= Seq::<char>::empty());
    } else {
        let m = ms[0];
        let rest = ms.drop_first();
        assert(matches_at(t, p, m));
        assert forall|k: int| 0 <= k < rest.len() implies m + plen <= #[trigger] rest[k] && matches_at(t, p, rest[k]) by {
            assert(rest[k] == ms[k + 1]);
            lemma_chain(ms, plen, k + 1);
        }
        assert forall|k: int| 0 <= k < rest.len() - 1 implies #[trigger] rest[k] + p.len() <= rest[k + 1] by {
            assert(rest[k] == ms[k + 1] && rest[k + 1] == ms[k + 2]);
        }
        lemma_spans_between(t, p, rest, m + plen);
        let before: Seq<(Seq<char>, bool)> = if m > 0 { seq![(t.subrange(last, m), false)] } else { Seq::empty() };
        let hit = seq![(t.subrange(m, m + plen), true)];
        let tail = spans_between(t, plen, rest, m + plen);
        assert(spans_between(t, plen, ms, last) == before + hit + tail);
        lemma_joined_concat(before + hit, tail);
        lemma_joined_concat(before, hit);
        lemma_joined_one(hit[0]);
        assert(hit =~= seq![hit[0]]);
        assert(joined(hit) =~= t.subrange(m, m + plen));
        assert(joined(before) =~= t.subrange(last, m)) by {
            if m > 0 {
                lemma_joined_one(before[0]);
                assert(before =~= seq![before[0]]);
            } else {
                assert(last == 0);
                assert(t.subrange(last, m) =~= Seq::<char>::empty());
            }
        }
        let end = end_of_matches(plen, ms, last);
        assert(end == end_of_matches(plen, rest, m + plen)) by {
            if rest.len() > 0 {
                assert(ms.last() == rest.last());
            }
        }
        assert(end <= t.len()) by {
            if rest.len() > 0 {
                assert(matches_at(t, p, rest.last()));
            }
        }
        assert(t.subrange(last, m) + t.subrange(m, m + plen) + t.subrange(m + plen, end) =~= t.subrange(last, end));
        let all = spans_between(t, plen, ms, last);
        assert forall|i: int| 0 <= i < all.len() && (#[trigger] all[i]).1 implies all[i].0 == p by {
            if i < before.len() {
                assert(all[i] == before[i]);
            } else if i == before.len() {
                assert(all[i] == hit[0]);
            } else {
                assert(all[i] == tail[i - before.len() - 1]);
            }
        }
    }
}

/// The spans of a text for a search term join back to the text, and every
/// highlighted span is exactly the search term; both when the trailing
/// text is always listed and when it is listed only if not empty.
pub proof fn lemma_spans_cover_text(t: Seq<char>, p: Seq<char>)
    ensures
        joined(search_spans(t, p)) == t,
        joined(split_spans(t, p)) == t,
        forall|i: int| 0 <= i < search_spans(t, p).len() && (#[trigger] search_spans(t, p)[i]).1
            ==> search_spans(t, p)[i].0 == p,
        forall|i: int| 0 <= i < split_spans(t, p).len() && (#[trigger] split_spans(t, p)[i]).1
            ==> split_spans(t, p)[i].0 == p,
{
    let ms = match_starts(t, p, 0);
    let plen = p.len() as int;
    lemma_match_starts(t, p, 0);
    lemma_spans_between(t, p, ms, 0);
    let between = spans_between(t, plen, ms, 0);
    let end = end_of_matches(plen, ms, 0);
    assert(end <= t.len()) by {
        if ms.len() > 0 {
            assert(matches_at(t, p, ms.last()));
        }
    }
    let tail = seq![(t.subrange(end, t.len() as int), false)];
    lemma_joined_concat(between, tail);
    lemma_joined_one(tail[0]);
    assert(tail =~= seq![tail[0]]);
    assert(t.subrange(0, end) + t.subrange(end, t.len() as int) =~= t);
    assert forall|i: int| 0 <= i < search_spans(t, p).len() && (#[trigger] search_spans(t, p)[i]).1
        implies search_spans(t, p)[i].0 == p by {
        if i < between.len() {
            assert(search_spans(t, p)[i] == between[i]);
        }
    }
    if end >= t.len() {
        assert(t.subrange(0, end) =~= t);
    }
    assert forall|i: int| 0 <= i < split_spans(t, p).len() && (#[trigger] split_spans(t, p)[i]).1
        implies split_spans(t, p)[i].0 == p by {
        if i < between.len() {
            assert(split_spans(t, p)[i] == between[i]);
        }
    }
}

/// The number of highlighted spans.
pub open spec fn highlighted_count(s: Seq<(Seq<char>, bool)>) -> nat
    decreases s.len(),
{
    if s.len() == 0 {
        0
    } else {
        highlighted_count(s.drop_last()) + if s.last().1 { 1nat } else { 0nat }
    }
}

proof fn lemma_highlighted_count_concat(a: Seq<(Seq<char>, bool)>, b: Seq<(Seq<char>, bool)>)
    ensures
        highlighted_count(a + b) == highlighted_count(a) + highlighted_count(b),
    decreases b.len(),
{
    if b.len() == 0 {
        assert(a + b =~= a);
    } else {
        lemma_highlighted_count_concat(a, b.drop_last());
        assert((a + b).drop_last() =~= a + b.drop_last());
        assert((a + b).last() == b.last());
    }
}

proof fn lemma_highlighted_count_one(x: (Seq<char>, bool))
    ensures
        highlighted_count(seq![x]) == if x.1 { 1nat } else { 0nat },
{
    let s = seq![x];
    assert(s.drop_last() =~= Seq::<(Seq<char>, bool)>::empty());
    assert(highlighted_count(s.drop_last()) == 0);
    assert(s.last() == x);
}

proof fn lemma_spans_between_count(t: Seq<char>, plen: int, ms: Seq<int>, last: int)
    ensures
        highlighted_count(spans_between(t, plen, ms, last)) == ms.len(),
        spans_between(t, plen, ms, last).len() <= 2 * ms.len(),
    decreases ms.len(),
{
    if ms.len() > 0 {
        let m = ms[0];
        let before: Seq<(Seq<char>, bool)> = if m > 0 { seq![(t.subrange(last, m), false)] } else { Seq::empty() };
        let hit = seq![(t.subrange(m, m + plen), true)];
        let rest = spans_between(t, plen, ms.drop_first(), m + plen);
        lemma_spans_between_count(t, plen, ms.drop_first(), m + plen);
        lemma_highlighted_count_concat(before + hit, rest);
        lemma_highlighted_count_concat(before, hit);
        lemma_highlighted_count_one(hit[0]);
        assert(hit =~= seq![hit[0]]);
        if m > 0 {
            lemma_highlighted_count_one(before[0]);
            assert(before =~= seq![before[0]]);
        } else {
            assert(highlighted_count(before) == 0);
        }
    }
}

/// As many spans are highlighted as the term has matches in the text, and
/// there are at most twice as many spans as matches, plus one; both when
/// the trailing text is always listed and when it is listed only if not
/// empty.
pub proof fn lemma_spans_count(t: Seq<char>, p: Seq<char>)
    ensures
        highlighted_count(search_spans(t, p)) == match_starts(t, p, 0).len(),
        search_spans(t, p).len() <= 2 * match_starts(t, p, 0).len() + 1,
        highlighted_count(split_spans(t, p)) == match_starts(t, p, 0).len(),
        split_spans(t, p).len() <= 2 * match_starts(t, p, 0).len() + 1,
{
    let ms = match_starts(t, p, 0);
    let plen = p.len() as int;
    let between = spans_between(t, plen, ms, 0);
    let end = end_of_matches(plen, ms, 0);
    let tail = seq![(t.subrange(end, t.len() as int), false)];
    lemma_spans_between_count(t, plen, ms, 0);
    lemma_highlighted_count_concat(between, tail);
    lemma_highlighted_count_one(tail[0]);
    assert(tail =~= seq![tail[0]]);
}

/// The spans of one text for one optional search term, listed in the
/// order a reader draws them.
pub struct SearchSpanIter<'a, 'b> {
    text: &'a str,
    search: Option<&'b str>,
}

impl<'a, 'b> SearchSpanIter<'a, 'b> {
    /// Spans of `text` for `search`.
    pub fn new(text: &'a str, search: Option<&'b str>) -> (r: Self)
        ensures
            r.text() == text@,
            r.search() == match search { Some(s) => Some(s@), None => None },
    {
        SearchSpanIter { text, search }
    }

    /// The text being split.
    pub closed spec fn text(&self) -> Seq<char> {
        self.text@
    }

    /// The search term, if any.
    pub closed spec fn search(&self) -> Option<Seq<char>> {
        match self.search {
            Some(s) => Some(s@),
            None => None,
        }
    }

    /// All spans: around each match the unmatched text before it (unless
    /// the match starts the text) and the match, then the rest of the text,
    /// even when empty; with no search term, the whole text.
    pub fn spans(&self) -> (r: Vec<SearchSpan>)
        ensures
            spans_view(r@) == match self.search() {
                Some(s) => search_spans(self.text(), s),
                None => seq![(self.text(), false)],
            },
    {
        let t = chars_of(self.text);
        let mut out: Vec<SearchSpan> = Vec::new();
        match self.search {
            None => {
                out.push(SearchSpan { text: String::from_str(self.text), highlighted: false });
                assert(spans_view(out@) =~= seq![(self.text@, false)]);
            },
            Some(s) => {
                let p = chars_of(s);
                let last = if p.len() == 0 {
                    scan_empty(&t, &p, &mut out)
                } else {
                    scan(&t, &p, &mut out)
                };
                let rest = string_of(&t, last, t.len());
                out.push(SearchSpan { text: rest, highlighted: false });
                assert(spans_view(out@) =~= search_spans(self.text@, s@));
            },
        }
        out
    }
}

} // verus!
