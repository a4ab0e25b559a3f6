//! Styled runs of a comment body for the desktop comment view: text with
//! its search matches highlighted, bold and italic text one level deep,
//! code in a monospace font, links, and paragraph breaks; in one-line mode
//! the body stops at its first paragraph break.
use vstd::prelude::*;
use vstd::string::*;
use crate::highlight::{search_spans, spans_view, split_search, split_spans, SearchSpan, SearchSpanIter};
use crate::rich_text::{href_index, Anchor, Element};
use crate::text::{owned, push_char};

verus! {

/// A run of text with its style.
#[derive(Debug)]
pub struct RichSpan {
    pub text: String,
    pub bold: bool,
    pub italic: bool,
    pub mono: bool,
    /// The link target when the run is a link.
    pub link: Option<String>,
    /// Whether the run is a search match.
    pub highlighted: bool,
}

/// The view of a run.
pub struct RunView {
    pub text: Seq<char>,
    pub bold: bool,
    pub italic: bool,
    pub mono: bool,
    pub link: Option<Seq<char>>,
    pub highlighted: bool,
}

impl View for RichSpan {
    type V = RunView;

    open spec fn view(&self) -> RunView {
        RunView {
            text: self.text@,
            bold: self.bold,
            italic: self.italic,
            mono: self.mono,
            link: match self.link {
                Some(l) => Some(l@),
                None => None,
            },
            highlighted: self.highlighted,
        }
    }
}

/// The view of a list of runs.
pub open spec fn runs_view(v: Seq<RichSpan>) -> Seq<RunView> {
    Seq::new(v.len(), |i: int| v[i]@)
}

/// Plain runs of the spans, in one style.
pub open spec fn styled(spans: Seq<(Seq<char>, bool)>, bold: bool, italic: bool, mono: bool) -> Seq<RunView> {
    Seq::new(
        spans.len(),
        |i: int| RunView { text: spans[i].0, bold: bold, italic: italic, mono: mono, link: None, highlighted: spans[i].1 },
    )
}

/// One run of `text` in a style, no link, not highlighted.
pub open spec fn plain_run(text: Seq<char>, bold: bool, italic: bool) -> RunView {
    RunView { text: text, bold: bold, italic: italic, mono: false, link: None, highlighted: false }
}

/// The runs of a text: around each search match, with the text after the
/// last match always listed.
pub open spec fn text_runs(t: Seq<char>, search: Option<Seq<char>>, bold: bool, italic: bool) -> Seq<RunView> {
    styled(
        match search {
            Some(s) => search_spans(t, s),
            None => seq![(t, false)],
        },
        bold,
        italic,
        false,
    )
}

/// The runs of code: monospace, around each search match, with the text
/// after the last match listed only when it is not empty.
pub open spec fn code_runs(t: Seq<char>, search: Option<Seq<char>>) -> Seq<RunView> {
    styled(
        match search {
            Some(s) => split_spans(t, s),
            None => seq![(t, false)],
        },
        false,
        false,
        true,
    )
}

/// The run of a link: its text, or its target when it has none; nothing
/// when the anchor has no target.
pub open spec fn anchor_runs(a: Anchor) -> Seq<RunView> {
    match href_index(a.attributes@) {
        Some(i) => {
            let url = a.attributes@[i].value@;
            seq![RunView {
                text: if a.children@.len() == 0 { url } else { a.children@ },
                bold: false,
                italic: false,
                mono: false,
                link: Some(url),
                highlighted: false,
            }]
        },
        None => Seq::empty(),
    }
}

/// The text of a paragraph break.
pub open spec fn paragraph_text() -> Seq<char> {
    seq!['\n', '\n']
}

/// The runs of an element two levels deep, bold and italic.
pub open spec fn inner_runs(e: Element, search: Option<Seq<char>>) -> Seq<RunView> {
    match e {
        Element::Text(t) => text_runs(t@, search, true, true),
        Element::Link(a) => anchor_runs(a),
        Element::Escaped(c) => seq![plain_run(seq![c], true, true)],
        Element::Paragraph => seq![plain_run(paragraph_text(), false, false)],
        _ => Seq::empty(),
    }
}

/// The runs of elements two levels deep.
pub open spec fn inner_list(es: Seq<Element>, search: Option<Seq<char>>) -> Seq<RunView>
    decreases es.len(),
{
    if es.len() == 0 {
        Seq::empty()
    } else {
        inner_runs(es[0], search) + inner_list(es.drop_first(), search)
    }
}

/// The runs of an element one level deep, inside bold text when `bold`
/// and italic text otherwise: the other style nests one level more.
pub open spec fn nested_runs(e: Element, search: Option<Seq<char>>, bold: bool) -> Seq<RunView> {
    match e {
        Element::Text(t) => text_runs(t@, search, bold, !bold),
        Element::Link(a) => anchor_runs(a),
        Element::Escaped(c) => seq![plain_run(seq![c], bold, !bold)],
        Element::Paragraph => seq![plain_run(paragraph_text(), false, false)],
        Element::Bold(children) => if bold { Seq::empty() } else { inner_list(children@, search) },
        Element::Italic(children) => if bold { inner_list(children@, search) } else { Seq::empty() },
        _ => Seq::empty(),
    }
}

/// The runs of elements one level deep.
pub open spec fn nested_list(es: Seq<Element>, search: Option<Seq<char>>, bold: bool) -> Seq<RunView>
    decreases es.len(),
{
    if es.len() == 0 {
        Seq::empty()
    } else {
        nested_runs(es[0], search, bold) + nested_list(es.drop_first(), search, bold)
    }
}

/// The runs of a top level element.
pub open spec fn top_runs(e: Element, search: Option<Seq<char>>) -> Seq<RunView> {
    match e {
        Element::Text(t) => text_runs(t@, search, false, false),
        Element::Link(a) => anchor_runs(a),
        Element::Escaped(c) => seq![plain_run(seq![c], false, false)],
        Element::Paragraph => seq![plain_run(paragraph_text(), false, false)],
        Element::Code(t) => code_runs(t@, search),
        Element::Italic(children) => nested_list(children@, search, false),
        Element::Bold(children) => nested_list(children@, search, true),
    }
}

/// The runs of a comment body; in one-line mode, up to its first
/// paragraph break.
pub open spec fn body_runs(es: Seq<Element>, search: Option<Seq<char>>, oneline: bool) -> Seq<RunView>
    decreases es.len(),
{
    if es.len() == 0 {
        Seq::empty()
    } else if oneline && es[0] is Paragraph {
        Seq::empty()
    } else {
        top_runs(es[0], search) + body_runs(es.drop_first(), search, oneline)
    }
}

/// The view of an optional search term.
pub open spec fn search_view(search: Option<&str>) -> Option<Seq<char>> {
    match search {
        Some(s) => Some(s@),
        None => None,
    }
}

/// Appends the spans as runs in one style.
fn push_styled(out: &mut Vec<RichSpan>, spans: Vec<SearchSpan>, bold: bool, italic: bool, mono: bool)
    ensures
        runs_view(final(out)@) == runs_view(old(out)@) + styled(spans_view(spans@), bold, italic, mono),
{
    let ghost sv = spans_view(spans@);
    let ghost start = runs_view(out@);
    let mut i: usize = 0;
    let n = spans.len();
    let mut spans = spans;
    let mut rev: Vec<SearchSpan> = Vec::new();
    while spans.len() > 0
        invariant
            n == sv.len(),
            spans@.len() + rev@.len() == n,
            forall|k: int| 0 <= k < spans@.len() ==> spans@[k]@ == sv[k],
            forall|k: int| 0 <= k < rev@.len() ==> rev@[k]@ == sv[n - 1 - k],
            runs_view(out@) == start,
        decreases spans@.len(),
    {
        let s = spans.pop().unwrap();
        rev.push(s);
    }
    while i < n
        invariant
            i <= n,
            n == sv.len(),
            rev@.len() == n - i,
            forall|k: int| 0 <= k < rev@.len() ==> rev@[k]@ == sv[n - 1 - k],
            runs_view(out@) == start + styled(sv.take(i as int), bold, italic, mono),
        decreases n - i,
    {
        let s = rev.pop().unwrap();
        let ghost before = runs_view(out@);
        out.push(RichSpan { text: s.text, bold, italic, mono, link: None, highlighted: s.highlighted });
        proof {
            assert(runs_view(out@) =~= before.push(RunView {
                text: sv[i as int].0,
                bold: bold,
                italic: italic,
                mono: mono,
                link: None,
                highlighted: sv[i as int].1,
            }));
            assert(styled(sv.take(i + 1), bold, italic, mono) =~= styled(sv.take(i as int), bold, italic, mono).push(RunView {
                text: sv[i as int].0,
                bold: bold,
                italic: italic,
                mono: mono,
                link: None,
                highlighted: sv[i as int].1,
            }));
        }
        i = i + 1;
    }
    assert(sv.take(n as int) =~= sv);
}

/// Appends one run in a style, no link, not highlighted.
fn push_plain(out: &mut Vec<RichSpan>, text: String, bold: bool, italic: bool)
    ensures
        runs_view(final(out)@) == runs_view(old(out)@).push(plain_run(text@, bold, italic)),
{
    let ghost before = runs_view(out@);
    out.push(RichSpan { text, bold, italic, mono: false, link: None, highlighted: false });
    assert(runs_view(out@) =~= before.push(plain_run(text@, bold, italic)));
}

/// The text of one character.
fn char_text(c: char) -> (r: String)
    ensures
        r@ == seq![c],
{
    let mut s = String::new();
    push_char(&mut s, c);
    s
}

/// The text of a paragraph break.
fn paragraph() -> (r: String)
    ensures
        r@ == paragraph_text(),
{
    let mut s = String::new();
    push_char(&mut s, '\n');
    push_char(&mut s, '\n');
    s
}

/// Appends the runs of a text.
fn push_text(out: &mut Vec<RichSpan>, t: &str, search: Option<&str>, bold: bool, italic: bool)
    ensures
        runs_view(final(out)@) == runs_view(old(out)@) + text_runs(t@, search_view(search), bold, italic),
{
    let spans = SearchSpanIter::new(t, search).spans();
    push_styled(out, spans, bold, italic, false);
}

/// Appends the run of a link.
fn push_anchor(out: &mut Vec<RichSpan>, a: &Anchor)
    ensures
        runs_view(final(out)@) == runs_view(old(out)@) + anchor_runs(*a),
{
    match crate::rich_text::find_href(&a.attributes) {
        Some(i) => {
            let url = owned(a.attributes[i].value.as_str());
            let text = if a.children.as_str().is_empty() { owned(url.as_str()) } else { owned(a.children.as_str()) };
            let ghost before = runs_view(out@);
            let run = RichSpan { text, bold: false, italic: false, mono: false, link: Some(url), highlighted: false };
            let ghost rv = run@;
            out.push(run);
            assert(runs_view(out@) =~= before + seq![rv]);
        },
        None => {
            assert(runs_view(out@) + anchor_runs(*a) =~= runs_view(out@));
        },
    }
}

/// Appends the runs of elements two levels deep.
fn push_inner(out: &mut Vec<RichSpan>, es: &Vec<Element>, search: Option<&str>)
    ensures
        runs_view(final(out)@) == runs_view(old(out)@) + inner_list(es@, search_view(search)),
{
    let ghost sv = search_view(search);
    let ghost start = runs_view(out@);
    let mut i: usize = 0;
    assert(es@.skip(0) =~= es@);
    while i < es.len()
        invariant
            i <= es@.len(),
            sv == search_view(search),
            start + inner_list(es@, sv) == runs_view(out@) + inner_list(es@.skip(i as int), sv),
        decreases es@.len() - i,
    {
        let ghost rest = es@.skip(i as int);
        assert(rest[0] == es@[i as int]);
        assert(rest.drop_first() =~= es@.skip(i + 1));
        let ghost before = runs_view(out@);
        match &es[i] {
            Element::Text(t) => push_text(out, t.as_str(), search, true, true),
            Element::Link(a) => push_anchor(out, a),
            Element::Escaped(c) => push_plain(out, char_text(*c), true, true),
            Element::Paragraph => push_plain(out, paragraph(), false, false),
            _ => {},
        }
        assert(runs_view(out@) =~= before + inner_runs(es@[i as int], sv));
        assert(before + inner_list(rest, sv) =~= runs_view(out@) + inner_list(es@.skip(i + 1), sv));
        i = i + 1;
    }
    assert(es@.skip(es@.len() as int) =~= Seq::<Element>::empty());
    assert(runs_view(out@) + Seq::<RunView>::empty() =~= runs_view(out@));
}

/// Appends the runs of elements one level deep, inside bold text when
/// `bold` and italic text otherwise.
fn push_nested(out: &mut Vec<RichSpan>, es: &Vec<Element>, search: Option<&str>, bold: bool)
    ensures
        runs_view(final(out)@) == runs_view(old(out)@) + nested_list(es@, search_view(search), bold),
{
    let ghost sv = search_view(search);
    let ghost start = runs_view(out@);
    let mut i: usize = 0;
    assert(es@.skip(0) =~= es@);
    while i < es.len()
        invariant
            i <= es@.len(),
            sv == search_view(search),
            start + nested_list(es@, sv, bold) == runs_view(out@) + nested_list(es@.skip(i as int), sv, bold),
        decreases es@.len() - i,
    {
        let ghost rest = es@.skip(i as int);
        assert(rest[0] == es@[i as int]);
        assert(rest.drop_first() =~= es@.skip(i + 1));
        let ghost before = runs_view(out@);
        match &es[i] {
            Element::Text(t) => push_text(out, t.as_str(), search, bold, !bold),
            Element::Link(a) => push_anchor(out, a),
            Element::Escaped(c) => push_plain(out, char_text(*c), bold, !bold),
            Element::Paragraph => push_plain(out, paragraph(), false, false),
            Element::Bold(children) => {
                if !bold {
                    push_inner(out, children, search);
                }
            },
            Element::Italic(children) => {
                if bold {
                    push_inner(out, children, search);
                }
            },
            _ => {},
        }
        assert(runs_view(out@) =~= before + nested_runs(es@[i as int], sv, bold));
        assert(before + nested_list(rest, sv, bold) =~= runs_view(out@) + nested_list(es@.skip(i + 1), sv, bold));
        i = i + 1;
    }
    assert(es@.skip(es@.len() as int) =~= Seq::<Element>::empty());
    assert(runs_view(out@) + Seq::<RunView>::empty() =~= runs_view(out@));
}

/// The styled runs of a comment body, with the matches of `search`
/// highlighted; in one-line mode the body stops at its first paragraph
/// break.
pub fn render_rich_text(elements: &Vec<Element>, search: Option<&str>, oneline: bool) -> (r: Vec<RichSpan>)
    ensures
        runs_view(r@) == body_runs(elements@, search_view(search), oneline),
{
    let ghost sv = search_view(search);
    let mut out: Vec<RichSpan> = Vec::new();
    let mut i: usize = 0;
    assert(runs_view(out@) =~= Seq::<RunView>::empty());
    assert(elements@.skip(0) =~= elements@);
    while i < elements.len()
        invariant
            i <= elements@.len(),
            sv == search_view(search),
            body_runs(elements@, sv, oneline) == runs_view(out@) + body_runs(elements@.skip(i as int), sv, oneline),
        decreases elements@.len() - i,
    {
        let ghost rest = elements@.skip(i as int);
        assert(rest[0] == elements@[i as int]);
        assert(rest.drop_first() =~= elements@.skip(i + 1));
        let ghost before = runs_view(out@);
        match &elements[i] {
            Element::Paragraph => {
                if oneline {
                    assert(runs_view(out@) + Seq::<RunView>::empty() =~= runs_view(out@));
                    return out;
                }
                push_plain(&mut out, paragraph(), false, false);
            },
            Element::Text(t) => push_text(&mut out, t.as_str(), search, false, false),
            Element::Link(a) => push_anchor(&mut out, a),
            Element::Escaped(c) => push_plain(&mut out, char_text(*c), false, false),
            Element::Code(t) => {
                let spans = split_search(t.as_str(), search);
                push_styled(&mut out, spans, false, false, true);
            },
            Element::Italic(children) => push_nested(&mut out, children, search, false),
            Element::Bold(children) => push_nested(&mut out, children, search, true),
        }
        assert(runs_view(out@) =~= before + top_runs(elements@[i as int], sv));
        assert(before + body_runs(rest, sv, oneline) =~= runs_view(out@) + body_runs(elements@.skip(i + 1), sv, oneline));
        i = i + 1;
    }
    assert(elements@.skip(elements@.len() as int) =~= Seq::<Element>::empty());
    assert(runs_view(out@) + Seq::<RunView>::empty() =~= runs_view(out@));
    out
}

/// The styles a text buffer tags ranges of its text with.
#[derive(Debug, Copy, Clone, PartialEq, Eq, Structural)]
pub enum TextTag {
    Italic,
    Bold,
    Code,
    Link,
}

/// A comment body as a text buffer: its text, and the ranges of it, in
/// characters, that each style applies to.
#[derive(Debug)]
pub struct TaggedText {
    pub text: String,
    pub tags: Vec<(TextTag, usize, usize)>,
}

/// The text and the tagged ranges collected so far.
pub type TaggedView = (Seq<char>, Seq<(TextTag, usize, usize)>);

impl View for TaggedText {
    type V = TaggedView;

    open spec fn view(&self) -> TaggedView {
        (self.text@, self.tags@)
    }
}

/// The text an element nested in bold or italic text adds: text, escaped
/// characters and paragraph breaks; other elements add nothing.
pub open spec fn nested_text(e: Element) -> Seq<char> {
    match e {
        Element::Text(t) => t@,
        Element::Escaped(c) => seq![c],
        Element::Paragraph => paragraph_text(),
        _ => Seq::empty(),
    }
}

/// The text of the elements nested in bold or italic text.
pub open spec fn nested_texts(es: Seq<Element>) -> Seq<char>
    decreases es.len(),
{
    if es.len() == 0 {
        Seq::empty()
    } else {
        nested_text(es[0]) + nested_texts(es.drop_first())
    }
}

/// `acc` with `added` appended and tagged with `tag`.
pub open spec fn tagged(acc: TaggedView, added: Seq<char>, tag: TextTag) -> TaggedView {
    (acc.0 + added, acc.1.push((tag, acc.0.len() as usize, (acc.0.len() + added.len()) as usize)))
}

/// What one element adds to the buffer.
pub open spec fn buffer_step(acc: TaggedView, e: Element) -> TaggedView {
    match e {
        Element::Text(t) => (acc.0 + t@, acc.1),
        Element::Paragraph => (acc.0 + paragraph_text(), acc.1),
        Element::Escaped(c) => (acc.0.push(c), acc.1),
        Element::Code(t) => tagged(acc, t@, TextTag::Code),
        Element::Link(a) => tagged(acc, a.children@, TextTag::Link),
        Element::Italic(children) => tagged(acc, nested_texts(children@), TextTag::Italic),
        Element::Bold(children) => tagged(acc, nested_texts(children@), TextTag::Bold),
    }
}

/// The buffer after the elements, in order.
pub open spec fn buffer_all(es: Seq<Element>, acc: TaggedView) -> TaggedView
    decreases es.len(),
{
    if es.len() == 0 {
        acc
    } else {
        buffer_all(es.drop_first(), buffer_step(acc, es[0]))
    }
}

/// Appends the text of elements nested in bold or italic text.
fn push_nested_text(text: &mut String, es: &Vec<Element>)
    ensures
        final(text)@ == old(text)@ + nested_texts(es@),
{
    let ghost start = text@;
    let mut i: usize = 0;
    assert(es@.skip(0) =~= es@);
    while i < es.len()
        invariant
            i <= es@.len(),
            start + nested_texts(es@) == text@ + nested_texts(es@.skip(i as int)),
        decreases es@.len() - i,
    {
        let ghost rest = es@.skip(i as int);
        assert(rest[0] == es@[i as int]);
        assert(rest.drop_first() =~= es@.skip(i + 1));
        let ghost before = text@;
        match &es[i] {
            Element::Text(t) => text.append(t.as_str()),
            Element::Escaped(c) => push_char(text, *c),
            Element::Paragraph => {
                push_char(text, '\n');
                push_char(text, '\n');
            },
            _ => {},
        }
        assert(text@ =~= before + nested_text(es@[i as int]));
        assert(before + nested_texts(rest) =~= text@ + nested_texts(es@.skip(i + 1)));
        i = i + 1;
    }
    assert(es@.skip(es@.len() as int) =~= Seq::<Element>::empty());
    assert(text@ + Seq::<char>::empty() =~= text@);
}

/// The text buffer of a comment body: its text, with code, links, italic
/// and bold text tagged by their character ranges.
pub fn create_text_view(elements: &Vec<Element>) -> (r: TaggedText)
    ensures
        r@ == buffer_all(elements@, (Seq::empty(), Seq::empty())),
{
    let mut text = String::new();
    let mut tags: Vec<(TextTag, usize, usize)> = Vec::new();
    let mut i: usize = 0;
    assert(elements@.skip(0) =~= elements@);
    while i < elements.len()
        invariant
            i <= elements@.len(),
            buffer_all(elements@, (Seq::empty(), Seq::empty())) == buffer_all(elements@.skip(i as int), (text@, tags@)),
        decreases elements@.len() - i,
    {
        let ghost rest = elements@.skip(i as int);
        assert(rest[0] == elements@[i as int]);
        assert(rest.drop_first() =~= elements@.skip(i + 1));
        let ghost acc = (text@, tags@);
        let start = text.as_str().unicode_len();
        match &elements[i] {
            Element::Text(t) => text.append(t.as_str()),
            Element::Paragraph => {
                push_char(&mut text, '\n');
                push_char(&mut text, '\n');
            },
            Element::Escaped(c) => push_char(&mut text, *c),
            Element::Code(t) => {
                text.append(t.as_str());
                let end = text.as_str().unicode_len();
                tags.push((TextTag::Code, start, end));
            },
            Element::Link(a) => {
                text.append(a.children.as_str());
                let end = text.as_str().unicode_len();
                tags.push((TextTag::Link, start, end));
            },
            Element::Italic(children) => {
                push_nested_text(&mut text, children);
                let end = text.as_str().unicode_len();
                tags.push((TextTag::Italic, start, end));
            },
            Element::Bold(children) => {
                push_nested_text(&mut text, children);
                let end = text.as_str().unicode_len();
                tags.push((TextTag::Bold, start, end));
            },
        }
        assert((text@, tags@) =~= buffer_step(acc, elements@[i as int]));
        i = i + 1;
    }
    assert(elements@.skip(elements@.len() as int) =~= Seq::<Element>::empty());
    TaggedText { text, tags }
}

/// Whether the `k`th tagged range starts no later than it ends, within
/// the text.
pub open spec fn range_ok(b: TaggedView, k: int) -> bool {
    b.1[k].1 <= b.1[k].2 <= b.0.len()
}

/// Each tagged range lies within the text and starts no later than it
/// ends.
pub open spec fn ranges_within(b: TaggedView) -> bool {
    forall|k: int| 0 <= k < b.1.len() ==> #[trigger] range_ok(b, k)
}

/// Every range a buffer tags lies within its text.
pub proof fn lemma_tags_within_text(es: Seq<Element>, acc: TaggedView)
    requires
        ranges_within(acc),
        buffer_all(es, acc).0.len() <= usize::MAX,
    ensures
        ranges_within(buffer_all(es, acc)),
        acc.0.len() <= buffer_all(es, acc).0.len(),
    decreases es.len(),
{
    if es.len() > 0 {
        let next = buffer_step(acc, es[0]);
        lemma_buffer_grows(es.drop_first(), next);
        assert(ranges_within(next)) by {
            assert forall|k: int| 0 <= k < next.1.len() implies #[trigger] range_ok(next, k) by {
                assert(next.0.len() <= usize::MAX);
                assert(acc.0.len() <= next.0.len());
                if k < acc.1.len() {
                    assert(next.1[k] == acc.1[k]);
                    assert(range_ok(acc, k));
                } else {
                    assert(next.1.len() == acc.1.len() + 1);
                    assert(next.1[k].1 == acc.0.len());
                    assert(next.1[k].2 == next.0.len());
                }
            }
        }
        lemma_tags_within_text(es.drop_first(), next);
    }
}

proof fn lemma_buffer_grows(es: Seq<Element>, acc: TaggedView)
    ensures
        acc.0.len() <= buffer_all(es, acc).0.len(),
    decreases es.len(),
{
    if es.len() > 0 {
        lemma_buffer_grows(es.drop_first(), buffer_step(acc, es[0]));
    }
}

/// The one-line form of a body is a beginning of its full form: the same
/// runs, up to the first paragraph break.
pub proof fn lemma_oneline_is_prefix(es: Seq<Element>, search: Option<Seq<char>>)
    ensures
        body_runs(es, search, true).len() <= body_runs(es, search, false).len(),
        body_runs(es, search, false).take(body_runs(es, search, true).len() as int) == body_runs(es, search, true),
    decreases es.len(),
{
    if es.len() == 0 {
        assert(body_runs(es, search, false).take(0) =~= Seq::<RunView>::empty());
    } else if es[0] is Paragraph {
        assert(body_runs(es, search, false).take(0) =~= Seq::<RunView>::empty());
    } else {
        lemma_oneline_is_prefix(es.drop_first(), search);
        let head = top_runs(es[0], search);
        let one = body_runs(es.drop_first(), search, true);
        let full = body_runs(es.drop_first(), search, false);
        assert((head + full).take((head + one).len() as int) =~= head + full.take(one.len() as int));
    }
}

} // verus!
