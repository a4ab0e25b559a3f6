//! Plain text and style runs for a comment body: the parsed elements of
//! the simplified HTML that Hacker News serves are flattened into one
//! string, a list of styled segments measured in bytes, and the link
//! targets in order.
use vstd::prelude::*;
use vstd::string::*;
use vstd::utf8::encode_utf8;
use core::ops::Range;
use crate::punycode::{url_display, url_punycode};
use crate::text::{push_char, str_eq};

verus! {

/// A styled segment of a comment body; each variant holds the length of
/// its text in bytes.
#[derive(Debug, Copy, Clone, PartialEq, Eq, Structural)]
pub enum TextLayout {
    /// Normal, unstyled text.
    Normal(usize),
    /// Bold text.
    Bold(usize),
    /// Italic text.
    Italic(usize),
    /// A clickable link.
    Link(usize),
    /// Monospaced code text.
    Code(usize),
}

/// The style of a segment, without its length.
#[derive(Debug, Copy, Clone, PartialEq, Eq, Structural)]
pub enum Style {
    Normal,
    Bold,
    Italic,
    Link,
    Code,
}

/// The length held by a segment.
pub open spec fn layout_len(l: TextLayout) -> nat {
    match l {
        TextLayout::Normal(n) => n as nat,
        TextLayout::Bold(n) => n as nat,
        TextLayout::Italic(n) => n as nat,
        TextLayout::Link(n) => n as nat,
        TextLayout::Code(n) => n as nat,
    }
}

/// The style of a segment.
pub open spec fn layout_style(l: TextLayout) -> Style {
    match l {
        TextLayout::Normal(_) => Style::Normal,
        TextLayout::Bold(_) => Style::Bold,
        TextLayout::Italic(_) => Style::Italic,
        TextLayout::Link(_) => Style::Link,
        TextLayout::Code(_) => Style::Code,
    }
}

/// The segment of a style and a length.
pub open spec fn make_layout(style: Style, n: usize) -> TextLayout {
    match style {
        Style::Normal => TextLayout::Normal(n),
        Style::Bold => TextLayout::Bold(n),
        Style::Italic => TextLayout::Italic(n),
        Style::Link => TextLayout::Link(n),
        Style::Code => TextLayout::Code(n),
    }
}

impl TextLayout {
    /// The length of this segment.
    pub fn len(&self) -> (r: usize)
        ensures
            r == layout_len(*self),
    {
        match self {
            TextLayout::Normal(n) => *n,
            TextLayout::Bold(n) => *n,
            TextLayout::Italic(n) => *n,
            TextLayout::Link(n) => *n,
            TextLayout::Code(n) => *n,
        }
    }

    /// The segment of `style` and length `n`.
    pub fn new(style: Style, n: usize) -> (r: TextLayout)
        ensures
            r == make_layout(style, n),
    {
        match style {
            Style::Normal => TextLayout::Normal(n),
            Style::Bold => TextLayout::Bold(n),
            Style::Italic => TextLayout::Italic(n),
            Style::Link => TextLayout::Link(n),
            Style::Code => TextLayout::Code(n),
        }
    }

    /// The style of this segment.
    pub fn style(&self) -> (r: Style)
        ensures
            r == layout_style(*self),
    {
        match self {
            TextLayout::Normal(_) => Style::Normal,
            TextLayout::Bold(_) => Style::Bold,
            TextLayout::Italic(_) => Style::Italic,
            TextLayout::Link(_) => Style::Link,
            TextLayout::Code(_) => Style::Code,
        }
    }
}

/// The total length of a list of segments.
pub open spec fn total_len(s: Seq<TextLayout>) -> nat
    decreases s.len(),
{
    if s.len() == 0 {
        0
    } else {
        total_len(s.drop_last()) + layout_len(s.last())
    }
}

/// Appends a segment of `style` and length `len`, or lengthens the last
/// segment when it has the same style.
pub open spec fn merged(layout: Seq<TextLayout>, style: Style, len: nat) -> Seq<TextLayout> {
    if layout.len() > 0 && layout_style(layout.last()) == style {
        layout.drop_last().push(make_layout(style, (layout_len(layout.last()) + len) as usize))
    } else {
        layout.push(make_layout(style, len as usize))
    }
}

/// Whether merging a segment of `len` into `layout` keeps within `usize`.
pub open spec fn merge_fits(layout: Seq<TextLayout>, style: Style, len: nat) -> bool {
    layout.len() > 0 && layout_style(layout.last()) == style ==> layout_len(layout.last()) + len <= usize::MAX
}

/// Pushes a new segment or extends the last one if it has the same style,
/// so that adjacent runs of one style stay a single segment.
pub fn push_or_merge(layout: &mut Vec<TextLayout>, style: Style, len: usize)
    requires
        merge_fits(old(layout)@, style, len as nat),
    ensures
        final(layout)@ == merged(old(layout)@, style, len as nat),
{
    let n = layout.len();
    if n > 0 {
        let last = layout[n - 1];
        if last.style() == style {
            let merged_len = last.len() + len;
            layout.set(n - 1, TextLayout::new(style, merged_len));
            assert(final(layout)@ =~= merged(old(layout)@, style, len as nat));
            return;
        }
    }
    layout.push(TextLayout::new(style, len));
}

/// The byte ranges of the link segments, in order: each starts where the
/// segments before it end and is as long as the link segment.
pub open spec fn link_ranges(s: Seq<TextLayout>) -> Seq<(int, int)>
    decreases s.len(),
{
    if s.len() == 0 {
        Seq::empty()
    } else {
        let before = link_ranges(s.drop_last());
        if layout_style(s.last()) == Style::Link {
            before.push((total_len(s.drop_last()) as int, total_len(s) as int))
        } else {
            before
        }
    }
}

/// The view of a list of ranges as pairs of bounds.
pub open spec fn ranges_view(v: Seq<Range<usize>>) -> Seq<(int, int)> {
    Seq::new(v.len(), |i: int| (v[i].start as int, v[i].end as int))
}

/// Computes the byte ranges of all link segments, which identify the
/// clickable regions of the rendered text.
pub fn url_ranges(layouts: &[TextLayout]) -> (r: Vec<Range<usize>>)
    requires
        total_len(layouts@) <= usize::MAX,
    ensures
        ranges_view(r@) == link_ranges(layouts@),
{
    let mut ranges: Vec<Range<usize>> = Vec::new();
    let mut total_chars: usize = 0;
    let mut i: usize = 0;
    while i < layouts.len()
        invariant
            i <= layouts@.len(),
            total_len(layouts@) <= usize::MAX,
            total_chars == total_len(layouts@.take(i as int)),
            ranges_view(ranges@) =~= link_ranges(layouts@.take(i as int)),
        decreases layouts@.len() - i,
    {
        proof {
            lemma_total_len_prefix(layouts@, i as int + 1);
            assert(layouts@.take(i as int + 1).drop_last() =~= layouts@.take(i as int));
        }
        let layout = layouts[i];
        let n = layout.len();
        if layout.style() == Style::Link {
            ranges.push(Range { start: total_chars, end: total_chars + n });
        }
        total_chars = total_chars + n;
        i = i + 1;
    }
    assert(layouts@.take(layouts@.len() as int) =~= layouts@);
    ranges
}

/// The total length of a prefix is at most the total length.
pub proof fn lemma_total_len_prefix(s: Seq<TextLayout>, k: int)
    requires
        0 <= k <= s.len(),
    ensures
        total_len(s.take(k)) <= total_len(s),
    decreases s.len() - k,
{
    if k < s.len() {
        lemma_total_len_prefix(s, k + 1);
        assert(s.take(k + 1).drop_last() =~= s.take(k));
    } else {
        assert(s.take(k) =~= s);
    }
}

/// Ranges moved `d` further on.
pub open spec fn shifted(r: Seq<(int, int)>, d: int) -> Seq<(int, int)> {
    Seq::new(r.len(), |i: int| (r[i].0 + d, r[i].1 + d))
}

/// The segments of two layouts one after the other are as long as both,
/// and their link ranges are those of the first followed by those of the
/// second, moved on by the length of the first.
pub proof fn lemma_link_ranges_concat(a: Seq<TextLayout>, b: Seq<TextLayout>)
    ensures
        total_len(a + b) == total_len(a) + total_len(b),
        link_ranges(a + b) == link_ranges(a) + shifted(link_ranges(b), total_len(a) as int),
    decreases b.len(),
{
    if b.len() == 0 {
        assert(a + b =~= a);
        assert(link_ranges(a) + shifted(link_ranges(b), total_len(a) as int) =~= link_ranges(a));
    } else {
        lemma_link_ranges_concat(a, b.drop_last());
        assert((a + b).drop_last() =~= a + b.drop_last());
        assert((a + b).last() == b.last());
        let d = total_len(a) as int;
        if layout_style(b.last()) == Style::Link {
            assert(shifted(link_ranges(b), d) =~= shifted(link_ranges(b.drop_last()), d).push(
                (total_len(b.drop_last()) + d, total_len(b) + d),
            ));
            assert(link_ranges(a + b) =~= link_ranges(a) + shifted(link_ranges(b), d));
        }
    }
}

/// Whether a segment and the one after it differ in style.
pub open spec fn differs_from_next(s: Seq<TextLayout>, i: int) -> bool {
    layout_style(s[i]) != layout_style(s[i + 1])
}

/// Whether no two adjacent segments have the same style: every run of one
/// style is a single segment.
pub open spec fn runs_maximal(s: Seq<TextLayout>) -> bool {
    forall|i: int| 0 <= i < s.len() - 1 ==> #[trigger] differs_from_next(s, i)
}

/// Pushing or merging a segment of `len` adds `len` to the total length,
/// leaves at least one segment, and keeps every run of one style a single
/// segment.
pub proof fn lemma_push_or_merge(layout: Seq<TextLayout>, style: Style, len: nat)
    requires
        merge_fits(layout, style, len),
        len <= usize::MAX,
    ensures
        total_len(merged(layout, style, len)) == total_len(layout) + len,
        merged(layout, style, len).len() > 0,
        runs_maximal(layout) ==> runs_maximal(merged(layout, style, len)),
{
    let r = merged(layout, style, len);
    let x = if layout.len() > 0 && layout_style(layout.last()) == style {
        make_layout(style, (layout_len(layout.last()) + len) as usize)
    } else {
        make_layout(style, len as usize)
    };
    let rest = if layout.len() > 0 && layout_style(layout.last()) == style { layout.drop_last() } else { layout };
    assert(r == rest.push(x));
    assert(r.drop_last() =~= rest);
    if layout.len() > 0 && layout_style(layout.last()) == style {
        assert(layout.drop_last().push(layout.last()) =~= layout);
        assert(layout.drop_last() == layout.drop_last().push(layout.last()).drop_last());
    }
    if runs_maximal(layout) {
        assert forall|i: int| 0 <= i < r.len() - 1 implies #[trigger] differs_from_next(r, i) by {
            if i + 1 < rest.len() {
                assert(differs_from_next(layout, i));
            } else if layout.len() > 0 && layout_style(layout.last()) == style {
                assert(differs_from_next(layout, i));
                assert(r[i] == layout[i]);
            } else {
                assert(r[i] == layout.last());
            }
        }
    }
}

/// An attribute of an anchor tag.
#[derive(Debug)]
pub struct Attribute {
    pub name: String,
    pub value: String,
}

/// An anchor tag: its attributes and its text.
#[derive(Debug)]
pub struct Anchor {
    pub attributes: Vec<Attribute>,
    pub children: String,
}

/// A parsed element of a comment body.
#[derive(Debug)]
pub enum Element {
    /// Plain text.
    Text(String),
    /// A link.
    Link(Anchor),
    /// A character written as an HTML escape.
    Escaped(char),
    /// A paragraph break.
    Paragraph,
    /// Preformatted code.
    Code(String),
    /// Italic children.
    Italic(Vec<Element>),
    /// Bold children.
    Bold(Vec<Element>),
}

/// A comment body with layout and url properties for formatting.
#[derive(Debug)]
pub struct ParsedStyledText {
    /// Full comment body as text.
    pub text: String,
    /// Layouts to format the comment body, by byte length.
    pub layout: Vec<TextLayout>,
    /// Url strings for rendering links.
    pub urls: Vec<String>,
}

/// Text, layout and link targets collected so far.
pub type Collected = (Seq<char>, Seq<TextLayout>, Seq<Seq<char>>);

/// The view of a list of strings.
pub open spec fn strings_view(v: Seq<String>) -> Seq<Seq<char>> {
    Seq::new(v.len(), |i: int| v[i]@)
}

impl View for ParsedStyledText {
    type V = Collected;

    open spec fn view(&self) -> Collected {
        (self.text@, self.layout@, strings_view(self.urls@))
    }
}

/// The number of bytes of the UTF-8 encoding of a text.
pub open spec fn byte_len(s: Seq<char>) -> nat {
    encode_utf8(s).len()
}

/// A text with every newline removed.
pub open spec fn without_newlines(s: Seq<char>) -> Seq<char>
    decreases s.len(),
{
    if s.len() == 0 {
        s
    } else if s.last() == '\n' {
        without_newlines(s.drop_last())
    } else {
        without_newlines(s.drop_last()).push(s.last())
    }
}

/// A text segment as it is laid out: newlines are dropped except one at
/// the very end.
pub open spec fn strip_newlines(s: Seq<char>) -> Seq<char> {
    if s.len() > 0 && s.last() == '\n' {
        without_newlines(s).push('\n')
    } else {
        without_newlines(s)
    }
}

/// The index of the first attribute named `href`, if any.
pub open spec fn href_index(attrs: Seq<Attribute>) -> Option<int>
    decreases attrs.len(),
{
    if attrs.len() == 0 {
        None
    } else {
        match href_index(attrs.drop_last()) {
            Some(i) => Some(i),
            None => if attrs.last().name@ == "href"@ {
                Some(attrs.len() - 1)
            } else {
                None
            },
        }
    }
}

/// The layout style of text under `wrapper`.
pub open spec fn text_style(wrapper: Option<Style>) -> Style {
    match wrapper {
        Some(s) => s,
        None => Style::Normal,
    }
}

/// Collects one element into the accumulated text, layout and links.
pub open spec fn collect_one(e: Element, acc: Collected, wrapper: Option<Style>) -> Collected
    decreases e, 0int,
{
    match e {
        Element::Text(s) => {
            let t = strip_newlines(s@);
            (acc.0 + t, merged(acc.1, text_style(wrapper), byte_len(t)), acc.2)
        },
        Element::Link(anchor) => match href_index(anchor.attributes@) {
            Some(i) => {
                let url = anchor.attributes@[i].value@;
                let shown = if anchor.children@.len() == 0 { url } else { anchor.children@ };
                let display = url_display(shown);
                (acc.0 + display, acc.1.push(TextLayout::Link(byte_len(display) as usize)), acc.2.push(url))
            },
            None => acc,
        },
        Element::Escaped(c) => (acc.0.push(c), merged(acc.1, text_style(wrapper), byte_len(seq![c])), acc.2),
        Element::Paragraph => (acc.0.push('\n'), merged(acc.1, Style::Normal, 1), acc.2),
        Element::Code(s) => (acc.0 + s@, acc.1.push(TextLayout::Code(byte_len(s@) as usize)), acc.2),
        Element::Italic(children) => collect_all(children@, acc, Some(Style::Italic)),
        Element::Bold(children) => collect_all(children@, acc, Some(Style::Bold)),
    }
}

/// Collects a list of elements, in order.
pub open spec fn collect_all(es: Seq<Element>, acc: Collected, wrapper: Option<Style>) -> Collected
    decreases es, 1int,
{
    if es.len() == 0 {
        acc
    } else {
        collect_all(es.drop_first(), collect_one(es[0], acc, wrapper), wrapper)
    }
}

/// Whether every merge made while collecting `e` keeps within `usize`.
pub open spec fn one_fits(e: Element, acc: Collected, wrapper: Option<Style>) -> bool
    decreases e, 0int,
{
    match e {
        Element::Text(s) => merge_fits(acc.1, text_style(wrapper), byte_len(strip_newlines(s@))),
        Element::Escaped(c) => merge_fits(acc.1, text_style(wrapper), byte_len(seq![c])),
        Element::Paragraph => merge_fits(acc.1, Style::Normal, 1),
        Element::Italic(children) => all_fit(children@, acc, Some(Style::Italic)),
        Element::Bold(children) => all_fit(children@, acc, Some(Style::Bold)),
        _ => true,
    }
}

/// Whether every merge made while collecting `es` keeps within `usize`.
pub open spec fn all_fit(es: Seq<Element>, acc: Collected, wrapper: Option<Style>) -> bool
    decreases es, 1int,
{
    es.len() == 0 || (one_fits(es[0], acc, wrapper) && all_fit(es.drop_first(), collect_one(es[0], acc, wrapper), wrapper))
}

/// Drops every newline of a text segment except a final one.
pub fn strip_text(s: &str) -> (r: String)
    ensures
        r@ == strip_newlines(s@),
{
    let n = s.unicode_len();
    let mut out = String::new();
    let mut i: usize = 0;
    while i < n
        invariant
            n == s@.len(),
            i <= n,
            out@ == without_newlines(s@.take(i as int)),
        decreases n - i,
    {
        let c = s.get_char(i);
        assert(s@.take(i as int + 1).drop_last() =~= s@.take(i as int));
        if c != '\n' {
            push_char(&mut out, c);
        }
        i = i + 1;
    }
    assert(s@.take(n as int) =~= s@);
    if n > 0 && s.get_char(n - 1) == '\n' {
        push_char(&mut out, '\n');
    }
    out
}

/// The index of the first attribute named `href`.
pub(crate) fn find_href(attrs: &Vec<Attribute>) -> (r: Option<usize>)
    ensures
        match r {
            Some(i) => href_index(attrs@) == Some(i as int) && i < attrs@.len(),
            None => href_index(attrs@) is None,
        },
{
    let mut i: usize = 0;
    while i < attrs.len()
        invariant
            i <= attrs@.len(),
            href_index(attrs@.take(i as int)) is None,
        decreases attrs@.len() - i,
    {
        assert(attrs@.take(i as int + 1).drop_last() =~= attrs@.take(i as int));
        if str_eq(attrs[i].name.as_str(), "href") {
            proof {
                lemma_href_index_prefix(attrs@, i as int + 1);
            }
            return Some(i);
        }
        i = i + 1;
    }
    assert(attrs@.take(attrs@.len() as int) =~= attrs@);
    None
}

/// Once a prefix holds an `href`, the whole list finds the same one.
proof fn lemma_href_index_prefix(attrs: Seq<Attribute>, k: int)
    requires
        0 <= k <= attrs.len(),
        href_index(attrs.take(k)) is Some,
    ensures
        href_index(attrs) == href_index(attrs.take(k)),
    decreases attrs.len() - k,
{
    if k < attrs.len() {
        assert(attrs.take(k + 1).drop_last() =~= attrs.take(k));
        lemma_href_index_prefix(attrs, k + 1);
    } else {
        assert(attrs.take(k) =~= attrs);
    }
}

/// Collects one element into `parsed`.
fn collect_element(e: &Element, parsed: &mut ParsedStyledText, wrapper: Option<Style>)
    requires
        one_fits(*e, old(parsed)@, wrapper),
    ensures
        final(parsed)@ == collect_one(*e, old(parsed)@, wrapper),
    decreases *e, 0int,
{
    match e {
        Element::Text(s) => {
            let t = strip_text(s.as_str());
            let style = match wrapper {
                Some(w) => w,
                None => Style::Normal,
            };
            push_or_merge(&mut parsed.layout, style, t.as_str().len());
            parsed.text.append(t.as_str());
        },
        Element::Link(anchor) => {
            match find_href(&anchor.attributes) {
                Some(i) => {
                    let url = &anchor.attributes[i].value;
                    let shown = if anchor.children.as_str().is_empty() {
                        url.as_str()
                    } else {
                        anchor.children.as_str()
                    };
                    let display = url_punycode(shown);
                    parsed.layout.push(TextLayout::Link(display.as_str().len()));
                    parsed.text.append(display.as_str());
                    parsed.urls.push(String::from_str(url.as_str()));
                    assert(strings_view(parsed.urls@) =~= strings_view(old(parsed).urls@).push(url@));
                },
                None => {},
            }
        },
        Element::Escaped(c) => {
            let style = match wrapper {
                Some(w) => w,
                None => Style::Normal,
            };
            push_or_merge(&mut parsed.layout, style, char_byte_len(*c));
            push_char(&mut parsed.text, *c);
        },
        Element::Paragraph => {
            push_or_merge(&mut parsed.layout, Style::Normal, 1);
            push_char(&mut parsed.text, '\n');
        },
        Element::Code(s) => {
            parsed.layout.push(TextLayout::Code(s.as_str().len()));
            parsed.text.append(s.as_str());
        },
        Element::Italic(children) => {
            collect_elements(children, parsed, Some(Style::Italic));
        },
        Element::Bold(children) => {
            collect_elements(children, parsed, Some(Style::Bold));
        },
    }
}

/// Collects elements into `parsed` in order. Under a `wrapper` style the
/// text segments take that style instead of their own default; links keep
/// their own segments so that no target is lost.
pub fn collect_elements(elements: &Vec<Element>, parsed: &mut ParsedStyledText, wrapper: Option<Style>)
    requires
        all_fit(elements@, old(parsed)@, wrapper),
    ensures
        final(parsed)@ == collect_all(elements@, old(parsed)@, wrapper),
        final(parsed)@.0.subrange(0, old(parsed)@.0.len() as int) == old(parsed)@.0,
        final(parsed)@.2.subrange(0, old(parsed)@.2.len() as int) == old(parsed)@.2,
        byte_len(final(parsed)@.0) <= usize::MAX ==> bytes_added_match(old(parsed)@, final(parsed)@),
        byte_len(final(parsed)@.0) <= usize::MAX && text_wrapper(wrapper) ==> links_added_match(old(parsed)@, final(parsed)@),
    decreases elements@, 1int,
{
    proof {
        lemma_collect_all_extends(elements@, old(parsed)@, wrapper);
        if byte_len(collect_all(elements@, old(parsed)@, wrapper).0) <= usize::MAX {
            lemma_collect_all_covers(elements@, old(parsed)@, wrapper);
        }
    }
    let mut i: usize = 0;
    assert(elements@.skip(0) =~= elements@);
    while i < elements.len()
        invariant
            i <= elements@.len(),
            all_fit(elements@.skip(i as int), parsed@, wrapper),
            collect_all(elements@, old(parsed)@, wrapper) == collect_all(elements@.skip(i as int), parsed@, wrapper),
        decreases elements@.len() - i,
    {
        assert(elements@.skip(i as int).drop_first() =~= elements@.skip(i as int + 1));
        assert(elements@.skip(i as int)[0] == elements@[i as int]);
        collect_element(&elements[i], parsed, wrapper);
        i = i + 1;
    }
}

/// Flattens parsed comment elements into text, layout and link targets.
pub fn parse_layout(elements: &Vec<Element>) -> (r: ParsedStyledText)
    requires
        all_fit(elements@, (Seq::empty(), Seq::empty(), Seq::empty()), None),
    ensures
        r@ == collect_all(elements@, (Seq::empty(), Seq::empty(), Seq::empty()), None),
        byte_len(r@.0) <= usize::MAX ==> covers(r@) && links_shown(r@, links_all(elements@)),
{
    proof {
        if byte_len(collect_all(elements@, (Seq::empty(), Seq::empty(), Seq::empty()), None).0) <= usize::MAX {
            lemma_layout_covers_text(elements@);
            lemma_layout_links(elements@);
        }
    }
    let mut parsed = ParsedStyledText { text: String::new(), layout: Vec::new(), urls: Vec::new() };
    assert(parsed@ =~= (Seq::<char>::empty(), Seq::<TextLayout>::empty(), Seq::<Seq<char>>::empty()));
    collect_elements(elements, &mut parsed, None);
    parsed
}

/// The number of link segments.
pub open spec fn count_links(s: Seq<TextLayout>) -> nat
    decreases s.len(),
{
    if s.len() == 0 {
        0
    } else {
        count_links(s.drop_last()) + if layout_style(s.last()) == Style::Link { 1nat } else { 0nat }
    }
}

/// Whether the segments cover the text exactly, byte for byte, and each
/// link segment has its target.
pub open spec fn covers(acc: Collected) -> bool {
    &&& total_len(acc.1) == byte_len(acc.0)
    &&& count_links(acc.1) == acc.2.len()
}

/// The styles text is collected under.
pub open spec fn text_wrapper(w: Option<Style>) -> bool {
    w is None || w == Some(Style::Italic) || w == Some(Style::Bold)
}

/// The UTF-8 length of a concatenation is the sum of the lengths.
pub proof fn lemma_byte_len_concat(a: Seq<char>, b: Seq<char>)
    ensures
        byte_len(a + b) == byte_len(a) + byte_len(b),
    decreases a.len(),
{
    if a.len() > 0 {
        lemma_byte_len_concat(a.drop_first(), b);
        assert((a + b).drop_first() =~= a.drop_first() + b);
        assert((a + b)[0] == a[0]);
    } else {
        assert(a + b =~= b);
        assert(encode_utf8(a) =~= Seq::<u8>::empty());
    }
}

/// The UTF-8 length of one character: one byte below U+0080, two below
/// U+0800, three below U+10000, four above.
pub proof fn lemma_byte_len_char(c: char)
    ensures
        byte_len(seq![c]) == (if (c as u32) < 0x80 {
            1nat
        } else if (c as u32) < 0x800 {
            2nat
        } else if (c as u32) < 0x10000 {
            3nat
        } else {
            4nat
        }),
{
    let s = seq![c];
    assert(s.drop_first() =~= Seq::<char>::empty());
    assert(encode_utf8(s.drop_first()) =~= Seq::<u8>::empty());
    assert(encode_utf8(s) =~= vstd::utf8::encode_scalar(c as u32));
}

/// The number of bytes of the UTF-8 encoding of `c`.
fn char_byte_len(c: char) -> (r: usize)
    ensures
        r as nat == byte_len(seq![c]),
{
    proof {
        lemma_byte_len_char(c);
    }
    let v = c as u32;
    if v < 0x80 {
        1
    } else if v < 0x800 {
        2
    } else if v < 0x10000 {
        3
    } else {
        4
    }
}

proof fn lemma_total_len_push(s: Seq<TextLayout>, x: TextLayout)
    ensures
        total_len(s.push(x)) == total_len(s) + layout_len(x),
        count_links(s.push(x)) == count_links(s) + if layout_style(x) == Style::Link { 1nat } else { 0nat },
{
    assert(s.push(x).drop_last() =~= s);
}

proof fn lemma_merged(layout: Seq<TextLayout>, style: Style, len: nat)
    requires
        merge_fits(layout, style, len),
        len <= usize::MAX,
    ensures
        total_len(merged(layout, style, len)) == total_len(layout) + len,
        style != Style::Link ==> count_links(merged(layout, style, len)) == count_links(layout),
{
    if layout.len() > 0 && layout_style(layout.last()) == style {
        let rest = layout.drop_last();
        let x = make_layout(style, (layout_len(layout.last()) + len) as usize);
        lemma_total_len_push(rest, x);
        assert(rest.push(layout.last()) =~= layout);
        lemma_total_len_push(rest, layout.last());
    } else {
        lemma_total_len_push(layout, make_layout(style, len as usize));
    }
}

/// Collecting an element only adds text, and link targets, after those
/// collected so far.
pub proof fn lemma_collect_one_extends(e: Element, acc: Collected, w: Option<Style>)
    ensures
        acc.0.len() <= collect_one(e, acc, w).0.len(),
        collect_one(e, acc, w).0.subrange(0, acc.0.len() as int) == acc.0,
        acc.2.len() <= collect_one(e, acc, w).2.len(),
        collect_one(e, acc, w).2.subrange(0, acc.2.len() as int) == acc.2,
    decreases e, 0int,
{
    match e {
        Element::Italic(children) => lemma_collect_all_extends(children@, acc, Some(Style::Italic)),
        Element::Bold(children) => lemma_collect_all_extends(children@, acc, Some(Style::Bold)),
        _ => {
            assert(collect_one(e, acc, w).0.subrange(0, acc.0.len() as int) =~= acc.0);
            assert(collect_one(e, acc, w).2.subrange(0, acc.2.len() as int) =~= acc.2);
        },
    }
}

/// Collecting elements only adds text, and link targets, after those
/// collected so far.
pub proof fn lemma_collect_all_extends(es: Seq<Element>, acc: Collected, w: Option<Style>)
    ensures
        acc.0.len() <= collect_all(es, acc, w).0.len(),
        collect_all(es, acc, w).0.subrange(0, acc.0.len() as int) == acc.0,
        acc.2.len() <= collect_all(es, acc, w).2.len(),
        collect_all(es, acc, w).2.subrange(0, acc.2.len() as int) == acc.2,
    decreases es, 1int,
{
    if es.len() == 0 {
        assert(acc.0.subrange(0, acc.0.len() as int) =~= acc.0);
        assert(acc.2.subrange(0, acc.2.len() as int) =~= acc.2);
    } else {
        let next = collect_one(es[0], acc, w);
        lemma_collect_one_extends(es[0], acc, w);
        lemma_collect_all_extends(es.drop_first(), next, w);
        let fin = collect_all(es.drop_first(), next, w);
        assert(fin.0.subrange(0, acc.0.len() as int) =~= fin.0.subrange(0, next.0.len() as int).subrange(0, acc.0.len() as int));
        assert(fin.2.subrange(0, acc.2.len() as int) =~= fin.2.subrange(0, next.2.len() as int).subrange(0, acc.2.len() as int));
    }
}

/// A text that begins another is no longer in UTF-8.
proof fn lemma_byte_len_prefix(whole: Seq<char>, n: int)
    requires
        0 <= n <= whole.len(),
    ensures
        byte_len(whole.subrange(0, n)) <= byte_len(whole),
{
    lemma_byte_len_concat(whole.subrange(0, n), whole.subrange(n, whole.len() as int));
    assert(whole.subrange(0, n) + whole.subrange(n, whole.len() as int) =~= whole);
}

/// The segments added while collecting `acc` into `res` are as long as the
/// text added, in UTF-8 bytes.
pub open spec fn bytes_added_match(acc: Collected, res: Collected) -> bool {
    total_len(res.1) + byte_len(acc.0) == total_len(acc.1) + byte_len(res.0)
}

/// One link segment is added per link target added.
pub open spec fn links_added_match(acc: Collected, res: Collected) -> bool {
    count_links(res.1) + acc.2.len() == count_links(acc.1) + res.2.len()
}

/// Collecting an element adds segments exactly as long, in UTF-8 bytes, as
/// the text it adds, when the whole text's length fits a `usize`; under a
/// text style it adds one link segment per link target; so collected
/// segments that covered the text still cover it.
pub proof fn lemma_collect_one_covers(e: Element, acc: Collected, w: Option<Style>)
    requires
        one_fits(e, acc, w),
        byte_len(collect_one(e, acc, w).0) <= usize::MAX,
    ensures
        bytes_added_match(acc, collect_one(e, acc, w)),
        text_wrapper(w) ==> links_added_match(acc, collect_one(e, acc, w)),
        covers(acc) && text_wrapper(w) ==> covers(collect_one(e, acc, w)),
    decreases e, 0int,
{
    lemma_byte_len_concat(acc.0, collect_one(e, acc, w).0.subrange(acc.0.len() as int, collect_one(e, acc, w).0.len() as int));
    match e {
        Element::Text(s) => {
            let t = strip_newlines(s@);
            lemma_byte_len_concat(acc.0, t);
            lemma_merged(acc.1, text_style(w), byte_len(t));
        },
        Element::Link(anchor) => {
            match href_index(anchor.attributes@) {
                Some(i) => {
                    let url = anchor.attributes@[i].value@;
                    let shown = if anchor.children@.len() == 0 { url } else { anchor.children@ };
                    let display = url_display(shown);
                    lemma_byte_len_concat(acc.0, display);
                    lemma_total_len_push(acc.1, TextLayout::Link(byte_len(display) as usize));
                },
                None => {},
            }
        },
        Element::Escaped(c) => {
            lemma_byte_len_char(c);
            assert(acc.0.push(c) =~= acc.0 + seq![c]);
            lemma_byte_len_concat(acc.0, seq![c]);
            lemma_merged(acc.1, text_style(w), byte_len(seq![c]));
        },
        Element::Paragraph => {
            lemma_byte_len_char('\n');
            assert(acc.0.push('\n') =~= acc.0 + seq!['\n']);
            lemma_byte_len_concat(acc.0, seq!['\n']);
            lemma_merged(acc.1, Style::Normal, 1);
        },
        Element::Code(s) => {
            lemma_byte_len_concat(acc.0, s@);
            lemma_total_len_push(acc.1, TextLayout::Code(byte_len(s@) as usize));
        },
        Element::Italic(children) => {
            lemma_collect_all_covers(children@, acc, Some(Style::Italic));
        },
        Element::Bold(children) => {
            lemma_collect_all_covers(children@, acc, Some(Style::Bold));
        },
    }
}

/// Collecting elements adds segments exactly as long, in UTF-8 bytes, as
/// the text they add, when the whole text's length fits a `usize`; under a
/// text style they add one link segment per link target; so collected
/// segments that covered the text still cover it.
pub proof fn lemma_collect_all_covers(es: Seq<Element>, acc: Collected, w: Option<Style>)
    requires
        all_fit(es, acc, w),
        byte_len(collect_all(es, acc, w).0) <= usize::MAX,
    ensures
        bytes_added_match(acc, collect_all(es, acc, w)),
        text_wrapper(w) ==> links_added_match(acc, collect_all(es, acc, w)),
        covers(acc) && text_wrapper(w) ==> covers(collect_all(es, acc, w)),
    decreases es, 1int,
{
    if es.len() > 0 {
        let next = collect_one(es[0], acc, w);
        lemma_collect_all_extends(es.drop_first(), next, w);
        let fin = collect_all(es.drop_first(), next, w).0;
        lemma_byte_len_prefix(fin, next.0.len() as int);
        lemma_collect_one_covers(es[0], acc, w);
        lemma_collect_all_covers(es.drop_first(), next, w);
    }
}

/// The layout of a comment body covers its text byte for byte, and there
/// is one link target per link segment: so the link ranges of the layout
/// index into the text, and the `k`th range belongs to the `k`th target.
pub proof fn lemma_layout_covers_text(es: Seq<Element>)
    requires
        all_fit(es, (Seq::empty(), Seq::empty(), Seq::empty()), None),
        byte_len(collect_all(es, (Seq::empty(), Seq::empty(), Seq::empty()), None).0) <= usize::MAX,
    ensures
        covers(collect_all(es, (Seq::empty(), Seq::empty(), Seq::empty()), None)),
{
    let empty: Collected = (Seq::empty(), Seq::empty(), Seq::empty());
    assert(encode_utf8(empty.0) =~= Seq::<u8>::empty());
    lemma_collect_all_covers(es, empty, None);
}

/// The links an element shows, in order: for each anchor with a target,
/// the text shown for it and the target.
pub open spec fn links_one(e: Element) -> Seq<(Seq<char>, Seq<char>)>
    decreases e, 0int,
{
    match e {
        Element::Link(anchor) => match href_index(anchor.attributes@) {
            Some(i) => {
                let url = anchor.attributes@[i].value@;
                let shown = if anchor.children@.len() == 0 { url } else { anchor.children@ };
                seq![(url_display(shown), url)]
            },
            None => Seq::empty(),
        },
        Element::Italic(children) => links_all(children@),
        Element::Bold(children) => links_all(children@),
        _ => Seq::empty(),
    }
}

/// The links a list of elements shows, in order.
pub open spec fn links_all(es: Seq<Element>) -> Seq<(Seq<char>, Seq<char>)>
    decreases es, 1int,
{
    if es.len() == 0 {
        Seq::empty()
    } else {
        links_one(es[0]) + links_all(es.drop_first())
    }
}

/// Whether the segments cover the text byte for byte and, for each of the
/// links `ls` in order, the `k`th link range holds the UTF-8 bytes of the
/// text shown for the `k`th link and the `k`th target is its target.
pub open spec fn links_shown(acc: Collected, ls: Seq<(Seq<char>, Seq<char>)>) -> bool {
    &&& total_len(acc.1) == byte_len(acc.0)
    &&& link_ranges(acc.1).len() == ls.len()
    &&& acc.2.len() == ls.len()
    &&& forall|k: int| 0 <= k < ls.len() ==> #[trigger] link_shows(acc, ls, k)
}

/// The `k`th link range of `acc` holds the bytes of the `k`th shown text,
/// and the `k`th target is the `k`th link's.
pub open spec fn link_shows(acc: Collected, ls: Seq<(Seq<char>, Seq<char>)>, k: int) -> bool {
    &&& encode_utf8(acc.0).subrange(link_ranges(acc.1)[k].0, link_ranges(acc.1)[k].1) == encode_utf8(ls[k].0)
    &&& acc.2[k] == ls[k].1
}

/// The UTF-8 encoding of a concatenation is the concatenation of the
/// encodings.
pub proof fn lemma_encode_concat(a: Seq<char>, b: Seq<char>)
    ensures
        encode_utf8(a + b) == encode_utf8(a) + encode_utf8(b),
    decreases a.len(),
{
    if a.len() > 0 {
        lemma_encode_concat(a.drop_first(), b);
        assert((a + b).drop_first() =~= a.drop_first() + b);
        assert((a + b)[0] == a[0]);
        assert(encode_utf8(a + b) =~= encode_utf8(a) + encode_utf8(b));
    } else {
        assert(a + b =~= b);
        assert(encode_utf8(a) =~= Seq::<u8>::empty());
        assert(encode_utf8(a) + encode_utf8(b) =~= encode_utf8(b));
    }
}

/// Merging a segment of a style other than a link's leaves the link ranges
/// as they were.
proof fn lemma_link_ranges_merged(layout: Seq<TextLayout>, style: Style, len: nat)
    requires
        style != Style::Link,
    ensures
        link_ranges(merged(layout, style, len)) == link_ranges(layout),
{
    let r = merged(layout, style, len);
    if layout.len() > 0 && layout_style(layout.last()) == style {
        assert(r.drop_last() =~= layout.drop_last());
    } else {
        assert(r.drop_last() =~= layout);
    }
}

/// Appending text after `acc` keeps the links it showed shown, given a
/// layout whose link ranges are unchanged and text that only grows.
proof fn lemma_links_kept(acc: Collected, res: Collected, ls: Seq<(Seq<char>, Seq<char>)>, added: Seq<char>)
    requires
        links_shown(acc, ls),
        res.0 == acc.0 + added,
        link_ranges(res.1) == link_ranges(acc.1),
        res.2 == acc.2,
        total_len(res.1) == byte_len(res.0),
    ensures
        links_shown(res, ls),
{
    lemma_encode_concat(acc.0, added);
    lemma_link_ranges_ordered(acc.1);
    assert forall|k: int| 0 <= k < ls.len() implies #[trigger] link_shows(res, ls, k) by {
        assert(link_shows(acc, ls, k));
        let r = link_ranges(acc.1)[k];
        assert(encode_utf8(res.0).subrange(r.0, r.1) =~= encode_utf8(acc.0).subrange(r.0, r.1));
    }
}

/// Collecting an element under a text style keeps the links shown so far
/// shown and shows its own links after them.
pub proof fn lemma_collect_one_links(e: Element, acc: Collected, w: Option<Style>, ls: Seq<(Seq<char>, Seq<char>)>)
    requires
        links_shown(acc, ls),
        text_wrapper(w),
        one_fits(e, acc, w),
        byte_len(collect_one(e, acc, w).0) <= usize::MAX,
    ensures
        links_shown(collect_one(e, acc, w), ls + links_one(e)),
    decreases e, 0int,
{
    let res = collect_one(e, acc, w);
    lemma_collect_one_covers(e, acc, w);
    match e {
        Element::Text(s) => {
            let t = strip_newlines(s@);
            lemma_link_ranges_merged(acc.1, text_style(w), byte_len(t));
            assert(ls + links_one(e) =~= ls);
            lemma_links_kept(acc, res, ls, t);
        },
        Element::Escaped(c) => {
            lemma_link_ranges_merged(acc.1, text_style(w), byte_len(seq![c]));
            assert(ls + links_one(e) =~= ls);
            assert(res.0 == acc.0 + seq![c]);
            lemma_links_kept(acc, res, ls, seq![c]);
        },
        Element::Paragraph => {
            lemma_link_ranges_merged(acc.1, Style::Normal, 1);
            assert(ls + links_one(e) =~= ls);
            assert(res.0 == acc.0 + seq!['\n']);
            lemma_links_kept(acc, res, ls, seq!['\n']);
        },
        Element::Code(c) => {
            assert(acc.1.push(TextLayout::Code(byte_len(c@) as usize)).drop_last() =~= acc.1);
            assert(ls + links_one(e) =~= ls);
            lemma_links_kept(acc, res, ls, c@);
        },
        Element::Link(anchor) => {
            match href_index(anchor.attributes@) {
                Some(i) => {
                    let url = anchor.attributes@[i].value@;
                    let shown = if anchor.children@.len() == 0 { url } else { anchor.children@ };
                    let display = url_display(shown);
                    let seg = TextLayout::Link(byte_len(display) as usize);
                    assert(acc.1.push(seg).drop_last() =~= acc.1);
                    lemma_encode_concat(acc.0, display);
                    lemma_link_ranges_ordered(acc.1);
                    let nls = ls + links_one(e);
                    assert(nls =~= ls.push((display, url)));
                    assert(link_ranges(res.1) == link_ranges(acc.1).push((total_len(acc.1) as int, total_len(res.1) as int)));
                    assert forall|k: int| 0 <= k < nls.len() implies #[trigger] link_shows(res, nls, k) by {
                        if k < ls.len() {
                            assert(link_shows(acc, ls, k));
                            let r = link_ranges(acc.1)[k];
                            assert(encode_utf8(res.0).subrange(r.0, r.1) =~= encode_utf8(acc.0).subrange(r.0, r.1));
                        } else {
                            assert(encode_utf8(res.0).subrange(total_len(acc.1) as int, total_len(res.1) as int)
                                =~= encode_utf8(display));
                        }
                    }
                },
                None => {
                    assert(ls + links_one(e) =~= ls);
                },
            }
        },
        Element::Italic(children) => {
            lemma_collect_all_links(children@, acc, Some(Style::Italic), ls);
        },
        Element::Bold(children) => {
            lemma_collect_all_links(children@, acc, Some(Style::Bold), ls);
        },
    }
}

/// Collecting elements under a text style keeps the links shown so far
/// shown and shows their links after them, in order.
pub proof fn lemma_collect_all_links(es: Seq<Element>, acc: Collected, w: Option<Style>, ls: Seq<(Seq<char>, Seq<char>)>)
    requires
        links_shown(acc, ls),
        text_wrapper(w),
        all_fit(es, acc, w),
        byte_len(collect_all(es, acc, w).0) <= usize::MAX,
    ensures
        links_shown(collect_all(es, acc, w), ls + links_all(es)),
    decreases es, 1int,
{
    if es.len() == 0 {
        assert(ls + links_all(es) =~= ls);
    } else {
        let next = collect_one(es[0], acc, w);
        lemma_collect_all_extends(es.drop_first(), next, w);
        let fin = collect_all(es.drop_first(), next, w).0;
        lemma_byte_len_prefix(fin, next.0.len() as int);
        lemma_collect_one_links(es[0], acc, w, ls);
        lemma_collect_all_links(es.drop_first(), next, w, ls + links_one(es[0]));
        assert(ls + links_one(es[0]) + links_all(es.drop_first()) =~= ls + links_all(es));
    }
}

/// In the layout of a comment body, the `k`th link range holds the UTF-8
/// bytes of the text shown for the `k`th link of the body (its target with
/// a punycode host in Unicode, or its own text), and the `k`th target is
/// that link's target: clicking the `k`th range opens the `k`th link.
pub proof fn lemma_layout_links(es: Seq<Element>)
    requires
        all_fit(es, (Seq::empty(), Seq::empty(), Seq::empty()), None),
        byte_len(collect_all(es, (Seq::empty(), Seq::empty(), Seq::empty()), None).0) <= usize::MAX,
    ensures
        links_shown(collect_all(es, (Seq::empty(), Seq::empty(), Seq::empty()), None), links_all(es)),
{
    let empty: Collected = (Seq::empty(), Seq::empty(), Seq::empty());
    let none = Seq::<(Seq<char>, Seq<char>)>::empty();
    assert(encode_utf8(empty.0) =~= Seq::<u8>::empty());
    assert(links_shown(empty, none));
    lemma_collect_all_links(es, empty, None, none);
    assert(none + links_all(es) =~= links_all(es));
}

/// The link ranges come one per link segment, in order, without
/// overlapping, each within the laid out text.
pub proof fn lemma_link_ranges_ordered(s: Seq<TextLayout>)
    ensures
        link_ranges(s).len() == count_links(s),
        forall|i: int| 0 <= i < link_ranges(s).len() ==> 0 <= #[trigger] link_ranges(s)[i].0 <= link_ranges(s)[i].1 <= total_len(s),
        forall|i: int, j: int| 0 <= i < j < link_ranges(s).len() ==> #[trigger] link_ranges(s)[i].1 <= #[trigger] link_ranges(s)[j].0,
    decreases s.len(),
{
    if s.len() > 0 {
        let rest = s.drop_last();
        lemma_link_ranges_ordered(rest);
        let before = link_ranges(rest);
        assert(total_len(s) == total_len(rest) + layout_len(s.last()));
        if layout_style(s.last()) == Style::Link {
            let r = link_ranges(s);
            assert(r == before.push((total_len(rest) as int, total_len(s) as int)));
            assert forall|i: int| 0 <= i < r.len() implies 0 <= #[trigger] r[i].0 <= r[i].1 <= total_len(s) by {
                if i < before.len() {
                    assert(r[i] == before[i]);
                    assert(0 <= before[i].0 <= before[i].1 <= total_len(rest));
                }
            }
            assert forall|i: int, j: int| 0 <= i < j < r.len() implies #[trigger] r[i].1 <= #[trigger] r[j].0 by {
                assert(r[i] == before[i]);
                assert(0 <= before[i].0 <= before[i].1 <= total_len(rest));
                if j < before.len() {
                    assert(r[j] == before[j]);
                    assert(before[i].1 <= before[j].0);
                }
            }
        } else {
            assert forall|i: int| 0 <= i < before.len() implies 0 <= #[trigger] before[i].0 <= before[i].1 <= total_len(s) by {
                assert(0 <= before[i].0 <= before[i].1 <= total_len(rest));
            }
        }
    }
}

} // verus!
