use hacker_news::styled::{create_text_view, TextTag};
use hacker_news::highlight::{split_search, SearchSpanIter};
use hacker_news::rich_text::{
    parse_layout, push_or_merge, strip_text, url_ranges, Anchor, Attribute, Element, Style, TextLayout,
};

fn spans(text: &str, search: Option<&str>) -> Vec<(String, bool)> {
    split_search(text, search).into_iter().map(|s| (s.text, s.highlighted)).collect()
}

#[test]
fn layout_lengths_and_styles() {
    assert_eq!(TextLayout::Bold(4).len(), 4);
    assert_eq!(TextLayout::Code(7).len(), 7);
    assert_eq!(TextLayout::new(Style::Link, 3), TextLayout::Link(3));
    assert_eq!(TextLayout::Italic(2).style(), Style::Italic);
}

#[test]
fn push_or_merge_merges_runs() {
    let mut layout = Vec::new();
    push_or_merge(&mut layout, Style::Normal, 3);
    push_or_merge(&mut layout, Style::Normal, 2);
    push_or_merge(&mut layout, Style::Bold, 4);
    push_or_merge(&mut layout, Style::Normal, 1);
    assert_eq!(layout, vec![TextLayout::Normal(5), TextLayout::Bold(4), TextLayout::Normal(1)]);
}

#[test]
fn url_ranges_follow_link_segments() {
    let layouts = [TextLayout::Normal(5), TextLayout::Link(10), TextLayout::Bold(3), TextLayout::Link(4)];
    assert_eq!(url_ranges(&layouts), vec![5..15, 18..22]);
    assert_eq!(url_ranges(&[TextLayout::Normal(3)]), vec![]);
    assert_eq!(url_ranges(&[]), vec![]);
}

#[test]
fn strip_text_keeps_final_newline() {
    assert_eq!(strip_text("a\nb\nc"), "abc");
    assert_eq!(strip_text("ab\n"), "ab\n");
    assert_eq!(strip_text("a\n\n"), "a\n");
    assert_eq!(strip_text(""), "");
}

#[test]
fn parse_layout_collects_styles_and_links() {
    let elements = vec![
        Element::Text(String::from("Hello ")),
        Element::Bold(vec![Element::Text(String::from("bold"))]),
        Element::Paragraph,
        Element::Link(Anchor {
            attributes: vec![Attribute { name: String::from("href"), value: String::from("https://example.com") }],
            children: String::from("site"),
        }),
        Element::Escaped('&'),
        Element::Code(String::from("x = 1")),
        Element::Italic(vec![Element::Text(String::from("é"))]),
    ];
    let parsed = parse_layout(&elements);
    assert_eq!(parsed.text, "Hello bold\nsite&x = 1é");
    assert_eq!(
        parsed.layout,
        vec![
            TextLayout::Normal(6),
            TextLayout::Bold(4),
            TextLayout::Normal(1),
            TextLayout::Link(4),
            TextLayout::Normal(1),
            TextLayout::Code(5),
            TextLayout::Italic(2),
        ]
    );
    assert_eq!(parsed.urls, vec![String::from("https://example.com")]);
    assert_eq!(url_ranges(&parsed.layout), vec![11..15]);
    let total: usize = parsed.layout.iter().map(|l| l.len()).sum();
    assert_eq!(total, parsed.text.len());
    assert_eq!(&parsed.text[11..15], "site");
    assert_eq!(url_ranges(&parsed.layout).len(), parsed.urls.len());
}

#[test]
fn links_without_text_show_their_target_decoded() {
    let elements = vec![Element::Link(Anchor {
        attributes: vec![
            Attribute { name: String::from("rel"), value: String::from("nofollow") },
            Attribute { name: String::from("href"), value: String::from("https://xn--bcher-kva.example/") },
        ],
        children: String::new(),
    })];
    let parsed = parse_layout(&elements);
    assert_eq!(parsed.text, "https://bücher.example/");
    assert_eq!(parsed.layout, vec![TextLayout::Link("https://bücher.example/".len())]);
    assert_eq!(parsed.urls, vec![String::from("https://xn--bcher-kva.example/")]);
}

#[test]
fn links_without_href_are_dropped() {
    let elements = vec![
        Element::Link(Anchor { attributes: vec![], children: String::from("x") }),
        Element::Text(String::from("y")),
    ];
    let parsed = parse_layout(&elements);
    assert_eq!(parsed.text, "y");
    assert_eq!(parsed.layout, vec![TextLayout::Normal(1)]);
    assert!(parsed.urls.is_empty());
}

#[test]
fn search_spans_highlight_matches() {
    assert_eq!(
        spans("rust is rusty", Some("rust")),
        vec![
            (String::from("rust"), true),
            (String::from(" is "), false),
            (String::from("rust"), true),
            (String::from("y"), false),
        ]
    );
    assert_eq!(spans("abc", None), vec![(String::from("abc"), false)]);
    assert_eq!(spans("abc", Some("x")), vec![(String::from("abc"), false)]);
    assert_eq!(spans("aaa", Some("aa")), vec![(String::from("aa"), true), (String::from("a"), false)]);
}

#[test]
fn search_spans_join_to_the_text() {
    let text = "the quick brown the fox the";
    let joined: String = split_search(text, Some("the")).into_iter().map(|s| s.text).collect();
    assert_eq!(joined, text);
}

#[test]
fn span_iterator_matches_split_search() {
    let iter = SearchSpanIter::new("a b a", Some("a"));
    let got: Vec<(String, bool)> = iter.spans().into_iter().map(|s| (s.text, s.highlighted)).collect();
    let mut expected = spans("a b a", Some("a"));
    expected.push((String::new(), false));
    assert_eq!(got, expected);
    let plain = SearchSpanIter::new("plain", None);
    let got: Vec<(String, bool)> = plain.spans().into_iter().map(|s| (s.text, s.highlighted)).collect();
    assert_eq!(got, vec![(String::from("plain"), false)]);
}

fn runs(elements: &Vec<Element>, search: Option<&str>, oneline: bool) -> Vec<(String, bool, bool, bool, Option<String>, bool)> {
    hacker_news::styled::render_rich_text(elements, search, oneline)
        .into_iter()
        .map(|r| (r.text, r.bold, r.italic, r.mono, r.link, r.highlighted))
        .collect()
}

#[test]
fn styled_runs_of_a_body() {
    let elements = vec![
        Element::Text(String::from("a rust b")),
        Element::Paragraph,
        Element::Italic(vec![
            Element::Text(String::from("it")),
            Element::Bold(vec![Element::Text(String::from("both")), Element::Code(String::from("dropped"))]),
            Element::Italic(vec![Element::Text(String::from("dropped too"))]),
        ]),
        Element::Code(String::from("let rust")),
        Element::Link(Anchor {
            attributes: vec![Attribute { name: String::from("href"), value: String::from("https://x.example") }],
            children: String::new(),
        }),
        Element::Escaped('>'),
    ];
    let s = |t: &str| String::from(t);
    assert_eq!(
        runs(&elements, Some("rust"), false),
        vec![
            (s("a "), false, false, false, None, false),
            (s("rust"), false, false, false, None, true),
            (s(" b"), false, false, false, None, false),
            (s("\n\n"), false, false, false, None, false),
            (s("it"), false, true, false, None, false),
            (s("both"), true, true, false, None, false),
            (s("let "), false, false, true, None, false),
            (s("rust"), false, false, true, None, true),
            (s("https://x.example"), false, false, false, Some(s("https://x.example")), false),
            (s(">"), false, false, false, None, false),
        ]
    );
    assert_eq!(runs(&elements, Some("rust"), true).len(), 3);
    let plain = runs(&elements, None, true);
    assert_eq!(plain, vec![(s("a rust b"), false, false, false, None, false)]);
}

#[test]
fn text_buffer_tags() {
    let elements = vec![
        Element::Text(String::from("é ")),
        Element::Code(String::from("x")),
        Element::Paragraph,
        Element::Bold(vec![Element::Text(String::from("b")), Element::Code(String::from("gone")), Element::Escaped('&')]),
        Element::Link(Anchor { attributes: vec![], children: String::from("lnk") }),
    ];
    let buffer = create_text_view(&elements);
    assert_eq!(buffer.text, "é x\n\nb&lnk");
    assert_eq!(buffer.tags, vec![(TextTag::Code, 2, 3), (TextTag::Bold, 5, 7), (TextTag::Link, 7, 10)]);
}

#[test]
fn escaped_characters_count_their_bytes() {
    let parsed = parse_layout(&vec![Element::Escaped('é'), Element::Escaped('>')]);
    assert_eq!(parsed.text, "é>");
    assert_eq!(parsed.layout, vec![TextLayout::Normal(3)]);
    let parsed = parse_layout(&vec![Element::Text(String::from("é")), Element::Escaped('é')]);
    assert_eq!(parsed.text, "éé");
    assert_eq!(parsed.layout, vec![TextLayout::Normal(4)]);
    assert_eq!(parsed.text.len(), 4);
    let parsed = parse_layout(&vec![Element::Escaped('€'), Element::Escaped('😀')]);
    assert_eq!(parsed.layout, vec![TextLayout::Normal(7)]);
}

#[test]
fn highlighted_spans_count_the_matches() {
    let all = SearchSpanIter::new("abcabcab", Some("bc")).spans();
    assert_eq!(all.iter().filter(|s| s.highlighted).count(), 2);
    assert!(all.len() <= 2 * 2 + 1);
    let none = SearchSpanIter::new("abc", Some("x")).spans();
    assert_eq!(none.iter().filter(|s| s.highlighted).count(), 0);
    assert_eq!(none.len(), 1);
    let plain = SearchSpanIter::new("abc", None).spans();
    assert_eq!(plain.len(), 1);
}

#[test]
fn url_ranges_of_joined_layouts() {
    let a = vec![TextLayout::Normal(3), TextLayout::Link(4)];
    let b = vec![TextLayout::Link(2), TextLayout::Bold(1), TextLayout::Link(5)];
    let joined = [a.clone(), b.clone()].concat();
    let mut expected = url_ranges(&a);
    expected.extend(url_ranges(&b).into_iter().map(|r| (r.start + 7)..(r.end + 7)));
    assert_eq!(url_ranges(&joined), expected);
    assert_eq!(url_ranges(&[]), vec![]);
}

#[test]
fn push_or_merge_adds_the_length() {
    let mut layout = vec![TextLayout::Normal(2), TextLayout::Bold(3)];
    push_or_merge(&mut layout, Style::Bold, 4);
    assert_eq!(layout, vec![TextLayout::Normal(2), TextLayout::Bold(7)]);
    push_or_merge(&mut layout, Style::Normal, 1);
    assert_eq!(layout, vec![TextLayout::Normal(2), TextLayout::Bold(7), TextLayout::Normal(1)]);
    let total: usize = layout.iter().map(|l| l.len()).sum();
    assert_eq!(total, 10);
}

#[test]
fn link_ranges_hold_the_shown_links() {
    let link = |href: &str, text: &str| {
        Element::Link(Anchor {
            attributes: vec![Attribute { name: String::from("href"), value: String::from(href) }],
            children: String::from(text),
        })
    };
    let parsed = parse_layout(&vec![
        Element::Text(String::from("é see ")),
        link("https://xn--bcher-kva.example/a", ""),
        Element::Escaped('€'),
        link("https://example.com/b", "here"),
    ]);
    let ranges = url_ranges(&parsed.layout);
    assert_eq!(ranges.len(), 2);
    assert_eq!(&parsed.text[ranges[0].clone()], "https://bücher.example/a");
    assert_eq!(&parsed.text[ranges[1].clone()], "here");
    assert_eq!(parsed.urls, vec![String::from("https://xn--bcher-kva.example/a"), String::from("https://example.com/b")]);
    let total: usize = parsed.layout.iter().map(|l| l.len()).sum();
    assert_eq!(total, parsed.text.len());
}
