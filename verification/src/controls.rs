//! Keyboard and scrolling controls, page buttons, colours and fonts of the
//! desktop views.
use vstd::prelude::*;
use crate::navigation::{Content, ContentView};
use crate::types::ArticleType;

verus! {

/// The panes of the main window.
#[derive(Debug, Copy, Clone, PartialEq, Eq, Structural)]
pub enum PaneState {
    Articles,
    Content,
}

/// A scrolling request.
#[derive(Debug, Copy, Clone, PartialEq, Eq, Structural)]
pub enum ScrollBy {
    PageUp,
    PageDown,
    LineUp,
    LineDown,
    Top,
    Bottom,
}

/// How a scrollable moves: by a number of pixels (up when negative), or
/// to one of its ends.
#[derive(Debug, Copy, Clone, PartialEq, Eq, Structural)]
pub enum ScrollMove {
    By(i32),
    ToTop,
    ToBottom,
}

/// How far a scrolling request moves: a page is 500 pixels, a line 10.
pub open spec fn movement_of(by: ScrollBy) -> ScrollMove {
    match by {
        ScrollBy::PageUp => ScrollMove::By(-500i32),
        ScrollBy::PageDown => ScrollMove::By(500i32),
        ScrollBy::LineUp => ScrollMove::By(-10i32),
        ScrollBy::LineDown => ScrollMove::By(10i32),
        ScrollBy::Top => ScrollMove::ToTop,
        ScrollBy::Bottom => ScrollMove::ToBottom,
    }
}

impl ScrollBy {
    /// How far this request moves.
    pub fn movement(self) -> (r: ScrollMove)
        ensures
            r == movement_of(self),
    {
        match self {
            ScrollBy::PageUp => ScrollMove::By(-500),
            ScrollBy::PageDown => ScrollMove::By(500),
            ScrollBy::LineUp => ScrollMove::By(-10),
            ScrollBy::LineDown => ScrollMove::By(10),
            ScrollBy::Top => ScrollMove::ToTop,
            ScrollBy::Bottom => ScrollMove::ToBottom,
        }
    }
}

/// The scrollable a scrolling request goes to: that of the content pane,
/// or the story list when the pane is empty.
pub fn scroll_target<S>(content: &Content<S>) -> (r: &'static str)
    ensures
        r@ == match content@ {
            ContentView::Comment(_) => "comments"@,
            ContentView::Search(_) => "full_search"@,
            ContentView::Empty(_) => "articles"@,
        },
{
    match content {
        Content::Comment(_) => "comments",
        Content::Search(_) => "full_search",
        Content::Empty(_) => "articles",
    }
}

/// The named keys the main window reacts to.
#[derive(Debug, Copy, Clone, PartialEq, Eq, Structural)]
pub enum NamedKey {
    Escape,
    PageUp,
    PageDown,
    ArrowUp,
    ArrowDown,
    Home,
    End,
    Tab,
    Other,
}

/// A key pressed: a named key, the first character typed, or neither.
#[derive(Debug, Copy, Clone, PartialEq, Eq, Structural)]
pub enum KeyPress {
    Named(NamedKey),
    Character(char),
    Unidentified,
}

/// What a key press asks the main window to do.
#[derive(Debug, Copy, Clone, PartialEq, Eq, Structural)]
pub enum KeyAction {
    CloseSearch,
    ScrollBy(ScrollBy),
    PrevInput,
    NextInput,
    IncreaseScale,
    DecreaseScale,
    ResetScale,
}

/// What a key press does, with `shift` and `control` held or not.
pub open spec fn key_action_of(key: KeyPress, shift: bool, control: bool) -> Option<KeyAction> {
    match key {
        KeyPress::Named(named) => match named {
            NamedKey::Escape => Some(KeyAction::CloseSearch),
            NamedKey::PageUp => Some(KeyAction::ScrollBy(ScrollBy::PageUp)),
            NamedKey::PageDown => Some(KeyAction::ScrollBy(ScrollBy::PageDown)),
            NamedKey::ArrowUp => Some(KeyAction::ScrollBy(ScrollBy::LineUp)),
            NamedKey::ArrowDown => Some(KeyAction::ScrollBy(ScrollBy::LineDown)),
            NamedKey::Home => Some(KeyAction::ScrollBy(ScrollBy::Top)),
            NamedKey::End => Some(KeyAction::ScrollBy(ScrollBy::Bottom)),
            NamedKey::Tab => Some(if shift { KeyAction::PrevInput } else { KeyAction::NextInput }),
            NamedKey::Other => None,
        },
        KeyPress::Character(c) => if control && c == '+' {
            Some(KeyAction::IncreaseScale)
        } else if control && c == '-' {
            Some(KeyAction::DecreaseScale)
        } else if control && c == '=' {
            Some(KeyAction::ResetScale)
        } else {
            None
        },
        KeyPress::Unidentified => None,
    }
}

/// What a key press does in the main window.
pub fn key_action(key: KeyPress, shift: bool, control: bool) -> (r: Option<KeyAction>)
    ensures
        r == key_action_of(key, shift, control),
{
    match key {
        KeyPress::Named(named) => match named {
            NamedKey::Escape => Some(KeyAction::CloseSearch),
            NamedKey::PageUp => Some(KeyAction::ScrollBy(ScrollBy::PageUp)),
            NamedKey::PageDown => Some(KeyAction::ScrollBy(ScrollBy::PageDown)),
            NamedKey::ArrowUp => Some(KeyAction::ScrollBy(ScrollBy::LineUp)),
            NamedKey::ArrowDown => Some(KeyAction::ScrollBy(ScrollBy::LineDown)),
            NamedKey::Home => Some(KeyAction::ScrollBy(ScrollBy::Top)),
            NamedKey::End => Some(KeyAction::ScrollBy(ScrollBy::Bottom)),
            NamedKey::Tab => Some(if shift { KeyAction::PrevInput } else { KeyAction::NextInput }),
            NamedKey::Other => None,
        },
        KeyPress::Character(c) => {
            if control && c == '+' {
                Some(KeyAction::IncreaseScale)
            } else if control && c == '-' {
                Some(KeyAction::DecreaseScale)
            } else if control && c == '=' {
                Some(KeyAction::ResetScale)
            } else {
                None
            }
        },
        KeyPress::Unidentified => None,
    }
}

/// The scrolling a key of the dashboard asks for, by the key's name.
pub open spec fn key_scroll_of(key: Seq<char>) -> Option<ScrollBy> {
    if key == "home"@ {
        Some(ScrollBy::Top)
    } else if key == "end"@ {
        Some(ScrollBy::Bottom)
    } else if key == "pageup"@ {
        Some(ScrollBy::PageUp)
    } else if key == "pagedown"@ {
        Some(ScrollBy::PageDown)
    } else if key == "up"@ {
        Some(ScrollBy::LineUp)
    } else if key == "down"@ {
        Some(ScrollBy::LineDown)
    } else {
        None
    }
}

/// The scrolling a key of the dashboard asks for: home and end go to the
/// ends, page keys by the height of the view, arrows by a line.
pub fn key_scroll(key: &str) -> (r: Option<ScrollBy>)
    ensures
        r == key_scroll_of(key@),
{
    if crate::text::str_eq(key, "home") {
        Some(ScrollBy::Top)
    } else if crate::text::str_eq(key, "end") {
        Some(ScrollBy::Bottom)
    } else if crate::text::str_eq(key, "pageup") {
        Some(ScrollBy::PageUp)
    } else if crate::text::str_eq(key, "pagedown") {
        Some(ScrollBy::PageDown)
    } else if crate::text::str_eq(key, "up") {
        Some(ScrollBy::LineUp)
    } else if crate::text::str_eq(key, "down") {
        Some(ScrollBy::LineDown)
    } else {
        None
    }
}

/// The page buttons under a paged list.
#[derive(Debug, Copy, Clone, PartialEq, Eq, Structural)]
pub struct Pagination {
    /// Number of page buttons, pages numbered from 1.
    pub pages: usize,
    /// Whether the back button is enabled.
    pub back: bool,
    /// Whether the forward button is enabled.
    pub forward: bool,
}

/// The page buttons for `full_count` items, ten per page, on `current_page`:
/// one button per page started, back from the second page on, forward
/// while the page is no further than the count's tens.
pub open spec fn pagination_of(full_count: usize, current_page: usize) -> Pagination {
    Pagination {
        pages: if full_count % 10 > 0 { (full_count / 10 + 1) as usize } else { full_count / 10 },
        back: current_page > 1,
        forward: current_page < full_count / 10 + 1,
    }
}

/// The page buttons for `full_count` items on `current_page`.
pub fn pagination(full_count: usize, current_page: usize) -> (r: Pagination)
    ensures
        r == pagination_of(full_count, current_page),
{
    let div = full_count / 10;
    let rem = full_count % 10;
    let pages = if rem > 0 { div + 1 } else { div };
    Pagination { pages, back: current_page > 1, forward: current_page <= div }
}

/// The current selection for article category and total
#[derive(Debug, Copy, Clone, PartialEq, Eq, Structural)]
pub struct ArticleSelection {
    /// Article category.
    pub viewing_article_type: ArticleType,
    /// Total articles to view.
    pub viewing_article_total: usize,
}

/// Simple themes
#[derive(Debug, Copy, Clone, PartialEq, Eq, Structural)]
pub enum Theme {
    Dark,
    Light,
}

/// How the window looks as the platform reports it.
#[derive(Debug, Copy, Clone, PartialEq, Eq, Structural)]
pub enum Appearance {
    Light,
    VibrantLight,
    Dark,
    VibrantDark,
}

impl Theme {
    /// The theme for a window appearance: light for both light ones, dark
    /// for both dark ones.
    pub fn from_appearance(appearance: Appearance) -> (r: Theme)
        ensures
            r == (if appearance == Appearance::Light || appearance == Appearance::VibrantLight {
                Theme::Light
            } else {
                Theme::Dark
            }),
    {
        match appearance {
            Appearance::Light => Theme::Light,
            Appearance::VibrantLight => Theme::Light,
            Appearance::Dark => Theme::Dark,
            Appearance::VibrantDark => Theme::Dark,
        }
    }

    /// Background colour, as `0xRRGGBB`.
    pub fn bg(&self) -> (r: u32)
        ensures
            r == (if *self == Theme::Dark { 0x121212u32 } else { 0xb3b3b3u32 }),
    {
        match self {
            Theme::Dark => 0x121212,
            Theme::Light => 0xb3b3b3,
        }
    }

    /// Text colour, as `0xRRGGBB`.
    pub fn text_color(&self) -> (r: u32)
        ensures
            r == (if *self == Theme::Dark { 0xbfbfbfu32 } else { 0x444444u32 }),
    {
        match self {
            Theme::Dark => 0xbfbfbf,
            Theme::Light => 0x444444,
        }
    }

    /// Colour of a hovered element, as `0xRRGGBB`.
    pub fn hover(&self) -> (r: u32)
        ensures
            r == (if *self == Theme::Dark { 0x2A2A2Au32 } else { 0xe0e4ebu32 }),
    {
        match self {
            Theme::Dark => 0x2A2A2A,
            Theme::Light => 0xe0e4eb,
        }
    }

    /// Colour of a count that went up, as `0xRRGGBB`.
    pub fn text_increasing(&self) -> (r: u32)
        ensures
            r == (if *self == Theme::Dark { 0x57e389u32 } else { 0x15803Du32 }),
    {
        match self {
            Theme::Dark => 0x57e389,
            Theme::Light => 0x15803D,
        }
    }

    /// Colour of a count that went down, as `0xRRGGBB`.
    pub fn text_decreasing(&self) -> (r: u32)
        ensures
            r == (if *self == Theme::Dark { 0xed333bu32 } else { 0xd70000u32 }),
    {
        match self {
            Theme::Dark => 0xed333b,
            Theme::Light => 0xd70000,
        }
    }

    /// Surface colour, as `0xRRGGBB`.
    pub fn surface(&self) -> (r: u32)
        ensures
            r == (if *self == Theme::Dark { 0x1e1e1eu32 } else { 0xeeeeeeu32 }),
    {
        match self {
            Theme::Dark => 0x1e1e1e,
            Theme::Light => 0xeeeeee,
        }
    }

    /// Border colour, as `0xRRGGBB`.
    pub fn border(&self) -> (r: u32)
        ensures
            r == (if *self == Theme::Dark { 0x3a3a3au32 } else { 0xb5bfc9u32 }),
    {
        match self {
            Theme::Dark => 0x3a3a3a,
            Theme::Light => 0xb5bfc9,
        }
    }

    /// Border colour of a comment, as `0xRRGGBB`.
    pub fn comment_border(&self) -> (r: u32)
        ensures
            r == (if *self == Theme::Dark { 0xb36b00u32 } else { 0xff9900u32 }),
    {
        match self {
            Theme::Dark => 0xb36b00,
            Theme::Light => 0xff9900,
        }
    }
}

/// Weight of a font.
#[derive(Debug, Copy, Clone, PartialEq, Eq, Structural)]
pub enum Weight {
    Light,
    Normal,
    Bold,
}

/// Style of a font.
#[derive(Debug, Copy, Clone, PartialEq, Eq, Structural)]
pub enum FontStyle {
    Normal,
    Italic,
}

/// A font: its family by name, weight and style.
#[derive(Debug, Copy, Clone)]
pub struct Font {
    pub family: &'static str,
    pub weight: Weight,
    pub style: FontStyle,
}

/// Font extension trait.
pub trait FontExt: Sized {
    /// Bold font.
    fn bold(self) -> Self;
    /// Italic font.
    fn italic(self) -> Self;
    /// Light weight.
    fn weight_light(self) -> Self;
}

impl FontExt for Font {
    fn bold(self) -> (r: Self)
        ensures
            r == (Font { weight: Weight::Bold, ..self }),
    {
        Font { weight: Weight::Bold, ..self }
    }

    fn italic(self) -> (r: Self)
        ensures
            r == (Font { style: FontStyle::Italic, ..self }),
    {
        Font { style: FontStyle::Italic, ..self }
    }

    fn weight_light(self) -> (r: Self)
        ensures
            r == (Font { weight: Weight::Light, ..self }),
    {
        Font { weight: Weight::Light, ..self }
    }
}

} // verus!
