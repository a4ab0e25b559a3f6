//! The single window reader: its categories, filters, the state its
//! widgets edit, and the settings it saves between runs (the visited
//! stories as comma separated ids, the number of stories shown and the
//! category).
use vstd::prelude::*;
use vstd::string::*;
use crate::search::{all_digits, digits_value, parse_u64, parse_u64_of};
use crate::text::{decimal_digits, digit_char, push_char, push_decimal_u64};
use crate::types::{Item, User};

verus! {

/// Story categories of the reader.
#[derive(Debug, PartialEq, Eq, Structural, Copy, Clone, Hash)]
pub enum ArticleType {
    New,
    Best,
    Top,
    Ask,
    Show,
    Job,
}

/// The name of a category.
pub open spec fn category_name(t: ArticleType) -> Seq<char> {
    match t {
        ArticleType::New => "New"@,
        ArticleType::Best => "Best"@,
        ArticleType::Top => "Top"@,
        ArticleType::Ask => "Ask"@,
        ArticleType::Show => "Show"@,
        ArticleType::Job => "Job"@,
    }
}

/// The category a saved name reads as: only the new, best and top
/// stories are read back.
pub open spec fn category_of_name(s: Seq<char>) -> Option<ArticleType> {
    if s == "New"@ {
        Some(ArticleType::New)
    } else if s == "Best"@ {
        Some(ArticleType::Best)
    } else if s == "Top"@ {
        Some(ArticleType::Top)
    } else {
        None
    }
}

impl ArticleType {
    /// The name of the category.
    pub fn as_str(&self) -> (r: &'static str)
        ensures
            r@ == category_name(*self),
    {
        match self {
            ArticleType::New => "New",
            ArticleType::Best => "Best",
            ArticleType::Top => "Top",
            ArticleType::Ask => "Ask",
            ArticleType::Show => "Show",
            ArticleType::Job => "Job",
        }
    }

    /// Reads a saved category name.
    pub fn parse(s: &str) -> (r: Result<ArticleType, ()>)
        ensures
            match r {
                Ok(t) => category_of_name(s@) == Some(t),
                Err(_) => category_of_name(s@) is None,
            },
    {
        if crate::text::str_eq(s, "New") {
            Ok(ArticleType::New)
        } else if crate::text::str_eq(s, "Best") {
            Ok(ArticleType::Best)
        } else if crate::text::str_eq(s, "Top") {
            Ok(ArticleType::Top)
        } else {
            Err(())
        }
    }
}

impl std::str::FromStr for ArticleType {
    type Err = ();

    fn from_str(s: &str) -> (r: Result<Self, Self::Err>)
        ensures
            match category_of_name(s@) {
                Some(t) => r == Ok::<ArticleType, ()>(t),
                None => r is Err,
            },
    {
        ArticleType::parse(s)
    }
}

/// Article filters.
#[derive(Debug, Eq, PartialEq, Structural, Hash, Copy, Clone)]
pub enum Filter {
    Jobs,
    Stories,
    Polls,
    Visisted,
}

/// Turns `filter` off when it is on and on when it is off; the filters on
/// are kept without repeats.
pub fn toggle_filter(filters: &mut Vec<Filter>, filter: Filter)
    requires
        old(filters)@.no_duplicates(),
    ensures
        final(filters)@.no_duplicates(),
        forall|f: Filter| #[trigger] final(filters)@.contains(f) == if f == filter {
            !old(filters)@.contains(f)
        } else {
            old(filters)@.contains(f)
        },
{
    let mut i: usize = 0;
    while i < filters.len()
        invariant
            i <= filters@.len(),
            filters@ == old(filters)@,
            old(filters)@.no_duplicates(),
            forall|j: int| 0 <= j < i ==> filters@[j] != filter,
        decreases filters@.len() - i,
    {
        if filters[i] == filter {
            let ghost before = filters@;
            filters.remove(i);
            proof {
                assert(filters@ =~= before.remove(i as int));
                assert forall|a: int, b: int| 0 <= a < b < filters@.len() implies filters@[a] != filters@[b] by {
                    let a0 = if a < i { a } else { a + 1 };
                    let b0 = if b < i { b } else { b + 1 };
                    assert(before[a0] != before[b0]);
                }
                assert forall|f: Filter| #[trigger] filters@.contains(f) == if f == filter {
                    !before.contains(f)
                } else {
                    before.contains(f)
                } by {
                    if f == filter {
                        assert(before.contains(f)) by {
                            assert(before[i as int] == f);
                        }
                        if filters@.contains(f) {
                            let k = choose|k: int| 0 <= k < filters@.len() && filters@[k] == f;
                            if k < i {
                                assert(before[k] == f);
                                assert(before[k] != before[i as int]);
                            } else {
                                assert(before[k + 1] == f);
                                assert(before[k + 1] != before[i as int]);
                            }
                        }
                    } else {
                        if before.contains(f) {
                            let k = choose|k: int| 0 <= k < before.len() && before[k] == f;
                            if k < i {
                                assert(filters@[k] == f);
                            } else {
                                assert(filters@[k - 1] == f);
                            }
                        }
                        if filters@.contains(f) {
                            let k = choose|k: int| 0 <= k < filters@.len() && filters@[k] == f;
                            if k < i {
                                assert(before[k] == f);
                            } else {
                                assert(before[k + 1] == f);
                            }
                        }
                    }
                }
            }
            return;
        }
        i = i + 1;
    }
    let ghost before = filters@;
    filters.push(filter);
    proof {
        assert forall|a: int, b: int| 0 <= a < b < filters@.len() implies filters@[a] != filters@[b] by {
            if b == before.len() {
                assert(before[a] != filter);
            } else {
                assert(before[a] != before[b]);
            }
        }
        assert forall|f: Filter| #[trigger] filters@.contains(f) == if f == filter {
            !before.contains(f)
        } else {
            before.contains(f)
        } by {
            if f == filter {
                assert(filters@[before.len() as int] == f);
                if before.contains(f) {
                    let k = choose|k: int| 0 <= k < before.len() && before[k] == f;
                    assert(false);
                }
            } else {
                if before.contains(f) {
                    let k = choose|k: int| 0 <= k < before.len() && before[k] == f;
                    assert(filters@[k] == f);
                }
                if filters@.contains(f) {
                    let k = choose|k: int| 0 <= k < filters@.len() && filters@[k] == f;
                    assert(k < before.len());
                    assert(before[k] == f);
                }
            }
        }
    }
}

/// The comments listed under one parent in the comment windows; `id`
/// tells the windows apart.
#[derive(Debug)]
pub struct CommentItem<I> {
    /// Sub comments.
    pub comments: Vec<Item>,
    /// parent of sub comment
    pub parent: Option<Item>,
    /// Id for widget uniqueness.
    pub id: I,
}

/// The view of a comment window: its comments, parent and id.
pub type TrailView<I> = (Seq<Item>, Option<Item>, I);

impl<I> View for CommentItem<I> {
    type V = TrailView<I>;

    open spec fn view(&self) -> TrailView<I> {
        (self.comments@, self.parent, self.id)
    }
}

/// The view of the comment windows opened so far.
pub open spec fn trail_view<I>(v: Seq<CommentItem<I>>) -> Seq<TrailView<I>> {
    Seq::new(v.len(), |i: int| v[i]@)
}

/// Events the reader handles, from the network or from its widgets.
#[derive(Debug)]
pub enum ReaderEvent<I> {
    Articles { ty: ArticleType, items: Vec<Item> },
    Comments { items: Vec<Item>, parent: Option<Item>, id: I },
    Error(String),
    User(User),
    FetchUser(String),
    FetchComments { ids: Vec<u64>, parent: Option<Item>, id: I, active_item: Option<Item> },
    Visited(u64),
    FetchArticles { article_type: ArticleType, total: usize },
    ShowItemText(Item),
    ToggleFilter(Filter),
    ResetVisited,
    ToggleOpenSearch,
}

/// What the reader asks its host to do.
#[derive(Debug)]
pub enum ReaderTask<I> {
    Nothing,
    /// Fetch the user with this handle and hand it over as `User`.
    FetchUser(String),
    /// Fetch these comments and hand them over as `Comments`.
    FetchComments { ids: Vec<u64>, parent: Option<Item>, id: I },
    /// Fetch `total` stories of the category and hand them over as
    /// `Articles`.
    FetchArticles { article_type: ArticleType, total: usize },
    /// The stories were replaced: record the time of the update.
    Updated,
}

/// State of the reader.
#[derive(Debug)]
pub struct ReaderState<I> {
    pub articles: Vec<Item>,
    pub fetching: bool,
    pub showing: usize,
    pub visited: Vec<u64>,
    pub comments: Vec<Item>,
    pub comment_trail: Vec<CommentItem<I>>,
    pub active_item: Option<Item>,
    pub error: Option<String>,
    pub article_type: ArticleType,
    pub viewing_comments: Vec<bool>,
    pub user: Option<User>,
    pub viewing_user: bool,
    pub viewing_item_text: bool,
    pub filters: Vec<Filter>,
    pub search_open: bool,
}

/// The view of the reader state.
pub struct ReaderView<I> {
    pub articles: Seq<Item>,
    pub fetching: bool,
    pub showing: usize,
    pub visited: Seq<u64>,
    pub comments: Seq<Item>,
    pub trail: Seq<TrailView<I>>,
    pub active_item: Option<Item>,
    pub error: Option<Seq<char>>,
    pub article_type: ArticleType,
    pub viewing_comments: Seq<bool>,
    pub user: Option<User>,
    pub viewing_user: bool,
    pub viewing_item_text: bool,
    pub filters: Seq<Filter>,
    pub search_open: bool,
}

impl<I> View for ReaderState<I> {
    type V = ReaderView<I>;

    open spec fn view(&self) -> ReaderView<I> {
        ReaderView {
            articles: self.articles@,
            fetching: self.fetching,
            showing: self.showing,
            visited: self.visited@,
            comments: self.comments@,
            trail: trail_view(self.comment_trail@),
            active_item: self.active_item,
            error: match self.error {
                Some(e) => Some(e@),
                None => None,
            },
            article_type: self.article_type,
            viewing_comments: self.viewing_comments@,
            user: self.user,
            viewing_user: self.viewing_user,
            viewing_item_text: self.viewing_item_text,
            filters: self.filters@,
            search_open: self.search_open,
        }
    }
}

/// Whether the filters `after` are those of `before` with `filter`
/// turned off if it was on and on if it was off.
pub open spec fn toggled(before: Seq<Filter>, after: Seq<Filter>, filter: Filter) -> bool {
    &&& after.no_duplicates()
    &&& forall|f: Filter| #[trigger] after.contains(f) == if f == filter {
        !before.contains(f)
    } else {
        before.contains(f)
    }
}

/// How the reader handles an event, but for the filters, which `toggled`
/// describes: the state that follows.
pub open spec fn reader_step<I>(st: ReaderView<I>, ev: ReaderEvent<I>) -> ReaderView<I> {
    match ev {
        ReaderEvent::Articles { ty, items } => ReaderView {
            showing: items@.len() as usize,
            articles: items@,
            error: None,
            article_type: ty,
            fetching: false,
            ..st
        },
        ReaderEvent::Comments { items, parent, id } => match parent {
            Some(_) => ReaderView {
                trail: st.trail.push((items@, parent, id)),
                viewing_comments: st.viewing_comments.push(true),
                error: None,
                fetching: false,
                ..st
            },
            None => ReaderView {
                trail: seq![(items@, parent, id)],
                viewing_comments: seq![true],
                error: None,
                fetching: false,
                ..st
            },
        },
        ReaderEvent::Error(e) => ReaderView { fetching: false, error: Some(e@), ..st },
        ReaderEvent::User(u) => ReaderView { fetching: false, viewing_user: true, user: Some(u), ..st },
        ReaderEvent::FetchUser(_) => ReaderView { fetching: true, ..st },
        ReaderEvent::FetchComments { active_item, .. } => match active_item {
            Some(item) => ReaderView {
                fetching: true,
                comments: Seq::empty(),
                visited: st.visited.push(item.id),
                active_item: Some(item),
                ..st
            },
            None => ReaderView { fetching: true, ..st },
        },
        ReaderEvent::Visited(id) => ReaderView { visited: st.visited.push(id), ..st },
        ReaderEvent::FetchArticles { .. } => ReaderView { fetching: true, ..st },
        ReaderEvent::ShowItemText(item) => ReaderView {
            visited: st.visited.push(item.id),
            active_item: Some(item),
            viewing_item_text: true,
            ..st
        },
        ReaderEvent::ToggleFilter(_) => st,
        ReaderEvent::ResetVisited => ReaderView { visited: Seq::empty(), ..st },
        ReaderEvent::ToggleOpenSearch => ReaderView { search_open: !st.search_open, ..st },
    }
}

impl<I> ReaderState<I> {
    /// Handles an event; the returned task is what the host is to do next.
    pub fn handle_event(&mut self, event: ReaderEvent<I>) -> (r: ReaderTask<I>)
        requires
            old(self).filters@.no_duplicates(),
        ensures
            match event {
                ReaderEvent::ToggleFilter(f) => final(self)@ == (ReaderView { filters: final(self)@.filters, ..old(self)@ })
                    && toggled(old(self)@.filters, final(self)@.filters, f),
                _ => final(self)@ == reader_step(old(self)@, event),
            },
            match event {
                ReaderEvent::Articles { .. } => r is Updated,
                ReaderEvent::FetchUser(name) => r matches ReaderTask::FetchUser(n) && n@ == name@,
                ReaderEvent::FetchComments { ids, parent, id, .. } => r matches ReaderTask::FetchComments {
                    ids: i,
                    parent: p,
                    id: d,
                } && i@ == ids@ && p == parent && d == id,
                ReaderEvent::FetchArticles { article_type, total } => r matches ReaderTask::FetchArticles {
                    article_type: t,
                    total: n,
                } && t == article_type && n == total,
                _ => r is Nothing,
            },
    {
        match event {
            ReaderEvent::Articles { ty, items } => {
                self.showing = items.len();
                self.articles = items;
                self.error = None;
                self.article_type = ty;
                self.fetching = false;
                ReaderTask::Updated
            },
            ReaderEvent::Comments { items, parent, id } => {
                let top_level = parent.is_none();
                let comment_item = CommentItem { comments: items, parent, id };
                if !top_level {
                    self.comment_trail.push(comment_item);
                    self.viewing_comments.push(true);
                    proof {
                        assert(trail_view(self.comment_trail@) =~= trail_view(old(self).comment_trail@).push(comment_item@));
                    }
                } else {
                    let mut trail = Vec::new();
                    trail.push(comment_item);
                    self.comment_trail = trail;
                    let mut viewing = Vec::new();
                    viewing.push(true);
                    self.viewing_comments = viewing;
                    assert(self.viewing_comments@ =~= seq![true]);
                    proof {
                        assert(trail_view(self.comment_trail@) =~= seq![comment_item@]);
                    }
                }
                self.error = None;
                self.fetching = false;
                ReaderTask::Nothing
            },
            ReaderEvent::Error(error) => {
                self.fetching = false;
                self.error = Some(error);
                ReaderTask::Nothing
            },
            ReaderEvent::User(user) => {
                self.fetching = false;
                self.viewing_user = true;
                self.user = Some(user);
                ReaderTask::Nothing
            },
            ReaderEvent::FetchUser(user) => {
                self.fetching = true;
                ReaderTask::FetchUser(user)
            },
            ReaderEvent::FetchComments { ids, parent, id, active_item } => {
                self.fetching = true;
                match active_item {
                    Some(item) => {
                        self.comments = Vec::new();
                        self.visited.push(item.id);
                        self.active_item = Some(item);
                    },
                    None => {},
                }
                ReaderTask::FetchComments { ids, parent, id }
            },
            ReaderEvent::Visited(id) => {
                self.visited.push(id);
                ReaderTask::Nothing
            },
            ReaderEvent::FetchArticles { article_type, total } => {
                self.fetching = true;
                ReaderTask::FetchArticles { article_type, total }
            },
            ReaderEvent::ShowItemText(item) => {
                self.visited.push(item.id);
                self.active_item = Some(item);
                self.viewing_item_text = true;
                ReaderTask::Nothing
            },
            ReaderEvent::ToggleFilter(filter) => {
                toggle_filter(&mut self.filters, filter);
                ReaderTask::Nothing
            },
            ReaderEvent::ResetVisited => {
                self.visited.clear();
                ReaderTask::Nothing
            },
            ReaderEvent::ToggleOpenSearch => {
                self.search_open = !self.search_open;
                ReaderTask::Nothing
            },
        }
    }
}

/// Comments fetched under a parent open one more window; top level
/// comments start the windows anew with one; every window keeps its open
/// flag.
pub proof fn lemma_comment_windows<I>(st: ReaderView<I>, items: Vec<Item>, parent: Option<Item>, id: I)
    ensures
        parent is Some ==> reader_step(st, ReaderEvent::Comments { items, parent, id }).trail.len() == st.trail.len() + 1,
        parent is None ==> reader_step(st, ReaderEvent::Comments { items, parent, id }).trail.len() == 1,
        st.trail.len() == st.viewing_comments.len() ==> reader_step(st, ReaderEvent::Comments { items, parent, id }).trail.len()
            == reader_step(st, ReaderEvent::Comments { items, parent, id }).viewing_comments.len(),
{
}

/// State that requires mutation by a widget. This is the
/// case for text edit and windows which take a `&mut String`
/// or `&mut bool`
#[derive(Debug)]
pub struct MutableWidgetState {
    pub search: String,
    pub viewing_comments: Vec<bool>,
    pub viewing_user: bool,
    pub viewing_item_text: bool,
}

/// The ids written in decimal and separated by commas.
pub open spec fn joined_ids(ids: Seq<u64>) -> Seq<char>
    decreases ids.len(),
{
    if ids.len() == 0 {
        Seq::empty()
    } else if ids.len() == 1 {
        decimal_digits(ids[0] as nat)
    } else {
        joined_ids(ids.drop_last()) + seq![','] + decimal_digits(ids.last() as nat)
    }
}

/// The pieces of `s` between commas, as `str::split(',')` cuts them: one
/// more than there are commas.
pub open spec fn comma_pieces(s: Seq<char>) -> Seq<Seq<char>>
    decreases s.len(),
{
    if s.len() == 0 {
        seq![Seq::<char>::empty()]
    } else if s.last() == ',' {
        comma_pieces(s.drop_last()).push(Seq::empty())
    } else {
        let p = comma_pieces(s.drop_last());
        p.update(p.len() - 1, p.last().push(s.last()))
    }
}

/// The numbers among the pieces, in order; a piece that is no number is
/// skipped.
pub open spec fn parsed_ids(pieces: Seq<Seq<char>>) -> Seq<u64>
    decreases pieces.len(),
{
    if pieces.len() == 0 {
        Seq::empty()
    } else {
        let rest = parsed_ids(pieces.drop_last());
        match parse_u64_of(pieces.last()) {
            Some(n) => rest.push(n),
            None => rest,
        }
    }
}

proof fn lemma_comma_pieces_nonempty(s: Seq<char>)
    ensures
        comma_pieces(s).len() >= 1,
    decreases s.len(),
{
    if s.len() > 0 {
        lemma_comma_pieces_nonempty(s.drop_last());
    }
}

proof fn lemma_digit_char(d: nat)
    requires
        d < 10,
    ensures
        '0' <= digit_char(d) <= '9',
        (digit_char(d) as u32) - ('0' as u32) == d,
{
}

/// The decimal digits of a number are digits, at least one, and read back
/// as the number.
proof fn lemma_decimal_digits(n: nat)
    ensures
        decimal_digits(n).len() > 0,
        all_digits(decimal_digits(n)),
        digits_value(decimal_digits(n)) == n,
    decreases n,
{
    let d = decimal_digits(n);
    if n < 10 {
        lemma_digit_char(n);
        assert(d.drop_last() =~= Seq::<char>::empty());
        assert(d.last() == digit_char(n));
        assert(digits_value(d) == digits_value(d.drop_last()) * 10 + ((d.last() as u32) - ('0' as u32)) as nat);
    } else {
        lemma_decimal_digits(n / 10);
        lemma_digit_char(n % 10);
        assert(d.drop_last() =~= decimal_digits(n / 10));
        assert(d.last() == digit_char(n % 10));
        assert(digits_value(d) == digits_value(d.drop_last()) * 10 + ((d.last() as u32) - ('0' as u32)) as nat);
        assert(digits_value(d) == (n / 10) * 10 + n % 10);
        assert forall|i: int| 0 <= i < d.len() implies '0' <= #[trigger] d[i] <= '9' by {
            if i < d.len() - 1 {
                assert(d[i] == decimal_digits(n / 10)[i]);
            }
        }
    }
}

/// A number written in decimal parses back as that number.
proof fn lemma_decimal_parses(n: u64)
    ensures
        parse_u64_of(decimal_digits(n as nat)) == Some(n),
        forall|i: int| 0 <= i < decimal_digits(n as nat).len() ==> #[trigger] decimal_digits(n as nat)[i] != ',',
{
    let d = decimal_digits(n as nat);
    lemma_decimal_digits(n as nat);
    assert('0' <= d[0] <= '9');
    assert forall|i: int| 0 <= i < d.len() implies #[trigger] d[i] != ',' by {
        assert('0' <= d[i] <= '9');
    }
}

/// Text without a comma is one piece.
proof fn lemma_pieces_without_comma(s: Seq<char>)
    requires
        forall|i: int| 0 <= i < s.len() ==> #[trigger] s[i] != ',',
    ensures
        comma_pieces(s) == seq![s],
    decreases s.len(),
{
    if s.len() > 0 {
        lemma_pieces_without_comma(s.drop_last());
        assert(s.drop_last().push(s.last()) =~= s);
        assert(seq![s.drop_last()].update(0, s.drop_last().push(s.last())) =~= seq![s]);
    } else {
        assert(s =~= Seq::<char>::empty());
    }
}

/// A comma followed by text without commas adds that text as one more
/// piece.
proof fn lemma_pieces_after_comma(a: Seq<char>, b: Seq<char>)
    requires
        forall|i: int| 0 <= i < b.len() ==> #[trigger] b[i] != ',',
    ensures
        comma_pieces(a + seq![','] + b) == comma_pieces(a).push(b),
    decreases b.len(),
{
    let s = a + seq![','] + b;
    if b.len() == 0 {
        assert(s.drop_last() =~= a);
        assert(b =~= Seq::<char>::empty());
    } else {
        lemma_pieces_after_comma(a, b.drop_last());
        assert(s.drop_last() =~= a + seq![','] + b.drop_last());
        assert(s.last() == b.last());
        assert(b.drop_last().push(b.last()) =~= b);
        assert(comma_pieces(a).push(b.drop_last()).update(comma_pieces(a).len() as int, b) =~= comma_pieces(a).push(b));
    }
}

/// Reading back the saved visited ids gives the ids that were saved.
pub proof fn lemma_visited_round_trip(ids: Seq<u64>)
    ensures
        parsed_ids(comma_pieces(joined_ids(ids))) == ids,
    decreases ids.len(),
{
    if ids.len() == 0 {
        assert(parse_u64_of(Seq::<char>::empty()) is None);
        assert(joined_ids(ids) =~= Seq::<char>::empty());
        let p = comma_pieces(joined_ids(ids));
        assert(p == seq![Seq::<char>::empty()]);
        assert(p.drop_last() =~= Seq::<Seq<char>>::empty());
        assert(parsed_ids(p.drop_last()) =~= Seq::<u64>::empty());
        assert(parsed_ids(p) == parsed_ids(p.drop_last()));
        assert(ids =~= Seq::<u64>::empty());
    } else if ids.len() == 1 {
        lemma_decimal_parses(ids[0]);
        lemma_pieces_without_comma(decimal_digits(ids[0] as nat));
        let p = seq![decimal_digits(ids[0] as nat)];
        assert(joined_ids(ids) == decimal_digits(ids[0] as nat));
        assert(p.drop_last() =~= Seq::<Seq<char>>::empty());
        assert(parsed_ids(p.drop_last()) =~= Seq::<u64>::empty());
        assert(parsed_ids(p) == seq![ids[0]]);
        assert(ids =~= seq![ids[0]]);
    } else {
        let rest = ids.drop_last();
        lemma_visited_round_trip(rest);
        lemma_decimal_parses(ids.last());
        lemma_pieces_after_comma(joined_ids(rest), decimal_digits(ids.last() as nat));
        let p = comma_pieces(joined_ids(rest)).push(decimal_digits(ids.last() as nat));
        assert(joined_ids(ids) == joined_ids(rest) + seq![','] + decimal_digits(ids.last() as nat));
        assert(p.drop_last() =~= comma_pieces(joined_ids(rest)));
        assert(p.last() == decimal_digits(ids.last() as nat));
        assert(parsed_ids(p) == parsed_ids(p.drop_last()).push(ids.last()));
        assert(rest.push(ids.last()) =~= ids);
    }
}

/// Writes the visited ids to save them.
pub fn join_ids(ids: &Vec<u64>) -> (r: String)
    ensures
        r@ == joined_ids(ids@),
{
    let mut out = String::new();
    let mut i: usize = 0;
    while i < ids.len()
        invariant
            i <= ids@.len(),
            out@ == joined_ids(ids@.take(i as int)),
        decreases ids@.len() - i,
    {
        proof {
            assert(ids@.take(i as int + 1).drop_last() =~= ids@.take(i as int));
        }
        if i > 0 {
            push_char(&mut out, ',');
        }
        push_decimal_u64(&mut out, ids[i]);
        proof {
            if i == 0 {
                assert(out@ =~= decimal_digits(ids@[0] as nat));
            } else {
                assert(out@ =~= joined_ids(ids@.take(i as int)) + seq![','] + decimal_digits(ids@[i as int] as nat));
            }
        }
        i = i + 1;
    }
    assert(ids@.take(ids@.len() as int) =~= ids@);
    out
}

/// Reads saved visited ids: the numbers between the commas, skipping any
/// piece that is no number.
pub fn parse_ids(s: &str) -> (r: Vec<u64>)
    ensures
        r@ == parsed_ids(comma_pieces(s@)),
{
    let chars = crate::text::chars_of(s);
    let n = chars.len();
    let mut out: Vec<u64> = Vec::new();
    let mut piece = String::new();
    let mut i: usize = 0;
    while i < n
        invariant
            chars@ == s@,
            n == s@.len(),
            i <= n,
            comma_pieces(s@.take(i as int)).len() >= 1,
            piece@ == comma_pieces(s@.take(i as int)).last(),
            out@ == parsed_ids(comma_pieces(s@.take(i as int)).drop_last()),
        decreases n - i,
    {
        let c = chars[i];
        proof {
            assert(s@.take(i as int + 1).drop_last() =~= s@.take(i as int));
            assert(s@.take(i as int + 1).last() == c);
            lemma_comma_pieces_nonempty(s@.take(i as int));
        }
        if c == ',' {
            match parse_u64(piece.as_str()) {
                Some(v) => out.push(v),
                None => {},
            }
            piece = String::new();
            proof {
                let p = comma_pieces(s@.take(i as int));
                assert(comma_pieces(s@.take(i as int + 1)).drop_last() =~= p);
                assert(p =~= p.drop_last().push(p.last()));
                assert(piece@ =~= Seq::<char>::empty());
            }
        } else {
            push_char(&mut piece, c);
            proof {
                let p = comma_pieces(s@.take(i as int));
                assert(comma_pieces(s@.take(i as int + 1)).drop_last() =~= p.drop_last());
            }
        }
        i = i + 1;
    }
    proof {
        assert(s@.take(n as int) =~= s@);
        lemma_comma_pieces_nonempty(s@);
    }
    match parse_u64(piece.as_str()) {
        Some(v) => out.push(v),
        None => {},
    }
    proof {
        let p = comma_pieces(s@);
        assert(p =~= p.drop_last().push(p.last()));
    }
    out
}

/// The number of stories to show as saved, 50 when none is saved or it is
/// no number.
pub fn saved_showing(saved: Option<String>) -> (r: usize)
    ensures
        r == match saved {
            Some(s) => match parse_u64_of(s@) {
                Some(n) => if n <= usize::MAX { n as usize } else { 50 },
                None => 50,
            },
            None => 50,
        },
{
    match saved {
        Some(s) => match parse_u64(s.as_str()) {
            Some(n) => {
                if n <= usize::MAX as u64 {
                    n as usize
                } else {
                    50
                }
            },
            None => 50,
        },
        None => 50,
    }
}

/// The category as saved, the top stories when none is saved or it is
/// not read back.
pub fn saved_article_type(saved: Option<String>) -> (r: ArticleType)
    ensures
        r == match saved {
            Some(s) => match category_of_name(s@) {
                Some(t) => t,
                None => ArticleType::Top,
            },
            None => ArticleType::Top,
        },
{
    match saved {
        Some(s) => match ArticleType::parse(s.as_str()) {
            Ok(t) => t,
            Err(_) => ArticleType::Top,
        },
        None => ArticleType::Top,
    }
}

} // verus!
