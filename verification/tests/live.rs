use hacker_news::dashboard::{article_labels, article_labels_at, changed_label, online_toggle, restart_after_termination, OnlineAction};
use hacker_news::header::{FooterMsg, FooterState};
use hacker_news::reader::{ArticleType as ReaderType, Filter, ReaderEvent, ReaderState, ReaderTask};
use hacker_news::search::{Comment, IndexStats, Story, StoryEventAction};
use hacker_news::types::{ArticleType, Item, User};
use hacker_news::feed::keep_live_results;
use hacker_news::watch::{ranked, CommentWalk, ParentWalk, WatchedStory};

fn item(id: u64) -> Item {
    Item {
        id,
        kids: vec![],
        text: None,
        url: Some(String::from("https://xn--bcher-kva.example/x")),
        title: Some(String::from("Title")),
        score: 5,
        time: 1_000_000_000,
        by: String::from("alice"),
        dead: false,
        deleted: false,
        ty: String::from("story"),
        parent: None,
        descendants: Some(4),
    }
}

fn comment(id: u64, parent_id: u64) -> Comment {
    Comment { id, body: String::new(), by: String::new(), time: 0, kids: vec![], story_id: 1, parent_id, rank: 0 }
}

fn stats(n: u64) -> IndexStats {
    IndexStats {
        total_documents: n,
        total_comments: 0,
        total_stories: 0,
        total_jobs: 0,
        total_polls: 0,
        build_time: std::time::Duration::from_secs(2),
        built_on: 0,
        category: ArticleType::Top,
    }
}

#[test]
fn story_labels() {
    let labels = article_labels(&item(1), -2, 3);
    assert_eq!(labels.title, "Title");
    assert_eq!(labels.author, "by alice");
    assert_eq!(labels.comment_count.as_deref(), Some("4"));
    assert_eq!(labels.url.as_deref(), Some("https://bücher.example/x"));
    assert_eq!(labels.order_change_label, "-2");
    assert_eq!(labels.comment_count_changed.as_deref(), Some("+3"));
    assert!(labels.age.ends_with(" days ago"));
    let mut plain = item(2);
    plain.title = None;
    plain.url = None;
    plain.descendants = Some(0);
    plain.time = 9_000_000_000_000_000;
    let labels = article_labels(&plain, 0, 0);
    assert_eq!(labels.title, "");
    assert_eq!(labels.comment_count, None);
    assert_eq!(labels.url, None);
    assert_eq!(labels.order_change_label, "");
    assert_eq!(labels.comment_count_changed, None);
    assert_eq!(labels.age, "");
    let at = article_labels_at(&item(1), 0, 0, Some((1_000_000_000 + 7200, 0)));
    assert_eq!(at.age, "2 hours ago");
    assert_eq!(at.title, "Title");
    assert_eq!(article_labels_at(&item(1), 0, 0, None).age, "");
    assert_eq!(changed_label(-7).as_deref(), Some("-7"));
    assert_eq!(changed_label(12).as_deref(), Some("+12"));
}

#[test]
fn watched_story_rebuilds_once() {
    let story = Story {
        id: 1,
        title: String::new(),
        body: None,
        url: None,
        by: String::new(),
        ty: String::from("story"),
        descendants: 2,
        time: 0,
        score: 5,
        rank: 1,
    };
    let mut watched = WatchedStory::new(story);
    let latest = item(1);
    assert_eq!(watched.on_event(&latest), StoryEventAction::Rebuild);
    let mut fresh = watched.current.clone();
    fresh.descendants = 4;
    watched.rebuilt(&fresh);
    assert_eq!(watched.on_event(&latest), StoryEventAction::Ignore);
    let mut gone = item(1);
    gone.deleted = true;
    assert_eq!(watched.on_event(&gone), StoryEventAction::Stop);
}

#[test]
fn walking_up_to_the_story() {
    let mut walk = ParentWalk::new(comment(30, 20));
    assert_eq!(walk.next_id(), Some(20));
    walk.push(comment(20, 10));
    assert_eq!(walk.next_id(), Some(10));
    walk.push(comment(10, 1));
    assert_eq!(walk.next_id(), None);
    let ids: Vec<u64> = walk.comments.iter().map(|c| c.id).collect();
    assert_eq!(ids, vec![30, 20, 10]);
}

#[test]
fn stories_are_ranked_from_one() {
    assert_eq!(ranked(vec!["a", "b", "c"]), vec![("a", 1), ("b", 2), ("c", 3)]);
    assert_eq!(ranked(Vec::<u8>::new()), vec![]);
}

#[test]
fn status_bar() {
    let mut footer = FooterState::new(vec![]);
    assert!(!footer.update(FooterMsg::Error(String::from("oops"))));
    assert_eq!(footer.status_line, "oops");
    footer.update(FooterMsg::NoUrl);
    assert_eq!(footer.status_line, "");
    footer.update(FooterMsg::LastUpdate(String::from("01/01/2024 10:00:00 AM")));
    assert_eq!(footer.status_line, "Updated: 01/01/2024 10:00:00 AM");
    footer.update(FooterMsg::Url(String::from("https://example.com")));
    assert_eq!(footer.status_line, "https://example.com");
    footer.update(FooterMsg::NoUrl);
    assert_eq!(footer.status_line, "Updated: 01/01/2024 10:00:00 AM");
    assert!(footer.update(FooterMsg::IndexStats { stats: stats(1), category: ArticleType::Top }));
    assert!(footer.update(FooterMsg::IndexStats { stats: stats(2), category: ArticleType::New }));
    assert!(footer.update(FooterMsg::IndexStats { stats: stats(3), category: ArticleType::Top }));
    assert_eq!(footer.index_stats.len(), 2);
    footer.update(FooterMsg::CurrentIndex(ArticleType::New));
    assert_eq!(footer.current_index_stats.map(|s| s.total_documents), Some(2));
    footer.update(FooterMsg::CurrentIndex(ArticleType::Top));
    assert_eq!(footer.current_index_stats.map(|s| s.total_documents), Some(3));
    footer.update(FooterMsg::CurrentIndex(ArticleType::Job));
    assert!(footer.current_index_stats.is_none());
}

fn reader() -> ReaderState<u32> {
    ReaderState {
        articles: vec![],
        fetching: false,
        showing: 0,
        visited: vec![],
        comments: vec![],
        comment_trail: vec![],
        active_item: None,
        error: None,
        article_type: ReaderType::Top,
        viewing_comments: vec![],
        user: None,
        viewing_user: false,
        viewing_item_text: false,
        filters: vec![],
        search_open: false,
    }
}

#[test]
fn reader_events() {
    let mut st = reader();
    let task = st.handle_event(ReaderEvent::FetchArticles { article_type: ReaderType::New, total: 30 });
    assert!(matches!(task, ReaderTask::FetchArticles { article_type: ReaderType::New, total: 30 }));
    assert!(st.fetching);
    assert!(matches!(st.handle_event(ReaderEvent::Articles { ty: ReaderType::New, items: vec![item(1), item(2)] }), ReaderTask::Updated));
    assert_eq!((st.showing, st.fetching, st.article_type), (2, false, ReaderType::New));
    let task = st.handle_event(ReaderEvent::FetchComments { ids: vec![5], parent: None, id: 9, active_item: Some(item(1)) });
    assert!(matches!(task, ReaderTask::FetchComments { id: 9, .. }));
    assert_eq!(st.visited, vec![1]);
    st.handle_event(ReaderEvent::Comments { items: vec![item(5)], parent: None, id: 9 });
    assert_eq!((st.comment_trail.len(), st.viewing_comments.clone()), (1, vec![true]));
    st.handle_event(ReaderEvent::Comments { items: vec![item(6)], parent: Some(item(5)), id: 10 });
    assert_eq!((st.comment_trail.len(), st.viewing_comments.len()), (2, 2));
    st.handle_event(ReaderEvent::Comments { items: vec![], parent: None, id: 11 });
    assert_eq!(st.comment_trail.len(), 1);
    st.handle_event(ReaderEvent::Error(String::from("boom")));
    assert_eq!(st.error.as_deref(), Some("boom"));
    assert!(matches!(st.handle_event(ReaderEvent::FetchUser(String::from("pg"))), ReaderTask::FetchUser(n) if n == "pg"));
    let user = User { id: String::from("pg"), about: None, created: 0, karma: 1, submitted: vec![] };
    st.handle_event(ReaderEvent::User(user));
    assert!(st.viewing_user && st.user.is_some() && !st.fetching);
    st.handle_event(ReaderEvent::ShowItemText(item(3)));
    assert!(st.viewing_item_text);
    st.handle_event(ReaderEvent::Visited(4));
    assert_eq!(st.visited, vec![1, 3, 4]);
    st.handle_event(ReaderEvent::ToggleFilter(Filter::Jobs));
    assert_eq!(st.filters, vec![Filter::Jobs]);
    st.handle_event(ReaderEvent::ToggleFilter(Filter::Jobs));
    assert!(st.filters.is_empty());
    st.handle_event(ReaderEvent::ToggleOpenSearch);
    assert!(st.search_open);
    st.handle_event(ReaderEvent::ResetVisited);
    assert!(st.visited.is_empty());
}

#[test]
fn subscription_toggles() {
    use_dashboard_decisions();
}

fn use_dashboard_decisions() {
    assert_eq!(online_toggle(true, true), OnlineAction::Keep);
    assert_eq!(online_toggle(false, false), OnlineAction::Keep);
    assert_eq!(online_toggle(false, true), OnlineAction::Restart);
    assert_eq!(online_toggle(true, false), OnlineAction::Stop);
    assert!(restart_after_termination(ArticleType::Top, ArticleType::Top));
    assert!(!restart_after_termination(ArticleType::New, ArticleType::Top));
}

#[test]
fn status_bar_from_saved_stats() {
    let mut first = stats(1);
    first.category = ArticleType::Top;
    let mut second = stats(2);
    second.category = ArticleType::New;
    let mut third = stats(3);
    third.category = ArticleType::Top;
    let mut footer = FooterState::from_stats(vec![first, second, third]);
    assert_eq!(footer.index_stats.len(), 2);
    footer.update(FooterMsg::CurrentIndex(ArticleType::Top));
    assert_eq!(footer.current_index_stats.map(|s| s.total_documents), Some(3));
}

#[test]
fn fetch_failures_pass_through_in_order() {
    let mut dead = item(2);
    dead.dead = true;
    let mut deleted = item(4);
    deleted.deleted = true;
    let results: Vec<Result<Item, String>> =
        vec![Ok(item(1)), Err(String::from("a")), Ok(dead), Ok(deleted), Err(String::from("b")), Ok(item(5))];
    let kept: Vec<Result<u64, String>> = keep_live_results(results).into_iter().map(|r| r.map(|i| i.id)).collect();
    assert_eq!(kept, vec![Ok(1), Err(String::from("a")), Err(String::from("b")), Ok(5)]);
}

#[test]
fn comment_walk_ranks_and_order() {
    let mut walk = CommentWalk::new(vec![Ok(item(1)), Err("x"), Ok(item(2))]);
    let (first, rank) = walk.next().expect("a comment");
    assert_eq!((first.id, rank), (2, 2));
    walk.add_children::<&str>(vec![Ok(item(20)), Ok(item(21))]);
    let order: Vec<(u64, u64)> = std::iter::from_fn(|| walk.next()).map(|(i, r)| (i.id, r)).collect();
    assert_eq!(order, vec![(21, 2), (20, 1), (1, 1)]);
    assert!(walk.next().is_none());
}
