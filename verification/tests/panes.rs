use hacker_news::articles::{title_mentions_rust, ArticleBadges, ArticleMsg, ArticleState, ArticleTask, WatchChange};
use hacker_news::controls::{
    key_action, key_scroll, pagination, scroll_target, Appearance, ArticleSelection, Font, FontExt, FontStyle,
    KeyAction, KeyPress, NamedKey, Pagination, PaneState, ScrollBy, ScrollMove, Theme, Weight,
};
use hacker_news::full_search::{FullSearchState, SearchCriteria};
use hacker_news::header::{HeaderLayout, HeaderMsg, HeaderState, HeaderTask};
use hacker_news::navigation::Content;
use hacker_news::pager::{PagerMsg, PagerState, PagerTask};
use hacker_news::reader::{
    join_ids, parse_ids, saved_article_type, saved_showing, toggle_filter, ArticleType as ReaderType, Filter,
    MutableWidgetState,
};
use hacker_news::search::{IndexStats, RebuildProgress, Story};
use hacker_news::types::ArticleType;

fn story(id: u64, descendants: u64) -> Story {
    Story {
        id,
        title: format!("story {id}"),
        body: None,
        url: None,
        by: String::from("b"),
        ty: String::from("story"),
        descendants,
        time: 0,
        score: 1,
        rank: 1,
    }
}

fn stats(category: ArticleType) -> IndexStats {
    IndexStats {
        total_documents: 1,
        total_comments: 0,
        total_stories: 1,
        total_jobs: 0,
        total_polls: 0,
        build_time: std::time::Duration::from_millis(5),
        built_on: 0,
        category,
    }
}

#[test]
fn story_list_messages() {
    let mut st = ArticleState::new();
    assert_eq!(st.article_limit, 75);
    assert!(matches!(st.update(ArticleMsg::TopStories(30)), ArticleTask::FetchTop(30)));
    assert_eq!(st.article_limit, 30);
    assert!(matches!(st.update(ArticleMsg::Receive(vec![story(1, 2), story(2, 0)])), ArticleTask::ScrollTop));
    assert_eq!(st.articles.len(), 2);
    match st.update(ArticleMsg::Search(String::from("rust"))) {
        ArticleTask::SearchStories { search, limit } => assert_eq!((search.as_str(), limit), ("rust", 30)),
        other => panic!("unexpected {other:?}"),
    }
    assert_eq!(st.search.as_deref(), Some("rust"));
    assert!(matches!(st.update(ArticleMsg::Search(String::new())), ArticleTask::Send(ArticleMsg::TopStories(30))));
    assert!(st.search.is_none());
    st.stories_found(vec![story(5, 0)]);
    assert_eq!(st.articles[0].id, 5);
}

#[test]
fn viewing_marks_visited() {
    let mut st = ArticleState::new();
    assert!(matches!(st.update(ArticleMsg::ViewingItem(9)), ArticleTask::SaveConfig));
    assert!(st.visited.contains(&9));
    assert_eq!(st.viewing_item, Some(9));
    st.update(ArticleMsg::ViewingItem(10));
    assert!(st.visited.contains(&9) && st.visited.contains(&10));
    assert!(matches!(st.update(ArticleMsg::ViewingClosed), ArticleTask::Nothing));
    assert_eq!(st.viewing_item, None);
    assert!(st.visited.contains(&10));
}

#[test]
fn reindexing_a_story() {
    let mut st = ArticleState::new();
    assert!(matches!(st.update(ArticleMsg::UpdateStory(story(3, 0))), ArticleTask::Reindex(s) if s.id == 3));
    st.update(ArticleMsg::UpdateStory(story(4, 0)));
    st.update(ArticleMsg::UpdateStory(story(3, 0)));
    assert_eq!(st.indexing_stories, vec![3, 4, 3]);
    assert!(matches!(st.update(ArticleMsg::ClearIndexStory(3)), ArticleTask::Nothing));
    assert_eq!(st.indexing_stories, vec![4]);
}

#[test]
fn watching_counts_new_comments() {
    let mut st = ArticleState::new();
    st.update(ArticleMsg::Receive(vec![story(1, 10), story(2, 0)]));
    assert!(matches!(st.update(ArticleMsg::WatchStory(story(1, 10))), ArticleTask::StartWatch(s) if s.id == 1));
    st.watch_started(1, Some(500));
    assert_eq!(st.watch_changes.get(&1), Some(&WatchChange { new_comments: 0, beyond: 500 }));
    assert!(matches!(st.update(ArticleMsg::StoryUpdated(story(1, 13))), ArticleTask::Send(ArticleMsg::ClearIndexStory(1))));
    assert_eq!(st.articles[0].descendants, 13);
    assert_eq!(st.watch_changes[&1].new_comments, 3);
    st.update(ArticleMsg::StoryUpdated(story(1, 15)));
    assert_eq!(st.watch_changes[&1].new_comments, 5);
    // A shrinking count is taken but not counted.
    st.update(ArticleMsg::StoryUpdated(story(1, 14)));
    assert_eq!(st.articles[0].descendants, 14);
    assert_eq!(st.watch_changes[&1].new_comments, 5);
    // Unwatched stories take the count too.
    st.update(ArticleMsg::StoryUpdated(story(2, 4)));
    assert_eq!(st.articles[1].descendants, 4);
    assert!(st.watch_changes.get(&2).is_none());
    // Opening the new comments restarts the count.
    assert!(matches!(st.update(ArticleMsg::OpenNew { story_id: 1, beyond: 500 }), ArticleTask::LookUpLatest { story_id: 1, beyond: 500 }));
    assert!(matches!(st.open_new(1, 500, Some(900)), ArticleTask::ShowNew { story_id: 1, beyond: 500 }));
    assert_eq!(st.watch_changes[&1], WatchChange { new_comments: 0, beyond: 900 });
    st.open_new(1, 900, None);
    assert_eq!(st.watch_changes[&1], WatchChange { new_comments: 0, beyond: 900 });
    assert!(matches!(st.update(ArticleMsg::UnWatchStory(1)), ArticleTask::StopWatch(1)));
    assert!(st.watch_changes.is_empty());
}

#[test]
fn watch_filter_shows_watched_stories() {
    let mut st = ArticleState::new();
    st.update(ArticleMsg::Receive(vec![story(1, 0), story(2, 0), story(3, 0)]));
    assert_eq!(st.visible_positions(), vec![0, 1, 2]);
    st.watch_started(2, None);
    assert_eq!(st.watch_changes[&2].beyond, 0);
    st.update(ArticleMsg::ToggleWatchFilter);
    assert_eq!(st.visible_positions(), vec![1]);
    st.update(ArticleMsg::ToggleWatchFilter);
    assert!(!st.filter_watching);
    assert!(matches!(st.update(ArticleMsg::RemoveWatches), ArticleTask::StopAllWatches));
    assert!(matches!(st.update(ArticleMsg::CheckHandles), ArticleTask::CheckWatches));
    assert!(matches!(st.update(ArticleMsg::StoryClicked(story(3, 0))), ArticleTask::OpenStory(s) if s.id == 3));
}

#[test]
fn rust_in_titles() {
    assert!(title_mentions_rust("Rust"));
    assert!(title_mentions_rust("Why Rust is fast"));
    assert!(title_mentions_rust("Written in Rust."));
    assert!(title_mentions_rust("Rust: a language"));
    assert!(title_mentions_rust("Is it Rust?"));
    assert!(!title_mentions_rust("Rusty tools"));
    assert!(!title_mentions_rust("rust belt"));
    assert!(!title_mentions_rust("TrustRust"));
    assert!(!title_mentions_rust("Rust;"));
    assert!(!title_mentions_rust("Rust.."));
    assert!(!title_mentions_rust(""));
    for t in ["Rust", "Why Rust is fast", "Rust: x", "Rusty", "rust", "a Rust!", "Rust's", "x Rust, y"] {
        let expected = t.split(' ').any(|word| {
            word == "Rust"
                || (word.starts_with("Rust")
                    && word.len() == 5
                    && word.chars().last().map(|c| matches!(c, ',' | '.' | ':' | '?' | '!')).unwrap_or(false))
        });
        assert_eq!(title_mentions_rust(t), expected, "{t}");
    }
}

#[test]
fn header_messages() {
    let mut h = HeaderState::new(30, ArticleType::Top);
    assert!(matches!(
        h.update(HeaderMsg::Select { article_count: 50, article_type: ArticleType::Ask }),
        HeaderTask::Select { category: ArticleType::Ask, count: 50 }
    ));
    assert_eq!((h.article_count, h.article_type), (50, ArticleType::Ask));
    assert!(matches!(h.update(HeaderMsg::RebuildIndex), HeaderTask::Rebuild(ArticleType::Ask)));
    assert!(h.building_index);
    match h.update(HeaderMsg::IndexReady { stats: stats(ArticleType::New), category: ArticleType::New }) {
        HeaderTask::IndexBuilt { category, count, stats } => {
            assert_eq!((category, count, stats.category), (ArticleType::New, 50, ArticleType::New));
        },
        other => panic!("unexpected {other:?}"),
    }
    assert!(!h.building_index);
    assert_eq!(h.article_type, ArticleType::New);
    h.update(HeaderMsg::RebuildIndex);
    assert!(matches!(h.update(HeaderMsg::IndexFailed(String::from("boom"))), HeaderTask::ShowError(e) if e == "boom"));
    assert!(!h.building_index);
    assert!(matches!(h.update(HeaderMsg::Search(String::from("q"))), HeaderTask::SearchAll(s) if s == "q"));
    assert_eq!(h.full_search.as_deref(), Some("q"));
    assert!(matches!(h.update(HeaderMsg::Search(String::new())), HeaderTask::Send(HeaderMsg::ClearSearch)));
    assert!(matches!(h.update(HeaderMsg::ClearSearch), HeaderTask::Nothing));
    assert!(h.full_search.is_none());
    assert!(matches!(h.update(HeaderMsg::ClearVisisted), HeaderTask::ClearVisited));
}

#[test]
fn scrolling() {
    assert_eq!(ScrollBy::PageUp.movement(), ScrollMove::By(-500));
    assert_eq!(ScrollBy::PageDown.movement(), ScrollMove::By(500));
    assert_eq!(ScrollBy::LineUp.movement(), ScrollMove::By(-10));
    assert_eq!(ScrollBy::LineDown.movement(), ScrollMove::By(10));
    assert_eq!(ScrollBy::Top.movement(), ScrollMove::ToTop);
    assert_eq!(ScrollBy::Bottom.movement(), ScrollMove::ToBottom);
    let empty: Content<u32> = Content::Empty(ArticleType::Top);
    assert_eq!(scroll_target(&empty), "articles");
    let search: Content<u32> = Content::Search(FullSearchState::new(SearchCriteria::Query(String::from("x"))));
    assert_eq!(scroll_target(&search), "full_search");
    assert_ne!(PaneState::Articles, PaneState::Content);
}

#[test]
fn keys() {
    assert_eq!(key_action(KeyPress::Named(NamedKey::Escape), false, false), Some(KeyAction::CloseSearch));
    assert_eq!(key_action(KeyPress::Named(NamedKey::Home), false, false), Some(KeyAction::ScrollBy(ScrollBy::Top)));
    assert_eq!(key_action(KeyPress::Named(NamedKey::Tab), true, false), Some(KeyAction::PrevInput));
    assert_eq!(key_action(KeyPress::Named(NamedKey::Tab), false, false), Some(KeyAction::NextInput));
    assert_eq!(key_action(KeyPress::Named(NamedKey::Other), false, false), None);
    assert_eq!(key_action(KeyPress::Character('+'), false, true), Some(KeyAction::IncreaseScale));
    assert_eq!(key_action(KeyPress::Character('-'), false, true), Some(KeyAction::DecreaseScale));
    assert_eq!(key_action(KeyPress::Character('='), false, true), Some(KeyAction::ResetScale));
    assert_eq!(key_action(KeyPress::Character('+'), false, false), None);
    assert_eq!(key_action(KeyPress::Unidentified, true, true), None);
    assert_eq!(key_scroll("home"), Some(ScrollBy::Top));
    assert_eq!(key_scroll("pagedown"), Some(ScrollBy::PageDown));
    assert_eq!(key_scroll("down"), Some(ScrollBy::LineDown));
    assert_eq!(key_scroll("x"), None);
}

#[test]
fn page_buttons() {
    assert_eq!(pagination(0, 1), Pagination { pages: 0, back: false, forward: false });
    assert_eq!(pagination(0, 0), Pagination { pages: 0, back: false, forward: true });
    assert_eq!(pagination(25, 1), Pagination { pages: 3, back: false, forward: true });
    assert_eq!(pagination(25, 3), Pagination { pages: 3, back: true, forward: false });
    assert_eq!(pagination(20, 2), Pagination { pages: 2, back: true, forward: true });
    assert_eq!(pagination(20, 3), Pagination { pages: 2, back: true, forward: false });
}

#[test]
fn themes_and_fonts() {
    assert_eq!(Theme::Dark.bg(), 0x121212);
    assert_eq!(Theme::Light.bg(), 0xb3b3b3);
    assert_eq!(Theme::Dark.text_color(), 0xbfbfbf);
    assert_eq!(Theme::Light.text_color(), 0x444444);
    assert_eq!(Theme::Light.hover(), 0xe0e4eb);
    assert_eq!(Theme::Dark.text_increasing(), 0x57e389);
    assert_eq!(Theme::Light.text_decreasing(), 0xd70000);
    assert_eq!(Theme::Dark.surface(), 0x1e1e1e);
    assert_eq!(Theme::Light.border(), 0xb5bfc9);
    assert_eq!(Theme::Dark.comment_border(), 0xb36b00);
    assert_eq!(Theme::from_appearance(Appearance::VibrantDark), Theme::Dark);
    assert_eq!(Theme::from_appearance(Appearance::VibrantLight), Theme::Light);
    let font = Font { family: "Roboto", weight: Weight::Normal, style: FontStyle::Normal };
    let f = font.bold().italic();
    assert_eq!((f.weight, f.style, f.family), (Weight::Bold, FontStyle::Italic, "Roboto"));
    assert_eq!(font.weight_light().weight, Weight::Light);
    let selection = ArticleSelection { viewing_article_type: ArticleType::Best, viewing_article_total: 50 };
    assert_eq!(selection.viewing_article_total, 50);
}

#[test]
fn reader_settings() {
    assert_eq!(join_ids(&vec![1, 22, 333]), "1,22,333");
    assert_eq!(join_ids(&vec![]), "");
    assert_eq!(parse_ids("1,22,333"), vec![1, 22, 333]);
    assert_eq!(parse_ids("1,,x,4,"), vec![1, 4]);
    assert_eq!(parse_ids(""), Vec::<u64>::new());
    for ids in [vec![], vec![0], vec![5, 6, 7], vec![u64::MAX, 1]] {
        assert_eq!(parse_ids(&join_ids(&ids)), ids);
    }
    assert_eq!(saved_showing(Some(String::from("30"))), 30);
    assert_eq!(saved_showing(Some(String::from("x"))), 50);
    assert_eq!(saved_showing(None), 50);
    assert_eq!(saved_article_type(Some(String::from("Best"))), ReaderType::Best);
    assert_eq!(saved_article_type(Some(String::from("Ask"))), ReaderType::Top);
    assert_eq!(saved_article_type(None), ReaderType::Top);
    assert_eq!(ReaderType::Show.as_str(), "Show");
    assert_eq!("New".parse::<ReaderType>(), Ok(ReaderType::New));
    assert_eq!("Job".parse::<ReaderType>(), Err(()));
}

#[test]
fn reader_filters() {
    let mut filters = vec![];
    toggle_filter(&mut filters, Filter::Jobs);
    toggle_filter(&mut filters, Filter::Polls);
    assert_eq!(filters, vec![Filter::Jobs, Filter::Polls]);
    toggle_filter(&mut filters, Filter::Jobs);
    assert_eq!(filters, vec![Filter::Polls]);
    toggle_filter(&mut filters, Filter::Polls);
    assert!(filters.is_empty());
    let state = MutableWidgetState { search: String::new(), viewing_comments: vec![true], viewing_user: false, viewing_item_text: false };
    assert_eq!(state.viewing_comments, vec![true]);
}

#[test]
fn comment_pager() {
    let mut p = PagerState::new();
    assert_eq!(p.update(PagerMsg::OpenComment(5)), PagerTask::FetchComments { parent_id: 5, offset: 0 });
    assert_eq!(p.comment_page, 1);
    let labels = p.comments_loaded(5, 25);
    assert_eq!((labels.page, labels.pages, labels.prev, labels.next), (1, 3, false, true));
    assert_eq!(p.update(PagerMsg::CommentNext), PagerTask::FetchComments { parent_id: 5, offset: 10 });
    assert_eq!(p.comment_page, 2);
    assert_eq!(p.update(PagerMsg::CommentPrev), PagerTask::FetchComments { parent_id: 5, offset: 0 });
    assert_eq!(p.update(PagerMsg::CommentPrev), PagerTask::FetchComments { parent_id: 5, offset: 0 });
    assert_eq!(p.comment_page, 0);
    p.update(PagerMsg::OpenComment(6));
    p.comments_loaded(6, 3);
    assert_eq!(p.comment_stack, vec![5, 6]);
    assert_eq!(p.update(PagerMsg::CloseComment), PagerTask::Close { reopen: Some(5), clear: true });
    assert!(p.comment_stack.is_empty());
    assert_eq!(p.update(PagerMsg::CloseComment), PagerTask::Close { reopen: None, clear: true });
    assert_eq!(p.update(PagerMsg::Change(ArticleType::New)), PagerTask::SwitchIndex(ArticleType::New));
    assert_eq!(p.update(PagerMsg::Fetch), PagerTask::FetchStories);
    assert_eq!(p.update(PagerMsg::Refresh), PagerTask::Rebuild);
}

#[test]
fn rebuild_progress() {
    let mut p = PagerState::new();
    assert_eq!(
        p.update(PagerMsg::Progress(RebuildProgress::Started(4))),
        PagerTask::ShowProgress { visible: true, received: 0, total: 4 }
    );
    assert!(p.updating);
    p.update(PagerMsg::Progress(RebuildProgress::StoryCompleted));
    assert_eq!(
        p.update(PagerMsg::Progress(RebuildProgress::StoryCompleted)),
        PagerTask::ShowProgress { visible: true, received: 2, total: 4 }
    );
    assert_eq!(
        p.update(PagerMsg::Progress(RebuildProgress::Completed)),
        PagerTask::ShowProgress { visible: false, received: 0, total: 4 }
    );
    assert!(!p.updating);
}

#[test]
fn page_count_is_kept_in_a_byte() {
    let mut p = PagerState::new();
    p.update(PagerMsg::OpenComment(1));
    let labels = p.comments_loaded(1, 2570);
    assert_eq!(labels.pages, 1);
}

#[test]
fn closing_the_story_search_and_clearing_visits() {
    let mut st = ArticleState::new();
    st.update(ArticleMsg::Search(String::from("x")));
    st.update(ArticleMsg::ViewingItem(3));
    assert!(matches!(st.close_search(40), ArticleTask::Send(ArticleMsg::TopStories(40))));
    assert!(st.search.is_none());
    assert!(matches!(st.clear_visited(), ArticleTask::SaveConfig));
    assert!(st.visited.is_empty());
}

#[test]
fn story_row_badges() {
    let mut st = ArticleState::new();
    let mut rusty = story(1, 4);
    rusty.title = String::from("Why Rust?");
    rusty.score = 12;
    st.update(ArticleMsg::Receive(vec![rusty.clone(), story(2, 0)]));
    assert_eq!(
        st.badges(&rusty),
        ArticleBadges {
            rust: true,
            visited: false,
            update_button: true,
            score: Some(12),
            comments: Some(4),
            watch_toggle: Some(false),
            new_comments: None,
            selected: false,
        }
    );
    st.update(ArticleMsg::ViewingItem(1));
    st.update(ArticleMsg::UpdateStory(rusty.clone()));
    st.update(ArticleMsg::WatchStory(rusty.clone()));
    st.watch_started(1, Some(500));
    let mut grown = rusty.clone();
    grown.descendants = 6;
    st.update(ArticleMsg::StoryUpdated(grown));
    let b = st.badges(&st.articles[0].clone());
    assert!(b.visited && b.selected && !b.update_button);
    assert_eq!(b.comments, Some(6));
    assert_eq!(b.watch_toggle, Some(true));
    assert_eq!(b.new_comments, Some(WatchChange { new_comments: 2, beyond: 500 }));
    let mut job = story(3, 0);
    job.ty = String::from("job");
    let j = st.badges(&job);
    assert_eq!((j.score, j.comments, j.watch_toggle, j.rust), (None, None, None, false));
}

#[test]
fn header_bar_layout() {
    let mut h = HeaderState::new(50, ArticleType::Best);
    assert_eq!(
        h.layout(),
        HeaderLayout {
            categories: vec![
                (ArticleType::Top, false),
                (ArticleType::Best, true),
                (ArticleType::New, false),
                (ArticleType::Ask, false),
                (ArticleType::Show, false),
                (ArticleType::Job, false),
            ],
            counts: vec![(25, false), (50, true), (75, false)],
            rebuild_enabled: true,
        }
    );
    assert!(matches!(
        h.category_message(ArticleType::Job),
        HeaderMsg::Select { article_count: 50, article_type: ArticleType::Job }
    ));
    assert!(matches!(
        h.count_message(75),
        HeaderMsg::Select { article_count: 75, article_type: ArticleType::Best }
    ));
    assert!(matches!(h.rebuild_message(), Some(HeaderMsg::RebuildIndex)));
    h.update(HeaderMsg::RebuildIndex);
    assert!(h.rebuild_message().is_none());
    assert!(!h.layout().rebuild_enabled);
}
