use hacker_news::comments::{CommentMsg, CommentState, CommentTask, NavStack};
use hacker_news::full_search::{FullSearchMsg, FullSearchState, FullSearchTask, SearchCriteria};
use hacker_news::search::{Comment, Story};

fn story(id: u64) -> Story {
    Story {
        id,
        title: String::from("story"),
        body: None,
        url: None,
        by: String::from("b"),
        ty: String::from("story"),
        descendants: 0,
        time: 0,
        score: 1,
        rank: 1,
    }
}

fn comment(id: u64, parent_id: u64) -> Comment {
    Comment {
        id,
        body: format!("comment {id}"),
        by: String::from("c"),
        time: id,
        kids: vec![],
        story_id: 1,
        parent_id,
        rank: 0,
    }
}

fn state() -> CommentState<u32> {
    CommentState {
        article: story(1),
        nav_stack: vec![NavStack::root()],
        comments: vec![],
        search: None,
        oneline: false,
        offset: 0,
        page: 1,
        full_count: 0,
        parent_id: 1,
        active_comment_id: None,
    }
}

#[test]
fn nav_root_is_first_page() {
    let root: NavStack<u32> = NavStack::root();
    assert!(root.comment.is_none());
    assert_eq!((root.offset, root.page), (0, 1));
    assert!(root.scroll_offset.is_none());
}

#[test]
fn opening_a_comment_pushes_it() {
    let mut st = state();
    let task = st.update(CommentMsg::FetchComments { parent_id: 5, parent_comment: Some(comment(5, 1)), scroll_to: None });
    assert!(matches!(task, CommentTask::FetchPage { parent_id: 5, offset: 0, scroll_to: None }));
    assert_eq!(st.nav_stack.len(), 2);
    assert_eq!(st.nav_stack[1].comment.as_ref().map(|c| c.id), Some(5));
    assert_eq!(st.parent_id, 5);
    let task = st.update(CommentMsg::PopNavStack);
    assert!(matches!(task, CommentTask::Send(CommentMsg::FetchComments { parent_id: 1, parent_comment: None, .. })));
    assert_eq!(st.nav_stack.len(), 1);
    assert_eq!(st.active_comment_id, Some(5));
    assert!(matches!(st.update(CommentMsg::PopNavStack), CommentTask::CloseComments));
    assert!(st.nav_stack.is_empty());
}

#[test]
fn paging_forward_and_back() {
    let mut st = state();
    let task = st.update(CommentMsg::Forward);
    assert!(matches!(task, CommentTask::Paginate(CommentMsg::FetchComments { parent_id: 1, .. })));
    assert_eq!((st.offset, st.page), (10, 2));
    assert_eq!((st.nav_stack[0].offset, st.nav_stack[0].page), (10, 2));
    st.update(CommentMsg::Back);
    assert_eq!((st.offset, st.page), (0, 1));
    st.update(CommentMsg::JumpPage(4));
    assert_eq!((st.offset, st.page), (30, 4));
    st.update(CommentMsg::JumpPage(0));
    assert_eq!((st.offset, st.page), (0, 0));
}

#[test]
fn searching_comments_of_a_story() {
    let mut st = state();
    match st.update(CommentMsg::Search(String::from("rust"))) {
        CommentTask::SearchPage { search, story_id, offset } => {
            assert_eq!((search.as_str(), story_id, offset), ("rust", 1, 0));
        },
        other => panic!("unexpected {other:?}"),
    }
    assert_eq!(st.search.as_deref(), Some("rust"));
    assert!(matches!(st.update(CommentMsg::Search(String::new())), CommentTask::Send(CommentMsg::CloseSearch)));
    assert!(matches!(st.update(CommentMsg::CloseSearch), CommentTask::Send(CommentMsg::JumpPage(1))));
    assert!(st.search.is_none());
}

#[test]
fn oneline_toggles_and_scroll_is_kept() {
    let mut st = state();
    st.update(CommentMsg::Oneline);
    assert!(st.oneline);
    st.update(CommentMsg::Oneline);
    assert!(!st.oneline);
    st.update(CommentMsg::ScrollOffset(77));
    assert_eq!(st.nav_stack[0].scroll_offset, Some(77));
    st.update(CommentMsg::Activate(9));
    assert_eq!(st.active_comment_id, Some(9));
    assert!(matches!(st.update(CommentMsg::ShowThread(9)), CommentTask::ShowThread(9)));
}

#[test]
fn closing_a_comment_returns_to_its_parent() {
    let mut st = state();
    st.update(CommentMsg::FetchComments { parent_id: 5, parent_comment: Some(comment(5, 1)), scroll_to: None });
    st.update(CommentMsg::FetchComments { parent_id: 6, parent_comment: Some(comment(6, 5)), scroll_to: None });
    assert_eq!(st.nav_stack.len(), 3);
    let task = st.update(CommentMsg::Close(6));
    assert_eq!(st.nav_stack.len(), 2);
    assert_eq!(st.parent_id, 1);
    assert_eq!(st.active_comment_id, Some(6));
    assert!(matches!(task, CommentTask::Send(CommentMsg::FetchComments { parent_id: 5, .. })));
}

#[test]
fn loaded_comments_are_kept() {
    let mut st = state();
    st.comments_loaded(vec![comment(2, 1), comment(3, 1)], 12);
    assert_eq!(st.comments.len(), 2);
    assert_eq!(st.full_count, 12);
}

#[test]
fn full_search_paging() {
    let mut st = FullSearchState::new(SearchCriteria::Query(String::from("a")));
    assert_eq!((st.offset, st.page, st.full_count), (0, 1, 0));
    match st.update(FullSearchMsg::Search(String::from("rust"))) {
        FullSearchTask::SearchAll { search, offset } => assert_eq!((search.as_str(), offset), ("rust", 0)),
        other => panic!("unexpected {other:?}"),
    }
    st.update(FullSearchMsg::Forward);
    assert_eq!((st.offset, st.page), (10, 2));
    assert!(matches!(st.update(FullSearchMsg::Back), FullSearchTask::Paginate(FullSearchMsg::Search(_))));
    assert_eq!((st.offset, st.page), (0, 1));
    st.update(FullSearchMsg::JumpPage(3));
    assert_eq!((st.offset, st.page), (20, 3));
    match st.update(FullSearchMsg::Search(String::from("rust"))) {
        FullSearchTask::SearchAll { offset, .. } => assert_eq!(offset, 20),
        other => panic!("unexpected {other:?}"),
    }
    match st.update(FullSearchMsg::Search(String::from("go"))) {
        FullSearchTask::SearchAll { offset, .. } => assert_eq!(offset, 0),
        other => panic!("unexpected {other:?}"),
    }
    assert_eq!(st.page, 1);
    assert!(matches!(st.update(FullSearchMsg::CloseSearch), FullSearchTask::Back));
    assert!(matches!(st.update(FullSearchMsg::Search(String::new())), FullSearchTask::Send(FullSearchMsg::CloseSearch)));
}

#[test]
fn full_search_by_story() {
    let mut st = FullSearchState::new(SearchCriteria::Query(String::from("a")));
    let task = st.update(FullSearchMsg::StoryByTime { story_id: 4, beyond: Some(100) });
    assert!(matches!(task, FullSearchTask::StoryPage { story_id: 4, beyond: Some(100), offset: 0 }));
    assert!(matches!(st.search, SearchCriteria::StoryId { story_id: 4, beyond: Some(100) }));
    st.update(FullSearchMsg::Forward);
    st.results_loaded(vec![comment(1, 4)], 11);
    assert_eq!((st.search_results.len(), st.full_count), (1, 11));
    assert!(matches!(st.update(FullSearchMsg::ShowThread(1)), FullSearchTask::ShowThread(1)));
    assert!(matches!(st.update(FullSearchMsg::OpenComment(1)), FullSearchTask::OpenComment(1)));
    let copy = st.search.duplicate();
    assert!(matches!(copy, SearchCriteria::StoryId { story_id: 4, beyond: Some(100) }));
}
