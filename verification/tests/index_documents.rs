use hacker_news::config::{nofile_limit_to_set, IndexConfig, DESIRED_NOFILE_LIMIT};
use hacker_news::search::{
    comment_from_doc, document_fields, missing_field, needs_reindex, next_parent, parse_u64, story_event_action,
    story_from_doc, story_search_query, str_value, top_stories_query, u64_value, u64_values, Comment, DocField,
    DocValue, IndexStats, SearchError, Story, StoryEventAction, StoryQuery,
};
use hacker_news::stories::{comment_from_fields, comments_query, story_from_fields};
use hacker_news::types::{ArticleType, Item};

fn item(ty: &str) -> Item {
    Item {
        id: 7,
        kids: vec![11, 12],
        text: Some(String::from("body text")),
        url: Some(String::from("https://example.com")),
        title: Some(String::from("A title")),
        score: 42,
        time: 1_700_000_000,
        by: String::from("alice"),
        dead: false,
        deleted: false,
        ty: String::from(ty),
        parent: if ty == "comment" { Some(5) } else { None },
        descendants: if ty == "story" { Some(3) } else { None },
    }
}

fn story(descendants: u64, score: u64) -> Story {
    Story {
        id: 7,
        title: String::from("t"),
        body: None,
        url: None,
        by: String::from("b"),
        ty: String::from("story"),
        descendants,
        time: 1,
        score,
        rank: 1,
    }
}

fn field(name: &str, value: DocValue) -> DocField {
    DocField { name: String::from(name), value }
}

#[test]
fn story_written_then_read_back() {
    let doc = document_fields(&item("story"), 3, None, "top");
    let story = story_from_doc(&doc).expect("a complete story");
    assert_eq!(story.id, 7);
    assert_eq!(story.title, "A title");
    assert_eq!(story.body.as_deref(), Some("body text"));
    assert_eq!(story.url.as_deref(), Some("https://example.com"));
    assert_eq!(story.by, "alice");
    assert_eq!(story.ty, "story");
    assert_eq!(story.descendants, 3);
    assert_eq!(story.time, 1_700_000_000);
    assert_eq!(story.score, 42);
    assert_eq!(story.rank, 3);
    assert_eq!(str_value(&doc, "category").as_deref(), Some("top"));
    assert_eq!(u64_values(&doc, "kids"), vec![11, 12]);
}

#[test]
fn comment_written_then_read_back() {
    let doc = document_fields(&item("comment"), 2, Some(99), "top");
    let comment = comment_from_doc(&doc).expect("a complete comment");
    assert_eq!(comment.id, 7);
    assert_eq!(comment.body, "body text");
    assert_eq!(comment.by, "alice");
    assert_eq!(comment.time, 1_700_000_000);
    assert_eq!(comment.kids, vec![11, 12]);
    assert_eq!(comment.story_id, 99);
    assert_eq!(comment.parent_id, 5);
    assert_eq!(comment.rank, 2);
    assert_eq!(str_value(&doc, "category"), None);
}

#[test]
fn missing_fields_are_named() {
    let doc = vec![field("id", DocValue::U64(1)), field("title", DocValue::Str(String::from("t")))];
    match story_from_doc(&doc) {
        Err(SearchError::MissingField(name)) => assert_eq!(name, "by"),
        other => panic!("unexpected {other:?}"),
    }
    match comment_from_doc(&doc) {
        Err(SearchError::MissingField(name)) => assert_eq!(name, "body"),
        other => panic!("unexpected {other:?}"),
    }
    match story_from_doc(&vec![]) {
        Err(SearchError::MissingField(name)) => assert_eq!(name, "id"),
        other => panic!("unexpected {other:?}"),
    }
    assert!(matches!(missing_field("rank"), SearchError::MissingField(n) if n == "rank"));
}

#[test]
fn defaults_for_optional_story_fields() {
    let doc = vec![
        field("id", DocValue::U64(1)),
        field("title", DocValue::Str(String::from("t"))),
        field("by", DocValue::Str(String::from("b"))),
        field("type", DocValue::Str(String::from("job"))),
        field("time", DocValue::U64(5)),
        field("rank", DocValue::U64(2)),
    ];
    let story = story_from_doc(&doc).expect("complete");
    assert_eq!(story.descendants, 0);
    assert_eq!(story.score, 1);
    assert_eq!(story.body, None);
}

#[test]
fn field_reads_take_the_last_value_of_the_right_kind() {
    let doc = vec![
        field("id", DocValue::U64(1)),
        field("id", DocValue::U64(2)),
        field("title", DocValue::U64(3)),
        field("kids", DocValue::U64(4)),
        field("kids", DocValue::Other),
        field("kids", DocValue::U64(5)),
    ];
    assert_eq!(u64_value(&doc, "id"), Some(2));
    assert_eq!(str_value(&doc, "title"), None);
    assert_eq!(u64_value(&doc, "title"), Some(3));
    assert_eq!(u64_value(&doc, "missing"), None);
    assert_eq!(u64_values(&doc, "kids"), vec![4, 5]);
}

#[test]
fn numbers_parse_like_std() {
    assert_eq!(parse_u64("0"), Some(0));
    assert_eq!(parse_u64("+12"), Some(12));
    assert_eq!(parse_u64("18446744073709551615"), Some(u64::MAX));
    assert_eq!(parse_u64("18446744073709551616"), None);
    assert_eq!(parse_u64(""), None);
    assert_eq!(parse_u64("+"), None);
    assert_eq!(parse_u64("-1"), None);
    assert_eq!(parse_u64("12a"), None);
    for s in ["0", "7", "+7", "123456", "99999999999999999999", "x", "1 2"] {
        assert_eq!(parse_u64(s), s.parse::<u64>().ok());
    }
}

#[test]
fn story_queries() {
    assert!(matches!(story_search_query("8863"), StoryQuery::ById(8863)));
    match story_search_query("rust") {
        StoryQuery::Text(q) => assert_eq!(q, "type: IN [story, job, poll] AND title:rust"),
        other => panic!("unexpected {other:?}"),
    }
    assert_eq!(top_stories_query(), "type: IN [story, job, poll]");
}

#[test]
fn parents_stop_at_the_story() {
    let mut c = Comment {
        id: 3,
        body: String::new(),
        by: String::new(),
        time: 0,
        kids: vec![],
        story_id: 1,
        parent_id: 2,
        rank: 0,
    };
    assert_eq!(next_parent(&c), Some(2));
    c.parent_id = 1;
    assert_eq!(next_parent(&c), None);
}

#[test]
fn watched_story_events() {
    let mut latest = item("story");
    let current = story(3, 42);
    assert_eq!(story_event_action(&current, &latest), StoryEventAction::Ignore);
    assert!(!needs_reindex(&current, &latest));
    latest.score = 43;
    assert_eq!(story_event_action(&current, &latest), StoryEventAction::Rebuild);
    assert!(!needs_reindex(&current, &latest));
    latest.descendants = Some(4);
    assert!(needs_reindex(&current, &latest));
    latest.descendants = None;
    assert!(needs_reindex(&current, &latest));
    assert_eq!(story_event_action(&story(0, 43), &latest), StoryEventAction::Ignore);
    latest.dead = true;
    assert_eq!(story_event_action(&current, &latest), StoryEventAction::Stop);
}

#[test]
fn legacy_documents() {
    let doc = document_fields(&item("story"), 3, None, "top");
    let s = story_from_fields(&doc).expect("complete");
    assert_eq!((s.id, s.descendants, s.time), (7, 3, 1_700_000_000));
    assert_eq!(s.title, "A title");
    let job = document_fields(&item("job"), 3, None, "top");
    assert!(story_from_fields(&job).is_none());
    let c = comment_from_fields(&document_fields(&item("comment"), 1, Some(9), "top")).expect("complete");
    assert_eq!((c.id, c.body.as_str(), c.by.as_str(), c.time), (7, "body text", "alice", 1_700_000_000));
    assert!(comment_from_fields(&vec![field("id", DocValue::U64(1))]).is_none());
    assert_eq!(comments_query(42), "parent_id:42");
    assert_eq!(hacker_news::stories::top_stories_query(), "category:top AND type:story");
}

fn stats(category: ArticleType, total_documents: u64) -> IndexStats {
    IndexStats {
        total_documents,
        total_comments: 0,
        total_stories: 0,
        total_jobs: 0,
        total_polls: 0,
        build_time: std::time::Duration::from_secs(1),
        built_on: 0,
        category,
    }
}

#[test]
fn index_config() {
    let config = IndexConfig::default();
    assert!(config.index_stats.is_empty());
    assert_eq!(config.viewing_count, 0);
    assert_eq!(config.viewing_type, ArticleType::Top);
    let config = IndexConfig {
        index_stats: vec![stats(ArticleType::Top, 1), stats(ArticleType::New, 2), stats(ArticleType::Top, 3)],
        viewing_count: 10,
        viewing_type: ArticleType::New,
    };
    assert_eq!(config.stats_for(ArticleType::Top).map(|s| s.total_documents), Some(3));
    assert_eq!(config.stats_for(ArticleType::New).map(|s| s.total_documents), Some(2));
    assert!(config.stats_for(ArticleType::Job).is_none());
}

#[test]
fn open_files_limit() {
    assert_eq!(nofile_limit_to_set(1024, 4096), Some((DESIRED_NOFILE_LIMIT, DESIRED_NOFILE_LIMIT)));
    assert_eq!(nofile_limit_to_set(10_239, 10_239), Some((10_240, 10_240)));
    assert_eq!(nofile_limit_to_set(1024, 1_048_576), Some((10_240, 1_048_576)));
    assert_eq!(nofile_limit_to_set(256, u64::MAX), Some((10_240, u64::MAX)));
    assert_eq!(nofile_limit_to_set(10_240, 10_240), None);
    assert_eq!(nofile_limit_to_set(u64::MAX, u64::MAX), None);
}

#[test]
fn story_age_labels() {
    let mut s = story(0, 0);
    s.time = 1;
    assert!(s.age_label().expect("representable").ends_with(" days ago"));
    s.time = u64::MAX;
    assert_eq!(s.age_label(), None);
}

#[test]
fn untitled_story_reads_back_as_missing_title() {
    let mut untitled = item("story");
    untitled.title = None;
    let doc = document_fields(&untitled, 3, None, "top");
    match story_from_doc(&doc) {
        Err(SearchError::MissingField(name)) => assert_eq!(name, "title"),
        _ => panic!("an untitled story must not read back"),
    }
}

#[test]
fn recording_index_stats_replaces_the_category() {
    let mut config = IndexConfig {
        index_stats: vec![stats(ArticleType::Top, 1), stats(ArticleType::New, 2), stats(ArticleType::Top, 3)],
        viewing_count: 10,
        viewing_type: ArticleType::New,
    };
    config.record_stats(stats(ArticleType::Top, 9));
    let kept: Vec<(ArticleType, u64)> = config.index_stats.iter().map(|s| (s.category, s.total_documents)).collect();
    assert_eq!(kept, vec![(ArticleType::New, 2), (ArticleType::Top, 9)]);
    assert_eq!((config.viewing_count, config.viewing_type), (10, ArticleType::New));
    config.record_stats(stats(ArticleType::Job, 4));
    assert_eq!(config.index_stats.len(), 3);
    assert_eq!(config.stats_for(ArticleType::Job).map(|s| s.total_documents), Some(4));
}
