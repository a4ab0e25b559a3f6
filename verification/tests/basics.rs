use hacker_news::age::{age_at_reading, age_label, clock_reading, date_age_at, friendly_age_at, parse_date, parse_friendly_age};
use hacker_news::feed::{
    article_endpoint, articles_url, event_payload, is_live, item_page_url, item_url, keep_live, truncate_ids,
    user_url,
};
use hacker_news::punycode::{port_string, url_punycode};
use hacker_news::text::{chars_of, owned, str_eq, string_of, u64_to_decimal};
use hacker_news::types::{ArticleType, Item, ResultExt};

fn item(id: u64, dead: bool, deleted: bool) -> Item {
    Item {
        id,
        kids: vec![],
        text: None,
        url: None,
        title: None,
        score: 0,
        time: 0,
        by: String::from("a"),
        dead,
        deleted,
        ty: String::from("story"),
        parent: None,
        descendants: None,
    }
}

#[test]
fn decimal_rendering() {
    assert_eq!(u64_to_decimal(0), "0");
    assert_eq!(u64_to_decimal(42), "42");
    assert_eq!(u64_to_decimal(u64::MAX), "18446744073709551615");
}

#[test]
fn string_helpers() {
    assert!(str_eq("abc", "abc"));
    assert!(!str_eq("abc", "abd"));
    assert_eq!(owned("héllo"), "héllo");
    let chars = chars_of("héllo");
    assert_eq!(chars, vec!['h', 'é', 'l', 'l', 'o']);
    assert_eq!(string_of(&chars, 1, 3), "él");
}

#[test]
fn article_type_names_round_trip() {
    for t in [ArticleType::New, ArticleType::Best, ArticleType::Top, ArticleType::Ask, ArticleType::Show, ArticleType::Job] {
        assert_eq!(ArticleType::parse(t.as_str()), Some(t));
        assert_eq!(t.to_string(), t.as_str());
    }
    assert_eq!(ArticleType::parse("top"), None);
    assert_eq!(ArticleType::parse(""), None);
    assert_eq!("Show".parse::<ArticleType>(), Ok(ArticleType::Show));
    assert!("Nope".parse::<ArticleType>().is_err());
    assert_eq!(ArticleType::default(), ArticleType::Top);
}

#[test]
fn result_ext_keeps_result() {
    let ok: Result<u32, String> = Ok(3);
    assert_eq!(ok.log_error(), Ok(3));
    let err: Result<u32, String> = Err(String::from("bad"));
    assert_eq!(err.log_error(), Err(String::from("bad")));
}

#[test]
fn endpoints() {
    assert_eq!(article_endpoint(ArticleType::New), "newstories.json");
    assert_eq!(article_endpoint(ArticleType::Job), "jobstories.json");
    assert_eq!(articles_url(ArticleType::Top), "https://hacker-news.firebaseio.com/v0/topstories.json");
    assert_eq!(item_url(8863), "https://hacker-news.firebaseio.com/v0/item/8863.json");
    assert_eq!(user_url("pg"), "https://hacker-news.firebaseio.com/v0/user/pg.json");
    assert_eq!(item_page_url(1), "https://news.ycombinator.com/item?id=1");
}

#[test]
fn truncating_ids() {
    let mut ids = vec![1, 2, 3, 4];
    truncate_ids(&mut ids, 2);
    assert_eq!(ids, vec![1, 2]);
    let mut ids = vec![1, 2];
    truncate_ids(&mut ids, 5);
    assert_eq!(ids, vec![1, 2]);
}

#[test]
fn live_items_are_kept() {
    assert!(is_live(&item(1, false, false)));
    assert!(!is_live(&item(1, true, false)));
    assert!(!is_live(&item(1, false, true)));
    let kept = keep_live(vec![item(1, false, false), item(2, true, false), item(3, false, true), item(4, false, false)]);
    let ids: Vec<u64> = kept.iter().map(|i| i.id).collect();
    assert_eq!(ids, vec![1, 4]);
}

#[test]
fn event_payloads() {
    assert_eq!(
        event_payload(b"event: put\ndata: {\"path\":\"/\"}\n\n"),
        Some(b"{\"path\":\"/\"}".to_vec())
    );
    assert_eq!(event_payload(b"event: put\ndata: [1,2]"), Some(b"[1,2]".to_vec()));
    assert_eq!(event_payload(b"event: keep-alive\ndata: null\n"), None);
    assert_eq!(event_payload(b"event: put"), None);
    assert_eq!(event_payload(b"event: put\nnope: 1\n"), None);
    assert_eq!(event_payload(b""), None);
}

#[test]
fn age_labels() {
    assert_eq!(age_label(0), "0 minutes ago");
    assert_eq!(age_label(60), "1 minute ago");
    assert_eq!(age_label(59 * 60), "59 minutes ago");
    assert_eq!(age_label(3600), "1 hour ago");
    assert_eq!(age_label(5 * 3600 + 10), "5 hours ago");
    assert_eq!(age_label(86400), "1 day ago");
    assert_eq!(age_label(3 * 86400 + 5), "3 days ago");
    assert_eq!(age_label(-120), "-2 minutes ago");
}

#[test]
fn friendly_ages() {
    let label = parse_friendly_age(1).expect("an old time");
    assert!(label.ends_with(" days ago"));
    assert_eq!(parse_friendly_age(u64::MAX), None);
    assert_eq!(parse_friendly_age(9_000_000_000_000_000), None);
    let label = parse_date(1_000_000_000).expect("a representable time");
    assert!(label.ends_with(" days ago"));
    assert!(parse_date(9_000_000_000_000_000).is_none());
}

#[test]
fn earliest_and_latest_dates() {
    assert!(parse_date((-8_334_601_228_800i64) as u64).is_some());
    assert!(parse_date((-8_334_601_228_801i64) as u64).is_none());
    assert!(parse_date((-8_334_601_315_200i64) as u64).is_none());
    assert!(parse_date(8_210_266_876_799).is_some());
    assert!(parse_date(8_210_266_876_800).is_none());
}

#[test]
fn ports_of_display_urls() {
    assert_eq!(port_string("http", Some(80)), "");
    assert_eq!(port_string("https", Some(443)), "");
    assert_eq!(port_string("http", Some(8080)), ":8080");
    assert_eq!(port_string("https", Some(80)), ":80");
    assert_eq!(port_string("http", None), "");
}

#[test]
fn punycode_hosts_are_decoded() {
    assert_eq!(url_punycode("https://xn--bcher-kva.example/path"), "https://bücher.example/path");
    assert_eq!(url_punycode("http://example.com:8080/a"), "http://example.com:8080/a");
    assert_eq!(url_punycode("not a url"), "not a url");
    assert_eq!(url_punycode("mailto:someone"), "mailto:someone");
}

#[test]
fn display_urls_keep_query_and_fragment() {
    assert_eq!(url_punycode("https://example.com/a?b=1#c"), "https://example.com/a?b=1#c");
    assert_eq!(url_punycode("see below"), "see below");
    assert_eq!(url_punycode("HTTPS://Example.COM/a"), "HTTPS://Example.COM/a");
    assert_eq!(
        url_punycode("https://xn--bcher-kva.example/p?q=1#top"),
        "https://bücher.example/p?q=1#top"
    );
    assert_eq!(
        url_punycode("http://user:pw@xn--bcher-kva.example:8080/p"),
        "http://user:pw@bücher.example:8080/p"
    );
    assert_eq!(url_punycode("https://xn--bcher-kva.example:443/"), "https://bücher.example/");
}

#[test]
fn ages_at_clock_readings() {
    let then: i64 = 1_700_000_000;
    assert_eq!(age_at_reading(1_700_000_000, 0, then).as_deref(), Some("0 minutes ago"));
    assert_eq!(age_at_reading(1_700_000_060, 0, then).as_deref(), Some("1 minute ago"));
    assert_eq!(age_at_reading(1_700_000_000 + 3 * 3600 + 5, 500, then).as_deref(), Some("3 hours ago"));
    assert_eq!(age_at_reading(1_700_000_000 + 86_400, 999_999_999, then).as_deref(), Some("1 day ago"));
    assert_eq!(age_at_reading(1_700_000_000 - 120, 0, then).as_deref(), Some("-2 minutes ago"));
    assert_eq!(age_at_reading(1_699_999_999, 500_000_000, then).as_deref(), Some("0 minutes ago"));
    assert_eq!(age_at_reading(u64::MAX, 0, then), None);
    assert_eq!(age_at_reading(8_210_266_876_800, 0, then), None);
    let reading = Some((1_700_000_000 + 5 * 86_400, 0));
    assert_eq!(friendly_age_at(1_700_000_000, reading).as_deref(), Some("5 days ago"));
    assert_eq!(friendly_age_at(1_700_000_000, None), None);
    assert_eq!(friendly_age_at(u64::MAX, reading), None);
    assert_eq!(date_age_at(1_700_000_000, reading).as_deref(), Some("5 days ago"));
    assert_eq!(date_age_at(9_000_000_000_000_000, reading), None);
    let (secs, nanos) = clock_reading().expect("a clock after 1970");
    assert!(secs > 1_700_000_000 && nanos < 1_000_000_000);
}
