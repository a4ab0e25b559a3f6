//! The labels of a story in the live dashboard: title, author, comment
//! count, link, how its rank moved and how its comment count changed.
use vstd::prelude::*;
use vstd::string::*;
use crate::age::{clock_ok, clock_reading, date_age, date_age_at, is_age_of, reading_age, representable};
use crate::punycode::{url_display, url_punycode};
use crate::search::opt_view;
use crate::text::{decimal, owned, push_char, push_decimal_i64, push_decimal_u64};
use crate::types::{ArticleType, Item};

verus! {

/// The labels shown for a story.
#[derive(Debug)]
pub struct ArticleLabels {
    /// The title, empty when the item has none.
    pub title: String,
    /// "by" and the author.
    pub author: String,
    /// The number of comments, when there are any.
    pub comment_count: Option<String>,
    /// The link, with its host decoded from punycode.
    pub url: Option<String>,
    /// How far the rank moved, empty when it did not.
    pub order_change_label: String,
    /// How the comment count changed, signed, when it did.
    pub comment_count_changed: Option<String>,
    /// How long ago the story was posted, empty when the time is out of
    /// range or the clock cannot be read as a date.
    pub age: String,
}

/// The label of a signed change: `+` before a rise, `-` before a fall,
/// none without a change.
pub open spec fn change_label(n: int) -> Option<Seq<char>> {
    if n < 0 {
        Some(decimal(n))
    } else if n > 0 {
        Some(seq!['+'] + decimal(n))
    } else {
        None
    }
}

/// The label of a rank move: the signed number, empty when it is 0.
pub open spec fn order_label(n: int) -> Seq<char> {
    if n == 0 { Seq::empty() } else { decimal(n) }
}

/// The label of a comment count: the number when there are comments.
pub open spec fn count_label(descendants: Option<u64>) -> Option<Seq<char>> {
    match descendants {
        Some(n) => if n > 0 { Some(decimal(n as int)) } else { None },
        None => None,
    }
}

/// The label of a signed change.
pub fn changed_label(n: i64) -> (r: Option<String>)
    ensures
        opt_view(r) == change_label(n as int),
{
    if n < 0 {
        let mut s = String::new();
        push_decimal_i64(&mut s, n);
        Some(s)
    } else if n > 0 {
        let mut s = String::new();
        push_char(&mut s, '+');
        push_decimal_i64(&mut s, n);
        proof {
            assert(decimal(n as int) == crate::text::decimal_digits(n as nat));
        }
        Some(s)
    } else {
        None
    }
}

/// The labels of `item`, whose rank moved by `order_change` and whose
/// comment count changed by `comment_count_changed` since the last
/// refresh, its age as of the clock reading `reading`.
pub fn article_labels_at(
    item: &Item,
    order_change: i64,
    comment_count_changed: i64,
    reading: Option<(u64, u32)>,
) -> (r: ArticleLabels)
    requires
        clock_ok(reading),
    ensures
        r.title@ == match item.title {
            Some(t) => t@,
            None => Seq::<char>::empty(),
        },
        r.author@ == "by "@ + item.by@,
        opt_view(r.comment_count) == count_label(item.descendants),
        opt_view(r.url) == match item.url {
            Some(u) => Some(url_display(u@)),
            None => None,
        },
        r.order_change_label@ == order_label(order_change as int),
        opt_view(r.comment_count_changed) == change_label(comment_count_changed as int),
        r.age@ == label_or_empty(date_age(item.time, reading)),
{
    let title = match &item.title {
        Some(t) => owned(t.as_str()),
        None => String::new(),
    };
    let mut author = owned("by ");
    author.append(item.by.as_str());
    let comment_count = match item.descendants {
        Some(n) => {
            if n > 0 {
                let mut s = String::new();
                push_decimal_u64(&mut s, n);
                Some(s)
            } else {
                None
            }
        },
        None => None,
    };
    let url = match &item.url {
        Some(u) => Some(url_punycode(u.as_str())),
        None => None,
    };
    let order_change_label = if order_change == 0 {
        String::new()
    } else {
        let mut s = String::new();
        push_decimal_i64(&mut s, order_change);
        s
    };
    let age = match date_age_at(item.time, reading) {
        Some(a) => a,
        None => String::new(),
    };
    ArticleLabels {
        title,
        author,
        comment_count,
        url,
        order_change_label,
        comment_count_changed: changed_label(comment_count_changed),
        age,
    }
}

/// The labels of `item`, whose rank moved by `order_change` and whose
/// comment count changed by `comment_count_changed` since the last
/// refresh, its age as of the current time: what [`article_labels_at`]
/// gives for the clock's reading.
pub fn article_labels(item: &Item, order_change: i64, comment_count_changed: i64) -> (r: ArticleLabels)
    ensures
        exists|reading: Option<(u64, u32)>| clock_ok(reading) && #[trigger] article_labels_spec(item, order_change, comment_count_changed, reading, r),
        r.age@.len() == 0 || (representable((item.time as i64) as int) && is_age_of(r.age@, (item.time as i64) as int)),
        !representable((item.time as i64) as int) ==> r.age@.len() == 0,
{
    let reading = clock_reading();
    let r = article_labels_at(item, order_change, comment_count_changed, reading);
    proof {
        if r.age@.len() > 0 {
            let l = date_age(item.time, reading);
            assert(l is Some);
            let t = reading->0;
            assert(reading_age(t.0, t.1, (item.time as i64) as int) == l);
        }
    }
    assert(article_labels_spec(item, order_change, comment_count_changed, reading, r));
    r
}

/// A label, or the empty text for none.
pub open spec fn label_or_empty(l: Option<Seq<char>>) -> Seq<char> {
    match l {
        Some(s) => s,
        None => Seq::empty(),
    }
}

/// Whether `r` holds the labels of `item` with its age as of `reading`.
pub open spec fn article_labels_spec(
    item: &Item,
    order_change: i64,
    comment_count_changed: i64,
    reading: Option<(u64, u32)>,
    r: ArticleLabels,
) -> bool {
    &&& r.title@ == match item.title {
        Some(t) => t@,
        None => Seq::<char>::empty(),
    }
    &&& r.author@ == "by "@ + item.by@
    &&& opt_view(r.comment_count) == count_label(item.descendants)
    &&& opt_view(r.url) == match item.url {
        Some(u) => Some(url_display(u@)),
        None => None,
    }
    &&& r.order_change_label@ == order_label(order_change as int)
    &&& opt_view(r.comment_count_changed) == change_label(comment_count_changed as int)
    &&& r.age@ == label_or_empty(date_age(item.time, reading))
}

/// What turning the live subscription on or off does.
#[derive(Debug, Copy, Clone, PartialEq, Eq, Structural)]
pub enum OnlineAction {
    /// Nothing changes.
    Keep,
    /// Start the background subscription again.
    Restart,
    /// Drop the background subscription and go offline.
    Stop,
}

/// What asking for the subscription to be `enable`d does when it is
/// `online`: nothing when that is already so.
pub fn online_toggle(online: bool, enable: bool) -> (r: OnlineAction)
    ensures
        r == (if online == enable {
            OnlineAction::Keep
        } else if enable {
            OnlineAction::Restart
        } else {
            OnlineAction::Stop
        }),
{
    if online == enable {
        OnlineAction::Keep
    } else if enable {
        OnlineAction::Restart
    } else {
        OnlineAction::Stop
    }
}

/// Whether a subscription that ended for `terminated` is to be started
/// again: only when it is the category shown.
pub fn restart_after_termination(terminated: ArticleType, current: ArticleType) -> (r: bool)
    ensures
        r == (terminated == current),
{
    terminated == current
}

} // verus!
