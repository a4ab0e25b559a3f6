//! Keeping the index in step with the live site: the version of a watched
//! story that was last indexed, the chain of parents walked from a comment
//! up to its story, the walk down a story's comment tree, and the ranks
//! stories and comments are collected with.
use vstd::prelude::*;
use crate::search::{
    descendant_count, next_parent, story_event_action, Comment, CommentView, Story, StoryEventAction, StoryView,
};
use crate::types::Item;

verus! {

/// A watched story as last indexed.
#[derive(Debug)]
pub struct WatchedStory {
    pub current: Story,
}

/// What a new version `latest` of a story indexed with `descendants`
/// comments and `score` points asks for: stop once it is dead or deleted,
/// index it again when its comment count or score moved, else nothing.
pub open spec fn event_action(descendants: u64, score: u64, latest: Item) -> StoryEventAction {
    if latest.deleted || latest.dead {
        StoryEventAction::Stop
    } else if descendant_count(latest) != descendants || latest.score != score {
        StoryEventAction::Rebuild
    } else {
        StoryEventAction::Ignore
    }
}

/// The story as indexed again: the comment count and score of `fresh`.
pub open spec fn after_rebuild(current: StoryView, fresh: StoryView) -> StoryView {
    StoryView { descendants: fresh.descendants, score: fresh.score, ..current }
}

impl WatchedStory {
    /// Starts watching `story` as it is indexed now.
    pub fn new(story: Story) -> (r: Self)
        ensures
            r.current@ == story@,
    {
        WatchedStory { current: story }
    }

    /// What to do with a new version `latest` of the story.
    pub fn on_event(&self, latest: &Item) -> (r: StoryEventAction)
        ensures
            r == event_action(self.current.descendants, self.current.score, *latest),
    {
        story_event_action(&self.current, latest)
    }

    /// The story was indexed again and reads back as `fresh`: its comment
    /// count and score are the ones now indexed.
    pub fn rebuilt(&mut self, fresh: &Story)
        ensures
            final(self).current@ == after_rebuild(old(self).current@, fresh@),
    {
        self.current.descendants = fresh.descendants;
        self.current.score = fresh.score;
    }
}

/// Once a version has been indexed again, the same version asks for no
/// more rebuilding.
pub proof fn lemma_indexed_version_is_ignored(current: StoryView, fresh: StoryView, latest: Item)
    requires
        !latest.deleted,
        !latest.dead,
        fresh.descendants == descendant_count(latest),
        fresh.score == latest.score,
    ensures
        event_action(after_rebuild(current, fresh).descendants, after_rebuild(current, fresh).score, latest)
            == StoryEventAction::Ignore,
{
}

/// Whether each comment of `chain` but the last hangs off a comment, the
/// next one.
pub open spec fn links_up(chain: Seq<CommentView>) -> bool {
    forall|i: int| 0 <= i < chain.len() - 1 ==> chain[i].parent_id != chain[i].story_id && #[trigger] chain[i + 1].id == chain[i].parent_id
}

/// Whether `chain` is a comment followed by its ancestors: each comment's
/// parent is the next one, and only the last hangs off the story.
pub open spec fn is_parent_chain(chain: Seq<CommentView>) -> bool {
    &&& chain.len() > 0
    &&& links_up(chain)
    &&& chain.last().parent_id == chain.last().story_id
}

/// The chain of a comment and its parents, walked up to the story.
#[derive(Debug)]
pub struct ParentWalk {
    pub comments: Vec<Comment>,
}

/// The view of a list of comments.
pub open spec fn chain_view(v: Seq<Comment>) -> Seq<CommentView> {
    Seq::new(v.len(), |i: int| v[i]@)
}

impl ParentWalk {
    /// Starts the walk at `comment`.
    pub fn new(comment: Comment) -> (r: Self)
        ensures
            chain_view(r.comments@) == seq![comment@],
    {
        let mut comments = Vec::new();
        comments.push(comment);
        let r = ParentWalk { comments };
        assert(chain_view(r.comments@) =~= seq![comment@]);
        r
    }

    /// The id of the next parent to look up, none once the last comment
    /// hangs off the story.
    pub fn next_id(&self) -> (r: Option<u64>)
        requires
            self.comments@.len() > 0,
        ensures
            r == if self.comments@.last().parent_id != self.comments@.last().story_id {
                Some(self.comments@.last().parent_id)
            } else {
                None::<u64>
            },
    {
        next_parent(&self.comments[self.comments.len() - 1])
    }

    /// Adds the parent that was looked up.
    pub fn push(&mut self, parent: Comment)
        ensures
            chain_view(final(self).comments@) == chain_view(old(self).comments@).push(parent@),
    {
        self.comments.push(parent);
        assert(chain_view(self.comments@) =~= chain_view(old(self).comments@).push(parent@));
    }
}

/// A walk that adds, while there is a next parent, a comment with that id
/// ends in a parent chain.
pub proof fn lemma_walk_builds_chain(chain: Seq<CommentView>, parent: CommentView)
    requires
        chain.len() > 0,
        links_up(chain),
        chain.last().parent_id != chain.last().story_id,
        parent.id == chain.last().parent_id,
    ensures
        links_up(chain.push(parent)),
        parent.parent_id == parent.story_id ==> is_parent_chain(chain.push(parent)),
{
    let c = chain.push(parent);
    assert forall|i: int| 0 <= i < c.len() - 1 implies c[i].parent_id != c[i].story_id && c[i + 1].id == c[i].parent_id by {
        if i < chain.len() - 1 {
            assert(c[i] == chain[i] && c[i + 1] == chain[i + 1]);
            assert(chain[i + 1].id == chain[i].parent_id);
        } else {
            assert(c[i] == chain.last());
            assert(c[i + 1] == parent);
        }
    }
    assert(c.last() == parent);
}

/// The stories in their order, each with its rank counted from 1.
pub fn ranked<T>(stories: Vec<T>) -> (r: Vec<(T, u64)>)
    requires
        stories@.len() < u64::MAX,
    ensures
        r@.len() == stories@.len(),
        forall|i: int| 0 <= i < r@.len() ==> #[trigger] r@[i] == (stories@[i], (i + 1) as u64),
{
    let ghost all = stories@;
    let mut out: Vec<(T, u64)> = Vec::new();
    let mut rank: u64 = 1;
    for story in iter: stories.into_iter()
        invariant
            all.len() < u64::MAX,
            iter.seq() == all,
            out@.len() == iter.index(),
            rank == iter.index() + 1,
            forall|i: int| 0 <= i < out@.len() ==> #[trigger] out@[i] == (all[i], (i + 1) as u64),
    {
        out.push((story, rank));
        rank = rank + 1;
    }
    out
}

/// The fetched items among fetch results, in order; failures are skipped.
pub open spec fn fetched<E>(results: Seq<Result<Item, E>>) -> Seq<Item>
    decreases results.len(),
{
    if results.len() == 0 {
        Seq::empty()
    } else {
        match results.last() {
            Ok(item) => fetched(results.drop_last()).push(item),
            Err(_) => fetched(results.drop_last()),
        }
    }
}

/// Items with their ranks counted from 1, in order.
pub open spec fn ranks_of(items: Seq<Item>) -> Seq<(Item, u64)> {
    Seq::new(items.len(), |i: int| (items[i], (i + 1) as u64))
}

/// The walk down the comment tree of a story: the comments fetched but
/// not yet written, each with its rank among its siblings. The last one
/// fetched is written first, and its children are fetched before the
/// comments that wait below them.
#[derive(Debug)]
pub struct CommentWalk {
    pub pending: Vec<(Item, u64)>,
}

impl CommentWalk {
    /// A walk starting from the results of fetching a story's comments:
    /// the fetched ones, ranked in order; failures are skipped.
    pub fn new<E>(children: Vec<Result<Item, E>>) -> (r: Self)
        requires
            children@.len() < u64::MAX,
        ensures
            r.pending@ == ranks_of(fetched(children@)),
    {
        let mut walk = CommentWalk { pending: Vec::new() };
        walk.add_children(children);
        assert(Seq::<(Item, u64)>::empty() + ranks_of(fetched(children@)) =~= ranks_of(fetched(children@)));
        walk
    }

    /// Adds the results of fetching a comment's children: the fetched
    /// ones, ranked in order, after those waiting; failures are skipped.
    pub fn add_children<E>(&mut self, children: Vec<Result<Item, E>>)
        requires
            children@.len() < u64::MAX,
        ensures
            final(self).pending@ == old(self).pending@ + ranks_of(fetched(children@)),
    {
        let ghost all = children@;
        let ghost start = self.pending@;
        let mut rank: u64 = 1;
        for child in iter: children.into_iter()
            invariant
                all.len() < u64::MAX,
                iter.seq() == all,
                fetched(all.take(iter.index())).len() < rank <= iter.index() + 1,
                rank == fetched(all.take(iter.index())).len() + 1,
                self.pending@ == start + ranks_of(fetched(all.take(iter.index()))),
        {
            let ghost before = fetched(all.take(iter.index()));
            assert(all.take(iter.index() + 1).drop_last() =~= all.take(iter.index()));
            match child {
                Ok(item) => {
                    self.pending.push((item, rank));
                    rank = rank + 1;
                    assert(ranks_of(before.push(item)) =~= ranks_of(before).push((item, (before.len() + 1) as u64)));
                },
                Err(_) => {},
            }
            assert(self.pending@ =~= start + ranks_of(fetched(all.take(iter.index() + 1))));
        }
        assert(all.take(all.len() as int) =~= all);
    }

    /// The next comment to write, with its rank: the last one waiting.
    pub fn next(&mut self) -> (r: Option<(Item, u64)>)
        ensures
            old(self).pending@.len() == 0 ==> r is None && final(self).pending@ == old(self).pending@,
            old(self).pending@.len() > 0 ==> r == Some(old(self).pending@.last())
                && final(self).pending@ == old(self).pending@.drop_last(),
    {
        self.pending.pop()
    }
}

} // verus!
