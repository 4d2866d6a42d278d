//! The feed data model: articles, feeds, the per-source state and its flat
//! projection for the presentation layer.

use vstd::prelude::*;

verus! {

/// One article of a feed, in document order. A date is carried as a plain
/// timestamp in seconds.
#[derive(Debug, Clone, PartialEq)]
pub struct Article {
    pub title: Option<String>,
    pub authors: Option<String>,
    pub date: Option<i64>,
    pub summary: String,
    pub url: String,
}

/// A parsed feed for one source at one point in time: the source name and
/// its articles in document order, never re-sorted and never deduplicated.
#[derive(Debug, Clone, PartialEq)]
pub struct Feed {
    pub name: String,
    pub articles: Vec<Article>,
}

impl Feed {
    /// Builds a feed from a source name and its articles, kept as given.
    pub fn new(name: String, articles: Vec<Article>) -> (r: Feed)
        ensures
            r.name == name,
            r.articles == articles,
    {
        Feed { name, articles }
    }

    /// The source this feed was fetched for.
    pub fn name(&self) -> (r: &String)
        ensures
            r == &self.name,
    {
        &self.name
    }

    /// The articles of the feed, in document order.
    pub fn articles(&self) -> (r: &Vec<Article>)
        ensures
            r == &self.articles,
    {
        &self.articles
    }

    /// How many articles the feed holds.
    pub fn len(&self) -> (r: usize)
        ensures
            r == self.articles@.len(),
    {
        self.articles.len()
    }

    /// The article at position `i`, if the feed has one there.
    pub fn get(&self, i: usize) -> (r: Option<&Article>)
        ensures
            match r {
                Some(a) => i < self.articles@.len() && *a == self.articles@[i as int],
                None => i >= self.articles@.len(),
            },
    {
        if i < self.articles.len() {
            Some(&self.articles[i])
        } else {
            None
        }
    }
}

/// What is known about one source right now: a fetch in flight, the feed of
/// the last successful fetch, or the cause of the last failure.
#[derive(Debug, Clone, PartialEq)]
pub enum FeedState {
    Loading,
    Success(Feed),
    Error(String),
}

/// The three-way status projection of a `FeedState`, stripped of its
/// payload, for cheap presentation queries.
#[derive(Debug, Clone, Copy, PartialEq, Eq, Structural)]
pub enum FlatFeedState {
    Loading,
    Success,
    Error,
}

/// The flat projection of a feed state.
pub open spec fn flat_of(s: FeedState) -> FlatFeedState {
    match s {
        FeedState::Loading => FlatFeedState::Loading,
        FeedState::Success(_) => FlatFeedState::Success,
        FeedState::Error(_) => FlatFeedState::Error,
    }
}

impl FeedState {
    /// Collapses the state to its flat projection.
    pub fn flat(&self) -> (r: FlatFeedState)
        ensures
            r == flat_of(*self),
    {
        match self {
            FeedState::Loading => FlatFeedState::Loading,
            FeedState::Success(_) => FlatFeedState::Success,
            FeedState::Error(_) => FlatFeedState::Error,
        }
    }

    /// Whether this state carries a nonempty feed: the states whose articles
    /// the presentation layer can select from.
    pub open spec fn spec_has_data(self) -> bool {
        match self {
            FeedState::Success(feed) => feed.articles@.len() > 0,
            _ => false,
        }
    }

    /// Decides whether this state carries a nonempty feed.
    pub fn has_data(&self) -> (r: bool)
        ensures
            r == self.spec_has_data(),
    {
        match self {
            FeedState::Success(feed) => feed.articles.len() > 0,
            _ => false,
        }
    }
}

/// A state built from any successfully fetched feed projects to `Success`,
/// never to `Error`: deriving a `(name, FlatFeedState)` pair from a feed that
/// parsed cannot surface a failure.
pub proof fn lemma_success_projects_to_success(feed: Feed)
    ensures
        flat_of(FeedState::Success(feed)) == FlatFeedState::Success,
        flat_of(FeedState::Success(feed)) != FlatFeedState::Error,
{
}

} // verus!
