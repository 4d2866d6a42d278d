//! The application model and its event reducer: a deterministic transition
//! function from the current state and an incoming message to the next
//! state, plus the side-effecting tasks the orchestration loop must run.

use vstd::prelude::*;
use vstd::string::StringExecFns;
use crate::feed::{Article, Feed, FeedState, FlatFeedState, flat_of};
use crate::kiosk::Kiosk;
use crate::serializer::Config;
use crate::strings::{lemma_lex_lt_irreflexive, lex_lt, str_eq};

verus! {

/// Identifiers for the presentation-layer components.
#[derive(Debug, Eq, PartialEq, Clone, Hash)]
pub enum Id {
    GlobalListener,
    FeedList,
    ArticleList,
    ArticleTitle,
    ArticleDate,
    ArticleAuthors,
    ArticleSummary,
    ArticleLink,
    QuitPopup,
    ErrorPopup,
}

/// Messages produced by the presentation layer and fed to the reducer.
#[derive(Debug, PartialEq, Eq, Structural, Clone, Copy)]
pub enum Msg {
    ArticleBlur,
    ArticleChanged(usize),
    ArticleListBlur,
    CloseApp,
    CloseErrorPopup,
    CloseQuitPopup,
    FeedChanged(usize),
    FeedListBlur,
    FetchSource,
    FetchAllSources,
    GoReadArticle,
    OpenArticle,
    ShowQuitPopup,
    Noop,
}

/// A side-effecting instruction emitted by the reducer for the orchestration
/// loop to execute.
#[derive(Debug, Clone, PartialEq)]
pub enum Task {
    FetchSource(String),
    FetchSources,
    ShowError(String),
    OpenLink(String),
}

/// The modal state of the presentation layer: no modal, the quit
/// confirmation, or a dismissible error popup.
#[derive(Debug, Clone, PartialEq)]
pub enum Modal {
    Closed,
    QuitConfirm,
    ErrorPopup(String),
}

/// The application model: the kiosk, the current selection, the modal state,
/// the quit flag, the redraw flag, and the queued tasks.
pub struct Model {
    pub kiosk: Kiosk,
    pub selected_source: Option<usize>,
    pub selected_article: Option<usize>,
    pub modal: Modal,
    pub quit: bool,
    pub redraw: bool,
    pub tasks: Vec<Task>,
}

/// The first source (in sorted order) whose state carries a nonempty feed,
/// scanning from position `i`.
pub open spec fn first_with_data_from(k: Kiosk, i: int) -> Option<int>
    decreases k.entries@.len() - i,
    when 0 <= i
{
    if i >= k.entries@.len() {
        None
    } else if k.entries@[i].1.spec_has_data() {
        Some(i)
    } else {
        first_with_data_from(k, i + 1)
    }
}

/// If no source before `i` has data, scanning from the start is the same as
/// scanning from `i`.
proof fn lemma_first_with_data_skip(k: Kiosk, i: int)
    requires
        0 <= i <= k.entries@.len(),
        forall|j: int| 0 <= j < i ==> !k.entries@[j].1.spec_has_data(),
    ensures
        first_with_data_from(k, 0) == first_with_data_from(k, i),
    decreases i,
{
    if i > 0 {
        lemma_first_with_data_skip(k, i - 1);
    }
}

/// The scan finds exactly the least position with data.
pub proof fn lemma_first_with_data_characterization(k: Kiosk, i: int)
    requires
        0 <= i < k.entries@.len(),
        k.entries@[i].1.spec_has_data(),
        forall|j: int| 0 <= j < i ==> !k.entries@[j].1.spec_has_data(),
    ensures
        first_with_data_from(k, 0) == Some(i),
{
    lemma_first_with_data_skip(k, i);
}

/// Scans the kiosk for the first source that has data.
fn first_source_with_data(k: &Kiosk) -> (r: Option<usize>)
    ensures
        match r {
            Some(i) => i < k.entries@.len() && k.entries@[i as int].1.spec_has_data()
                && first_with_data_from(*k, 0) == Some(i as int),
            None => first_with_data_from(*k, 0) is None,
        },
{
    let n = k.len();
    let mut i: usize = 0;
    loop
        invariant
            n == k.entries@.len(),
            i <= n,
            forall|j: int| 0 <= j < i ==> !k.entries@[j].1.spec_has_data(),
        decreases n - i,
    {
        if i == n {
            proof {
                lemma_first_with_data_skip(*k, i as int);
            }
            return None;
        }
        if k.entries[i].1.has_data() {
            proof {
                lemma_first_with_data_skip(*k, i as int);
            }
            return Some(i);
        }
        i = i + 1;
    }
}

impl Model {
    /// The model invariant: the kiosk is well-formed, a selected source is a
    /// valid sorted index, and a selected article points into the feed of
    /// the selected source, which must hold a successful fetch.
    pub open spec fn inv(self) -> bool {
        &&& self.kiosk.wf()
        &&& match self.selected_source {
            Some(i) => i < self.kiosk.entries@.len(),
            None => true,
        }
        &&& match self.selected_article {
            Some(j) => match self.selected_source {
                Some(i) => i < self.kiosk.entries@.len() && match self.kiosk.entries@[i as int].1 {
                    FeedState::Success(feed) => j < feed.articles@.len(),
                    _ => false,
                },
                None => false,
            },
            None => true,
        }
    }

    /// Whether `j` indexes an article of the currently selected source's
    /// successfully fetched feed.
    pub open spec fn article_in_range(self, j: int) -> bool {
        match self.selected_source {
            Some(i) => i < self.kiosk.entries@.len() && match self.kiosk.entries@[i as int].1 {
                FeedState::Success(feed) => j < feed.articles@.len(),
                _ => false,
            },
            None => false,
        }
    }

    /// The currently selected article, if the selection resolves to one.
    pub open spec fn spec_selected_article(self) -> Option<Article> {
        match self.selected_source {
            Some(i) => match self.selected_article {
                Some(j) => if i < self.kiosk.entries@.len() {
                    match self.kiosk.entries@[i as int].1 {
                        FeedState::Success(feed) => if j < feed.articles@.len() {
                            Some(feed.articles@[j as int])
                        } else {
                            None
                        },
                        _ => None,
                    }
                } else {
                    None
                },
                None => None,
            },
            None => None,
        }
    }

    /// Initializes the model from the configuration: every configured source
    /// enters the kiosk as `Loading`, nothing is selected, no modal is open,
    /// and the loop is not quitting.
    pub fn new(config: &Config) -> (r: Model)
        ensures
            r.inv(),
            forall|k: Seq<char>| r.kiosk.as_map().contains_key(k) <==> config.names().contains(k),
            forall|k: Seq<char>| r.kiosk.as_map().contains_key(k) ==> r.kiosk.as_map()[k]
                == FeedState::Loading,
            r.selected_source is None,
            r.selected_article is None,
            r.modal is Closed,
            r.quit == false,
            r.redraw == false,
            r.tasks@.len() == 0,
    {
        let mut kiosk = Kiosk::new();
        let n = config.sources.len();
        let mut i: usize = 0;
        while i < n
            invariant
                n == config.sources@.len(),
                i <= n,
                kiosk.wf(),
                forall|k: Seq<char>| #[trigger] kiosk.as_map().contains_key(k) <==> (exists|j: int|
                    0 <= j < i && config.names()[j] == k),
                forall|k: Seq<char>| #[trigger] kiosk.as_map().contains_key(k)
                    ==> kiosk.as_map()[k] == FeedState::Loading,
            decreases n - i,
        {
            let name: &String = &config.sources[i].0;
            kiosk.insert_feed(name.as_str(), FeedState::Loading);
            proof {
                assert(config.names()[i as int] == name@);
            }
            i = i + 1;
        }
        proof {
            assert forall|k: Seq<char>| #[trigger] kiosk.as_map().contains_key(k)
                == config.names().contains(k) by {}
        }
        Model {
            kiosk,
            selected_source: None,
            selected_article: None,
            modal: Modal::Closed,
            quit: false,
            redraw: false,
            tasks: Vec::new(),
        }
    }

    /// Force the value of the redraw flag to `true`.
    pub fn force_redraw(&mut self)
        ensures
            *final(self) == (Model { redraw: true, ..*old(self) }),
    {
        self.redraw = true;
    }

    /// Whether the orchestration loop should exit.
    pub fn should_quit(&self) -> (r: bool)
        ensures
            r == self.quit,
    {
        self.quit
    }

    /// Opens the error popup with the given message.
    pub fn show_error(&mut self, msg: String)
        ensures
            *final(self) == (Model { modal: Modal::ErrorPopup(msg), redraw: true, ..*old(self) }),
    {
        self.modal = Modal::ErrorPopup(msg);
        self.redraw = true;
    }

    /// Hands the queued tasks to the orchestration loop, leaving the queue
    /// empty.
    pub fn take_tasks(&mut self) -> (r: Vec<Task>)
        ensures
            r == old(self).tasks,
            *final(self) == (Model { tasks: final(self).tasks, ..*old(self) }),
            final(self).tasks@.len() == 0,
    {
        let mut t: Vec<Task> = Vec::new();
        core::mem::swap(&mut t, &mut self.tasks);
        t
    }

    /// Whether no article is currently selected anywhere: the article list
    /// backing the detail view is empty.
    pub fn is_article_list_empty(&self) -> (r: bool)
        ensures
            r == (self.selected_article is None),
    {
        self.selected_article.is_none()
    }

    /// The name of the currently selected source, if one is selected.
    pub fn get_selected_feed_name(&self) -> (r: Option<String>)
        requires
            self.inv(),
        ensures
            match r {
                Some(s) => self.selected_source matches Some(i) && s@ == self.kiosk.names()[i as int],
                None => self.selected_source is None,
            },
    {
        match self.selected_source {
            Some(i) => Some(self.kiosk.entry(i).0.clone()),
            None => None,
        }
    }

    /// The feed of the currently selected source, when its last fetch
    /// succeeded.
    pub fn get_selected_feed(&self) -> (r: Option<&Feed>)
        requires
            self.inv(),
        ensures
            match r {
                Some(f) => self.selected_source matches Some(i) && self.kiosk.entries@[i as int].1
                    == FeedState::Success(*f),
                None => match self.selected_source {
                    Some(i) => !(self.kiosk.entries@[i as int].1 is Success),
                    None => true,
                },
            },
    {
        match self.selected_source {
            Some(i) => match &self.entry_state(i) {
                FeedState::Success(feed) => Some(feed),
                _ => None,
            },
            None => None,
        }
    }

    /// The state stored at sorted position `i`.
    fn entry_state(&self, i: usize) -> (r: &FeedState)
        requires
            i < self.kiosk.entries@.len(),
        ensures
            *r == self.kiosk.entries@[i as int].1,
    {
        &self.kiosk.entry(i).1
    }

    /// The sources of the kiosk in lexicographic order; the kiosk keeps them
    /// sorted, so this is its key list.
    pub fn sorted_sources(&self) -> (r: Vec<String>)
        ensures
            r@.len() == self.kiosk.names().len(),
            forall|i: int| 0 <= i < r@.len() ==> r@[i]@ == self.kiosk.names()[i],
    {
        self.kiosk.sources()
    }

    /// The feed list shown by the presentation layer: every source with the
    /// flat form of its state, in lexicographic order.
    pub fn get_feed_list(&self) -> (r: Vec<(String, FlatFeedState)>)
        ensures
            r@.len() == self.kiosk.names().len(),
            forall|i: int| 0 <= i < r@.len() ==> (#[trigger] r@[i]).0@ == self.kiosk.names()[i],
            forall|i: int| 0 <= i < r@.len() ==> (#[trigger] r@[i]).1 == flat_of(
                self.kiosk.entries@[i].1,
            ),
    {
        self.kiosk.get_state()
    }
}

/// The state a completion surfaces: the parsed feed on success, the cause on
/// failure.
pub open spec fn spec_completed_state(result: Result<Feed, String>) -> FeedState {
    match result {
        Ok(feed) => FeedState::Success(feed),
        Err(e) => FeedState::Error(e),
    }
}

/// The error-report message for a failed fetch of a source.
pub open spec fn error_report_of(name: Seq<char>, cause: Seq<char>) -> Seq<char> {
    "Could not fetch feed \""@ + name + "\": "@ + cause
}

/// The article selection after a completion for `name` with new state `st`,
/// before any re-resolution: a selection backed by another source is kept;
/// one backed by `name` is clamped into the new feed or dropped.
pub open spec fn spec_clamped_article(m: Model, name: Seq<char>, st: FeedState) -> Option<usize> {
    match m.selected_source {
        Some(i) => match m.selected_article {
            Some(j) => if i < m.kiosk.entries@.len() && m.kiosk.names()[i as int] == name {
                match st {
                    FeedState::Success(feed) => if j < feed.articles@.len() {
                        Some(j)
                    } else if feed.articles@.len() == 0 {
                        None
                    } else {
                        Some((feed.articles@.len() - 1) as usize)
                    },
                    _ => None,
                }
            } else {
                Some(j)
            },
            None => None,
        },
        None => m.selected_article,
    }
}

impl Model {
    /// The event reducer: applies one message to the model. Every message
    /// has a defined handling, including a no-op default; no follow-up
    /// message is ever produced.
    pub fn update(&mut self, msg: Option<Msg>) -> (r: Option<Msg>)
        requires
            old(self).inv(),
        ensures
            final(self).inv(),
            r is None,
            final(self).redraw,
            final(self).kiosk == old(self).kiosk,
            final(self).quit == (old(self).quit || msg == Some(Msg::CloseApp)),
            final(self).modal == (match msg {
                Some(Msg::ShowQuitPopup) => Modal::QuitConfirm,
                Some(Msg::CloseQuitPopup) => (if old(self).modal is QuitConfirm {
                    Modal::Closed
                } else {
                    old(self).modal
                }),
                Some(Msg::CloseErrorPopup) => (if old(self).modal is ErrorPopup {
                    Modal::Closed
                } else {
                    old(self).modal
                }),
                _ => old(self).modal,
            }),
            final(self).selected_source == (match msg {
                Some(Msg::FeedChanged(i)) => (if i < old(self).kiosk.entries@.len() {
                    Some(i)
                } else {
                    old(self).selected_source
                }),
                _ => old(self).selected_source,
            }),
            final(self).selected_article == (match msg {
                Some(Msg::FeedChanged(i)) => (if i < old(self).kiosk.entries@.len() {
                    if old(self).kiosk.entries@[i as int].1.spec_has_data() {
                        Some(0usize)
                    } else {
                        Option::<usize>::None
                    }
                } else {
                    old(self).selected_article
                }),
                Some(Msg::ArticleChanged(j)) => (if old(self).article_in_range(j as int) {
                    Some(j)
                } else {
                    old(self).selected_article
                }),
                _ => old(self).selected_article,
            }),
            (match msg {
                Some(Msg::FetchSource) => (match old(self).selected_source {
                    Some(i) => final(self).tasks@.len() == old(self).tasks@.len() + 1 && final(self).tasks@.take(old(self).tasks@.len() as int) == old(self).tasks@ && (final(self).tasks@.last() matches Task::FetchSource(n) && n@ == old(self).kiosk.names()[
                        i as int
                    ]),
                    None => final(self).tasks == old(self).tasks,
                }),
                Some(Msg::FetchAllSources) => final(self).tasks@ == old(self).tasks@.push(
                    Task::FetchSources,
                ),
                Some(Msg::OpenArticle) => (match old(self).spec_selected_article() {
                    Some(a) => final(self).tasks@.len() == old(self).tasks@.len() + 1 && final(self).tasks@.take(old(self).tasks@.len() as int) == old(self).tasks@ && (final(self).tasks@.last() matches Task::OpenLink(u) && u@ == a.url@),
                    None => final(self).tasks == old(self).tasks,
                }),
                _ => final(self).tasks == old(self).tasks,
            }),
    {
        self.redraw = true;
        let m = match msg {
            Some(m) => m,
            None => Msg::Noop,
        };
        match m {
            Msg::ArticleBlur => {},
            Msg::ArticleChanged(article) => {
                let ok = match self.selected_source {
                    Some(i) => match self.entry_state(i) {
                        FeedState::Success(feed) => article < feed.articles.len(),
                        _ => false,
                    },
                    None => false,
                };
                if ok {
                    self.selected_article = Some(article);
                }
            },
            Msg::ArticleListBlur => {},
            Msg::CloseApp => {
                self.quit = true;
            },
            Msg::CloseErrorPopup => {
                let is_err = match &self.modal {
                    Modal::ErrorPopup(_) => true,
                    _ => false,
                };
                if is_err {
                    self.modal = Modal::Closed;
                }
            },
            Msg::CloseQuitPopup => {
                let is_quit = match &self.modal {
                    Modal::QuitConfirm => true,
                    _ => false,
                };
                if is_quit {
                    self.modal = Modal::Closed;
                }
            },
            Msg::FeedChanged(feed) => {
                if feed < self.kiosk.len() {
                    self.selected_source = Some(feed);
                    let has = self.entry_state(feed).has_data();
                    self.selected_article = if has {
                        Some(0)
                    } else {
                        None
                    };
                }
            },
            Msg::FeedListBlur => {},
            Msg::FetchSource => {
                match self.selected_source {
                    Some(i) => {
                        let name = self.kiosk.entry(i).0.clone();
                        self.tasks.push(Task::FetchSource(name));
                    },
                    None => {},
                }
            },
            Msg::FetchAllSources => {
                self.tasks.push(Task::FetchSources);
            },
            Msg::GoReadArticle => {},
            Msg::OpenArticle => {
                let url = match (self.selected_source, self.selected_article) {
                    (Some(i), Some(j)) => match self.entry_state(i) {
                        FeedState::Success(feed) => if j < feed.articles.len() {
                            Some(feed.articles[j].url.clone())
                        } else {
                            None
                        },
                        _ => None,
                    },
                    _ => None,
                };
                match url {
                    Some(u) => {
                        self.tasks.push(Task::OpenLink(u));
                    },
                    None => {},
                }
            },
            Msg::ShowQuitPopup => {
                self.modal = Modal::QuitConfirm;
            },
            Msg::Noop => {},
        }
        None
    }

    /// Requests a new fetch for a configured source: its state re-enters
    /// `Loading` immediately, whatever it was, and a selection backed by it
    /// is dropped. The network work itself is the orchestration loop's.
    pub fn request_fetch(&mut self, name: &str)
        requires
            old(self).inv(),
            old(self).kiosk.contains_name(name@),
        ensures
            final(self).inv(),
            final(self).redraw,
            final(self).kiosk.names() == old(self).kiosk.names(),
            final(self).kiosk.as_map() == old(self).kiosk.as_map().insert(
                name@,
                FeedState::Loading,
            ),
            final(self).selected_source == old(self).selected_source,
            final(self).selected_article == (match old(self).selected_source {
                Some(i) => (if old(self).kiosk.names()[i as int] == name@ {
                    Option::<usize>::None
                } else {
                    old(self).selected_article
                }),
                None => old(self).selected_article,
            }),
            final(self).modal == old(self).modal,
            final(self).quit == old(self).quit,
            final(self).tasks == old(self).tasks,
    {
        let ghost pre = *old(self);
        self.redraw = true;
        let clear = match self.selected_source {
            Some(i) => str_eq(self.kiosk.entry(i).0.as_str(), name),
            None => false,
        };
        if clear {
            self.selected_article = None;
        }
        self.kiosk.insert_feed(name, FeedState::Loading);
        proof {
            crate::kiosk::lemma_states_after_insert(
                pre.kiosk,
                self.kiosk,
                name@,
                FeedState::Loading,
            );
        }
    }

    /// Requests a new fetch of every configured source: all states re-enter
    /// `Loading` and any article selection is dropped.
    pub fn request_fetch_all(&mut self)
        requires
            old(self).inv(),
        ensures
            final(self).inv(),
            final(self).redraw,
            final(self).kiosk.names() == old(self).kiosk.names(),
            final(self).kiosk.as_map().dom() == old(self).kiosk.as_map().dom(),
            forall|k: Seq<char>| final(self).kiosk.as_map().contains_key(k) ==> final(self).kiosk.as_map()[k] == FeedState::Loading,
            final(self).selected_source == old(self).selected_source,
            final(self).selected_article is None,
            final(self).modal == old(self).modal,
            final(self).quit == old(self).quit,
            final(self).tasks == old(self).tasks,
    {
        let ghost pre = *old(self);
        self.redraw = true;
        self.selected_article = None;
        let n = self.kiosk.len();
        let mut i: usize = 0;
        while i < n
            invariant
                self.inv(),
                n == self.kiosk.entries@.len(),
                i <= n,
                self.kiosk.names() == pre.kiosk.names(),
                self.kiosk.as_map().dom() =~= pre.kiosk.as_map().dom(),
                forall|j: int| 0 <= j < i ==> self.kiosk.entries@[j].1 == FeedState::Loading,
                self.selected_source == pre.selected_source,
                self.selected_article is None,
                self.modal == pre.modal,
                self.quit == pre.quit,
                self.tasks == pre.tasks,
                self.redraw,
            decreases n - i,
        {
            let ghost mid = *self;
            let name = self.kiosk.entry(i).0.clone();
            self.kiosk.insert_feed(name.as_str(), FeedState::Loading);
            proof {
                mid.kiosk.lemma_entry_of_name(i as int);
                crate::kiosk::lemma_states_after_insert(
                    mid.kiosk,
                    self.kiosk,
                    name@,
                    FeedState::Loading,
                );
                assert(self.kiosk.as_map().dom() =~= mid.kiosk.as_map().dom());
                assert forall|j: int| 0 <= j <= i implies self.kiosk.entries@[j].1
                    == FeedState::Loading by {
                    if j < i {
                        assert(lex_lt(mid.kiosk.names()[j], mid.kiosk.names()[i as int]));
                        lemma_lex_lt_irreflexive(mid.kiosk.names()[j]);
                        assert(self.kiosk.entries@[j].1 == mid.kiosk.entries@[j].1);
                    } else {
                        assert(self.kiosk.names()[j] == name@);
                    }
                }
            }
            i = i + 1;
        }
        proof {
            assert forall|k: Seq<char>| #[trigger] self.kiosk.as_map().contains_key(k) implies
                self.kiosk.as_map()[k] == FeedState::Loading by {
                let i = self.kiosk.spec_index_of(k);
                self.kiosk.lemma_entry_of_name(i);
            }
        }
    }

    /// Records a completed fetch for a source: a success stores the feed, a
    /// failure stores the cause and queues an error report. A selection
    /// backed by the source is re-clamped into the new feed or dropped, and
    /// when no article is selected afterwards, the first article of the
    /// first source with data becomes selected.
    pub fn fetch_completed(&mut self, name: &str, result: Result<Feed, String>)
        requires
            old(self).inv(),
            old(self).kiosk.contains_name(name@),
        ensures
            final(self).inv(),
            final(self).redraw,
            final(self).kiosk.names() == old(self).kiosk.names(),
            final(self).kiosk.as_map() == old(self).kiosk.as_map().insert(
                name@,
                spec_completed_state(result),
            ),
            final(self).modal == old(self).modal,
            final(self).quit == old(self).quit,
            (result matches Err(e) ==> final(self).tasks@.len() == old(self).tasks@.len() + 1
                && final(self).tasks@.take(old(self).tasks@.len() as int) == old(self).tasks@ && (
            final(self).tasks@.last() matches Task::ShowError(m) && m@ == error_report_of(
                name@,
                e@,
            ))),
            (result is Ok ==> final(self).tasks == old(self).tasks),
            ({
                let mid = spec_clamped_article(*old(self), name@, spec_completed_state(result));
                match mid {
                    Some(j) => final(self).selected_source == old(self).selected_source && final(self).selected_article == Some(j),
                    None => (match first_with_data_from(final(self).kiosk, 0) {
                        Some(i2) => final(self).selected_source == Some(i2 as usize) && final(self).selected_article == Some(0usize),
                        None => final(self).selected_source == old(self).selected_source && final(self).selected_article is None,
                    }),
                }
            }),
    {
        let ghost pre = *old(self);
        self.redraw = true;
        // Build the new state; a failure queues its error report.
        let st = match result {
            Ok(feed) => FeedState::Success(feed),
            Err(e) => {
                let mut report = String::from_str("Could not fetch feed \"");
                report.append(name);
                report.append("\": ");
                report.append(e.as_str());
                self.tasks.push(Task::ShowError(report));
                FeedState::Error(e)
            },
        };
        let ghost gst = st;
        // Re-clamp a selection backed by this source.
        match self.selected_source {
            Some(i) => {
                if self.selected_article.is_some() && str_eq(
                    self.kiosk.entry(i).0.as_str(),
                    name,
                ) {
                    match &st {
                        FeedState::Success(feed) => {
                            let j = match self.selected_article {
                                Some(j) => j,
                                None => 0,
                            };
                            if feed.articles.len() == 0 {
                                self.selected_article = None;
                            } else if j >= feed.articles.len() {
                                self.selected_article = Some(feed.articles.len() - 1);
                            }
                        },
                        _ => {
                            self.selected_article = None;
                        },
                    }
                }
            },
            None => {},
        }
        proof {
            assert(self.selected_article == spec_clamped_article(pre, name@, gst));
        }
        // Record the completion.
        self.kiosk.insert_feed(name, st);
        proof {
            crate::kiosk::lemma_states_after_insert(pre.kiosk, self.kiosk, name@, gst);
        }
        // Resolve a missing selection.
        if self.selected_article.is_none() {
            match first_source_with_data(&self.kiosk) {
                Some(i2) => {
                    self.selected_source = Some(i2);
                    self.selected_article = Some(0);
                },
                None => {},
            }
        }
    }
}

/// The titles of the articles that have one, in document order.
pub open spec fn titles_of(s: Seq<Article>) -> Seq<Seq<char>>
    decreases s.len(),
{
    if s.len() == 0 {
        Seq::empty()
    } else {
        match s[0].title {
            Some(t) => seq![t@] + titles_of(s.skip(1)),
            None => titles_of(s.skip(1)),
        }
    }
}

impl Model {
    /// The five detail fields of an article for the presentation layer:
    /// authors, date, link, summary and title, with a missing title shown
    /// empty.
    pub fn get_article_view(article: &Article) -> (r: (
        Option<String>,
        Option<i64>,
        String,
        String,
        String,
    ))
        ensures
            r.0 == article.authors,
            r.1 == article.date,
            r.2@ == article.url@,
            r.3@ == article.summary@,
            (match article.title {
                Some(t) => r.4@ == t@,
                None => r.4@ == Seq::<char>::empty(),
            }),
    {
        let authors = article.authors.clone();
        let title = match &article.title {
            Some(t) => t.clone(),
            None => String::new(),
        };
        (authors, article.date, article.url.clone(), article.summary.clone(), title)
    }

    /// The article list for a feed: the titles of its articles, in document
    /// order; an article without a title is left out. Titles are returned
    /// whole: trimming them to the list width is the presentation layer's
    /// concern (see `max_article_name_len` for the width it has to work
    /// with).
    pub fn get_article_list(feed: &Feed) -> (r: Vec<String>)
        ensures
            r@.map_values(|t: String| t@) == titles_of(feed.articles@),
    {
        let s = &feed.articles;
        let n = s.len();
        let mut r: Vec<String> = Vec::new();
        let mut i: usize = 0;
        proof {
            assert(s@.skip(0) =~= s@);
            assert(r@.map_values(|t: String| t@) + titles_of(s@) =~= titles_of(s@));
        }
        while i < n
            invariant
                n == s@.len(),
                i <= n,
                titles_of(s@) == r@.map_values(|t: String| t@) + titles_of(s@.skip(i as int)),
            decreases n - i,
        {
            let ghost rpre = r@;
            proof {
                assert(s@.skip(i as int)[0] == s@[i as int]);
                assert(s@.skip(i as int).skip(1) =~= s@.skip(i as int + 1));
            }
            match &s[i].title {
                Some(t) => {
                    r.push(t.clone());
                    proof {
                        assert(r@.map_values(|t: String| t@) =~= rpre.map_values(|t: String| t@)
                            + seq![s@[i as int].title.unwrap()@]);
                        assert(rpre.map_values(|t: String| t@) + titles_of(s@.skip(i as int))
                            =~= r@.map_values(|t: String| t@) + titles_of(s@.skip(i as int + 1)));
                    }
                },
                None => {},
            }
            i = i + 1;
        }
        proof {
            assert(s@.skip(n as int) =~= Seq::<Article>::empty());
            assert(r@.map_values(|t: String| t@) + titles_of(s@.skip(n as int)) =~= r@.map_values(
                |t: String| t@,
            ));
        }
        r
    }

    /// An empty article list.
    pub fn get_empty_article_list() -> (r: Vec<String>)
        ensures
            r@.len() == 0,
    {
        Vec::new()
    }
}

/// The widest article title the list can show for a terminal of the given
/// width: half the width, less the margin.
pub fn max_article_name_len(terminal_width: usize) -> (r: usize)
    requires
        terminal_width >= 18,
    ensures
        r == terminal_width / 2 - 9,
{
    (terminal_width / 2) - 9
}

} // verus!
