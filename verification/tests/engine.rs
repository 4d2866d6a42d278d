use tuifeed::feed::{Article, Feed, FeedState, FlatFeedState};
use tuifeed::kiosk::Kiosk;
use tuifeed::model::{max_article_name_len, Modal, Model, Msg, Task};
use tuifeed::serializer::Config;

fn two_source_config() -> Config {
    Config {
        sources: vec![
            (String::from("a"), String::from("url1")),
            (String::from("b"), String::from("url2")),
        ],
    }
}

fn article(title: Option<&str>, url: &str) -> Article {
    Article {
        title: title.map(String::from),
        authors: None,
        date: None,
        summary: String::from("summary"),
        url: String::from(url),
    }
}

fn feed_with(name: &str, n: usize) -> Feed {
    let mut articles = Vec::new();
    let mut i = 0;
    while i < n {
        articles.push(article(Some(&format!("t{}", i)), &format!("u{}", i)));
        i += 1;
    }
    Feed::new(String::from(name), articles)
}

fn flat_state_of(model: &Model, name: &str) -> FlatFeedState {
    let states = model.get_feed_list();
    for (n, s) in states {
        if n == name {
            return s;
        }
    }
    panic!("source not stored: {}", name);
}

#[test]
fn initial_state_is_loading_for_every_source() {
    let model = Model::new(&two_source_config());
    assert!(matches!(
        model.kiosk.get_feed("a"),
        Some(FeedState::Loading)
    ));
    assert!(matches!(
        model.kiosk.get_feed("b"),
        Some(FeedState::Loading)
    ));
    assert!(model.kiosk.get_feed("c").is_none());
    let sources = model.kiosk.sources();
    assert_eq!(sources, vec![String::from("a"), String::from("b")]);
    assert!(model.selected_source.is_none());
    assert!(model.selected_article.is_none());
    assert!(!model.should_quit());
}

#[test]
fn insert_feed_is_idempotent() {
    let mut k = Kiosk::new();
    k.insert_feed("a", FeedState::Loading);
    k.insert_feed("b", FeedState::Error(String::from("boom")));
    let once_sources = k.sources();
    let once_state = k.get_state();
    k.insert_feed("b", FeedState::Error(String::from("boom")));
    assert_eq!(k.sources(), once_sources);
    assert_eq!(k.get_state(), once_state);
    assert!(matches!(k.get_feed("b"), Some(FeedState::Error(m)) if m == "boom"));
}

#[test]
fn completions_and_refetch_drive_the_flat_projection() {
    let mut model = Model::new(&two_source_config());
    model.fetch_completed("a", Ok(feed_with("a", 2)));
    assert_eq!(flat_state_of(&model, "a"), FlatFeedState::Success);
    model.fetch_completed("b", Err(String::from("timed out")));
    assert_eq!(flat_state_of(&model, "b"), FlatFeedState::Error);
    // A new fetch request flips the state back to Loading whatever it was.
    model.request_fetch("a");
    assert_eq!(flat_state_of(&model, "a"), FlatFeedState::Loading);
    model.request_fetch("b");
    assert_eq!(flat_state_of(&model, "b"), FlatFeedState::Loading);
}

#[test]
fn sorted_sources_are_strictly_increasing() {
    let mut k = Kiosk::new();
    for name in ["zeta", "alpha", "mid", "beta", "alphabet"] {
        k.insert_feed(name, FeedState::Loading);
    }
    let sources = k.sources();
    assert_eq!(sources.len(), 5);
    for w in sources.windows(2) {
        assert!(w[0] < w[1]);
    }
    assert_eq!(
        sources,
        vec![
            String::from("alpha"),
            String::from("alphabet"),
            String::from("beta"),
            String::from("mid"),
            String::from("zeta"),
        ]
    );
}

#[test]
fn selection_resolves_to_first_source_with_data() {
    let mut model = Model::new(&two_source_config());
    assert!(model.selected_article.is_none());
    model.fetch_completed("a", Ok(feed_with("a", 3)));
    assert_eq!(model.selected_source, Some(0));
    assert_eq!(model.selected_article, Some(0));
    assert_eq!(
        model.get_selected_feed_name(),
        Some(String::from("a"))
    );
}

#[test]
fn two_source_scenario_runs_to_the_documented_states() {
    // Configuration {"a": url1, "b": url2}: both Loading initially.
    let mut model = Model::new(&two_source_config());
    assert_eq!(flat_state_of(&model, "a"), FlatFeedState::Loading);
    assert_eq!(flat_state_of(&model, "b"), FlatFeedState::Loading);
    // Fetch of "a" completes with 3 articles.
    model.fetch_completed("a", Ok(feed_with("a", 3)));
    assert_eq!(flat_state_of(&model, "a"), FlatFeedState::Success);
    assert_eq!(flat_state_of(&model, "b"), FlatFeedState::Loading);
    match model.kiosk.get_feed("a") {
        Some(FeedState::Success(feed)) => assert_eq!(feed.len(), 3),
        other => panic!("unexpected state: {:?}", other),
    }
    assert_eq!(model.selected_source, Some(0));
    assert_eq!(model.selected_article, Some(0));
    // Fetch of "b" fails with "connection refused".
    model.fetch_completed("b", Err(String::from("connection refused")));
    assert_eq!(flat_state_of(&model, "a"), FlatFeedState::Success);
    assert_eq!(flat_state_of(&model, "b"), FlatFeedState::Error);
    let tasks = model.take_tasks();
    assert_eq!(
        tasks,
        vec![Task::ShowError(String::from(
            "Could not fetch feed \"b\": connection refused"
        ))]
    );
    // The selection backed by "a" is untouched.
    assert_eq!(model.selected_source, Some(0));
    assert_eq!(model.selected_article, Some(0));
}

#[test]
fn refetch_of_a_successful_source_discards_its_feed() {
    let mut model = Model::new(&two_source_config());
    model.fetch_completed("a", Ok(feed_with("a", 2)));
    assert!(matches!(
        model.kiosk.get_feed("a"),
        Some(FeedState::Success(_))
    ));
    model.request_fetch("a");
    assert!(matches!(
        model.kiosk.get_feed("a"),
        Some(FeedState::Loading)
    ));
    assert!(model.selected_article.is_none());
}

#[test]
fn successful_feed_always_projects_to_success() {
    let mut model = Model::new(&two_source_config());
    model.fetch_completed("b", Ok(feed_with("b", 1)));
    let state = flat_state_of(&model, "b");
    assert_eq!(state, FlatFeedState::Success);
    assert_ne!(state, FlatFeedState::Error);
    // An empty but well-formed feed still projects to Success.
    model.fetch_completed("a", Ok(feed_with("a", 0)));
    assert_eq!(flat_state_of(&model, "a"), FlatFeedState::Success);
}

#[test]
fn close_app_sets_the_quit_flag() {
    let mut model = Model::new(&two_source_config());
    let follow_up = model.update(Some(Msg::CloseApp));
    assert!(follow_up.is_none());
    assert!(model.should_quit());
}

#[test]
fn quit_popup_opens_and_closes() {
    let mut model = Model::new(&two_source_config());
    model.update(Some(Msg::ShowQuitPopup));
    assert_eq!(model.modal, Modal::QuitConfirm);
    // Dismissing the error popup does not touch the quit confirmation.
    model.update(Some(Msg::CloseErrorPopup));
    assert_eq!(model.modal, Modal::QuitConfirm);
    model.update(Some(Msg::CloseQuitPopup));
    assert_eq!(model.modal, Modal::Closed);
}

#[test]
fn error_popup_opens_and_closes() {
    let mut model = Model::new(&two_source_config());
    model.show_error(String::from("boom"));
    assert_eq!(model.modal, Modal::ErrorPopup(String::from("boom")));
    model.update(Some(Msg::CloseErrorPopup));
    assert_eq!(model.modal, Modal::Closed);
}

#[test]
fn feed_and_article_selection_follow_messages() {
    let mut model = Model::new(&two_source_config());
    model.fetch_completed("b", Ok(feed_with("b", 2)));
    // "b" is the only source with data, so it gets selected.
    assert_eq!(model.selected_source, Some(1));
    model.fetch_completed("a", Ok(feed_with("a", 3)));
    // A selection exists, so the completion of "a" leaves it alone.
    assert_eq!(model.selected_source, Some(1));
    // Selecting source 0 re-derives the article list and selects article 0.
    model.update(Some(Msg::FeedChanged(0)));
    assert_eq!(model.selected_source, Some(0));
    assert_eq!(model.selected_article, Some(0));
    model.update(Some(Msg::ArticleChanged(2)));
    assert_eq!(model.selected_article, Some(2));
    // An out-of-range article index is ignored, never a crash.
    model.update(Some(Msg::ArticleChanged(9)));
    assert_eq!(model.selected_article, Some(2));
    // An out-of-range source index is ignored too.
    model.update(Some(Msg::FeedChanged(9)));
    assert_eq!(model.selected_source, Some(0));
}

#[test]
fn fetch_messages_emit_fetch_tasks() {
    let mut model = Model::new(&two_source_config());
    model.update(Some(Msg::FetchAllSources));
    assert_eq!(model.take_tasks(), vec![Task::FetchSources]);
    // Without a selected source there is nothing to fetch.
    model.update(Some(Msg::FetchSource));
    assert_eq!(model.take_tasks(), vec![]);
    model.fetch_completed("a", Ok(feed_with("a", 1)));
    model.update(Some(Msg::FetchSource));
    assert_eq!(
        model.take_tasks(),
        vec![Task::FetchSource(String::from("a"))]
    );
}

#[test]
fn open_article_emits_the_link_task() {
    let mut model = Model::new(&two_source_config());
    model.update(Some(Msg::OpenArticle));
    assert_eq!(model.take_tasks(), vec![]);
    model.fetch_completed("a", Ok(feed_with("a", 2)));
    model.update(Some(Msg::ArticleChanged(1)));
    model.update(Some(Msg::OpenArticle));
    assert_eq!(
        model.take_tasks(),
        vec![Task::OpenLink(String::from("u1"))]
    );
}

#[test]
fn completion_for_selected_source_reclamps_the_selection() {
    let mut model = Model::new(&two_source_config());
    model.fetch_completed("a", Ok(feed_with("a", 3)));
    model.update(Some(Msg::ArticleChanged(2)));
    assert_eq!(model.selected_article, Some(2));
    // A shorter feed arrives for the selected source: clamp to its last
    // article.
    model.fetch_completed("a", Ok(feed_with("a", 1)));
    assert_eq!(model.selected_article, Some(0));
    // A failure for the selected source drops the selection; no other
    // source has data, so nothing is selected.
    model.fetch_completed("a", Err(String::from("gone")));
    assert!(model.selected_article.is_none());
}

#[test]
fn request_fetch_all_marks_every_source_loading() {
    let mut model = Model::new(&two_source_config());
    model.fetch_completed("a", Ok(feed_with("a", 1)));
    model.fetch_completed("b", Err(String::from("nope")));
    model.request_fetch_all();
    assert_eq!(flat_state_of(&model, "a"), FlatFeedState::Loading);
    assert_eq!(flat_state_of(&model, "b"), FlatFeedState::Loading);
    assert!(model.selected_article.is_none());
}

#[test]
fn article_views_expose_the_detail_fields() {
    let a = Article {
        title: Some(String::from("Headline")),
        authors: Some(String::from("Jo")),
        date: Some(1_700_000_000),
        summary: String::from("What happened"),
        url: String::from("https://example.org/1"),
    };
    let (authors, date, url, summary, title) = Model::get_article_view(&a);
    assert_eq!(authors, Some(String::from("Jo")));
    assert_eq!(date, Some(1_700_000_000));
    assert_eq!(url, "https://example.org/1");
    assert_eq!(summary, "What happened");
    assert_eq!(title, "Headline");
    let untitled = article(None, "u");
    let (_, _, _, _, title) = Model::get_article_view(&untitled);
    assert_eq!(title, "");
}

#[test]
fn article_list_skips_untitled_articles() {
    let feed = Feed::new(
        String::from("a"),
        vec![
            article(Some("one"), "u1"),
            article(None, "u2"),
            article(Some("three"), "u3"),
        ],
    );
    let titles = Model::get_article_list(&feed);
    assert_eq!(titles, vec![String::from("one"), String::from("three")]);
    assert!(Model::get_empty_article_list().is_empty());
}

#[test]
fn max_article_name_len_halves_the_terminal() {
    assert_eq!(max_article_name_len(100), 41);
    assert_eq!(max_article_name_len(18), 0);
    assert_eq!(max_article_name_len(65535), 32758);
}
