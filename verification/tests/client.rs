use tuifeed::feed::{FeedState, FlatFeedState};
use tuifeed::model::{Model, Task};
use tuifeed::serializer::Config;

const RSS_DOC: &str = r#"<?xml version="1.0" encoding="UTF-8"?>
<rss version="2.0">
  <channel>
    <title>Example</title>
    <link>https://example.org/</link>
    <description>Example channel</description>
    <item>
      <title>First headline</title>
      <link>https://example.org/first</link>
      <description>First summary</description>
    </item>
    <item>
      <title>Second headline</title>
      <link>https://example.org/second</link>
      <description>Second summary</description>
    </item>
  </channel>
</rss>
"#;

fn config() -> Config {
    Config {
        sources: vec![(String::from("example"), String::from("url"))],
    }
}

#[test]
fn retrieved_document_parses_into_a_feed() {
    let mut model = Model::new(&config());
    model.retrieval_completed("example", Ok(RSS_DOC.as_bytes().to_vec()));
    match model.kiosk.get_feed("example") {
        Some(FeedState::Success(feed)) => {
            assert_eq!(feed.name(), "example");
            assert_eq!(feed.len(), 2);
            let first = feed.get(0).unwrap();
            assert_eq!(first.title.as_deref(), Some("First headline"));
            assert_eq!(first.url, "https://example.org/first");
            assert_eq!(first.summary, "First summary");
            let titles = Model::get_article_list(feed);
            assert_eq!(
                titles,
                vec![
                    String::from("First headline"),
                    String::from("Second headline"),
                ]
            );
        }
        other => panic!("unexpected state: {:?}", other),
    }
    // The round trip into the flat projection of a well-formed document is
    // Success, never Error.
    assert_eq!(model.get_feed_list()[0].1, FlatFeedState::Success);
    // The first article of the parsed feed became selected.
    assert_eq!(model.selected_source, Some(0));
    assert_eq!(model.selected_article, Some(0));
    assert!(model.take_tasks().is_empty());
}

#[test]
fn unparseable_document_surfaces_as_an_error() {
    let mut model = Model::new(&config());
    model.retrieval_completed("example", Ok(b"this is not a feed".to_vec()));
    assert!(matches!(
        model.kiosk.get_feed("example"),
        Some(FeedState::Error(_))
    ));
    assert_eq!(model.get_feed_list()[0].1, FlatFeedState::Error);
    let tasks = model.take_tasks();
    assert_eq!(tasks.len(), 1);
    match &tasks[0] {
        Task::ShowError(m) => {
            assert!(m.starts_with("Could not fetch feed \"example\": "));
        }
        other => panic!("unexpected task: {:?}", other),
    }
}

#[test]
fn transport_failure_surfaces_as_an_error() {
    let mut model = Model::new(&config());
    model.retrieval_completed("example", Err(String::from("connection refused")));
    assert!(matches!(
        model.kiosk.get_feed("example"),
        Some(FeedState::Error(m)) if m == "connection refused"
    ));
    let tasks = model.take_tasks();
    assert_eq!(
        tasks,
        vec![Task::ShowError(String::from(
            "Could not fetch feed \"example\": connection refused"
        ))]
    );
}

#[test]
fn character_references_above_ascii_are_admissible() {
    let doc = RSS_DOC.replace("First headline", "First &#8217;quoted&#8217; headline");
    let mut model = Model::new(&config());
    model.retrieval_completed("example", Ok(doc.into_bytes()));
    match model.kiosk.get_feed("example") {
        Some(FeedState::Success(feed)) => {
            assert_eq!(
                feed.get(0).unwrap().title.as_deref(),
                Some("First \u{2019}quoted\u{2019} headline")
            );
        }
        other => panic!("unexpected state: {:?}", other),
    }
}

#[test]
fn documents_with_podcast_duration_markup_are_kept_out() {
    // The iTunes namespace routes element text into the parser's panicking
    // normal-play-time reader, so such documents are surfaced as errors.
    let doc = RSS_DOC.replace(
        "<rss version=\"2.0\">",
        "<rss version=\"2.0\" xmlns:itunes=\"http://www.itunes.com/dtds/podcast-1.0.dtd\">",
    );
    let mut model = Model::new(&config());
    model.retrieval_completed("example", Ok(doc.into_bytes()));
    assert!(matches!(
        model.kiosk.get_feed("example"),
        Some(FeedState::Error(m)) if m == "document outside the supported feed subset"
    ));
}

#[test]
fn ascii_character_references_are_kept_out() {
    let doc = RSS_DOC.replace("First headline", "Headline &#49;");
    let mut model = Model::new(&config());
    model.retrieval_completed("example", Ok(doc.into_bytes()));
    assert!(matches!(
        model.kiosk.get_feed("example"),
        Some(FeedState::Error(_))
    ));
}
