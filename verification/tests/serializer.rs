use tuifeed::serializer::{deserialize, Config, SerializerError, SerializerErrorKind};

fn article_free_config(text: &str) -> Config {
    deserialize(text).ok().unwrap()
}

#[test]
fn should_create_serialization_errors() {
    let error: SerializerError =
        SerializerError::new(SerializerErrorKind::Syntax, String::from("aho"));
    assert_eq!(error.to_message(), String::from("Syntax error (aho)"));
    let error: SerializerError =
        SerializerError::new(SerializerErrorKind::Syntax, String::from("bad syntax"));
    assert_eq!(error.to_message(), String::from("Syntax error (bad syntax)"));
}

#[test]
fn should_name_error_kinds() {
    assert_eq!(SerializerErrorKind::Io.name(), "IO error");
    assert_eq!(SerializerErrorKind::Syntax.name(), "Syntax error");
    let error = SerializerError::new(SerializerErrorKind::Io, String::from("no such file"));
    assert_eq!(error.to_message(), String::from("IO error (no such file)"));
}

#[test]
fn should_deserialize_config_from_text() {
    let text = r##"
        [sources]
        nytimes = "https://rss.nytimes.com/services/xml/rss/nyt/World.xml"
        lefigaro = "https://www.lefigaro.fr/rss/figaro_actualites.xml"
        "##;
    let config = article_free_config(text);
    assert_eq!(config.sources.len(), 2);
    assert_eq!(
        config.get("nytimes").unwrap().as_str(),
        "https://rss.nytimes.com/services/xml/rss/nyt/World.xml"
    );
    assert_eq!(
        config.get("lefigaro").unwrap().as_str(),
        "https://www.lefigaro.fr/rss/figaro_actualites.xml"
    );
    assert!(config.get("missing").is_none());
}

#[test]
fn should_fail_config_deserialization_on_bad_toml() {
    let text = r##"
        [sources]
        nytimes = "https://rss.nytimes.com/services/xml/rss/nyt/World.xml"
        lefigaro
        "##;
    let result = deserialize(text);
    assert!(result.is_err());
    let error = result.err().unwrap();
    assert!(matches!(error.kind, SerializerErrorKind::Syntax));
}

#[test]
fn should_fail_config_deserialization_without_sources_table() {
    let text = r##"
        [other]
        nytimes = "https://rss.nytimes.com/services/xml/rss/nyt/World.xml"
        "##;
    let result = deserialize(text);
    assert!(result.is_err());
    let error = result.err().unwrap();
    assert!(matches!(error.kind, SerializerErrorKind::Syntax));
    assert_eq!(
        error.to_message(),
        String::from("Syntax error (missing table `sources`)")
    );
}

#[test]
fn should_deserialize_empty_sources_table() {
    let config = article_free_config("[sources]\n");
    assert_eq!(config.sources.len(), 0);
}
