use pact_stub_server::pattern::NamePattern;
use pact_stub_server::source::{SourceArgs, HttpAuth};
use pact_stub_server::{get_watch_paths, integer_value, pact_source, regex_value, PactSource};

fn no_args() -> SourceArgs {
    SourceArgs {
        files: vec![],
        dirs: vec![],
        urls: vec![],
        broker_url: None,
        user: None,
        token: None,
        consumer_names: vec![],
        provider_names: vec![],
    }
}

#[test]
fn validates_integer_value() {
    assert_eq!(integer_value("1234"), Ok(1234));
    assert!(integer_value("1234x").is_err());
}

#[test]
fn validates_regex_value() {
    assert!(regex_value("1234").is_ok());
    assert!(regex_value("\\d+").is_ok());
    assert!(regex_value("[").is_err());
}

#[test]
fn integer_value_names_the_text_it_refuses() {
    let message = integer_value("1234x").unwrap_err();
    assert!(message.starts_with("'1234x' is not a valid port value: "));
    assert!(message.len() > "'1234x' is not a valid port value: ".len());
    assert_eq!(integer_value("0"), Ok(0));
    assert_eq!(integer_value("65535"), Ok(65535));
    assert!(integer_value("65536").is_err());
    assert!(integer_value("").is_err());
    assert!(integer_value("-1").is_err());
}

#[test]
fn regex_value_refuses_the_empty_pattern() {
    assert_eq!(regex_value("").unwrap_err(), "Regular expression is empty");
}

#[test]
fn regex_value_names_the_pattern_it_refuses() {
    let message = regex_value("[").unwrap_err();
    assert!(message.starts_with("'[' is not a valid regular expression: "));
    assert!(message.len() > "'[' is not a valid regular expression: ".len());
}

#[test]
fn regex_value_keeps_the_pattern() {
    let pattern = regex_value("state \\d+").unwrap();
    assert_eq!(pattern.as_str(), "state \\d+");
    let patterns = vec![regex_value("^a$").unwrap(), pattern];
    assert!(NamePattern::any_matches(&patterns, "state 12"));
    assert!(NamePattern::any_matches(&patterns, "a"));
    assert!(!NamePattern::any_matches(&patterns, "state x"));
    assert!(!NamePattern::any_matches(&vec![], "a"));
}

#[test]
fn sources_come_in_the_order_files_dirs_urls_broker() {
    let args = SourceArgs {
        files: vec!["a.json".to_string(), "b.json".to_string()],
        dirs: vec!["pacts".to_string()],
        urls: vec!["http://x/1".to_string()],
        broker_url: Some("http://broker".to_string()),
        token: Some("tok".to_string()),
        consumer_names: vec![regex_value("web").unwrap()],
        ..no_args()
    };
    let sources = pact_source(&args);
    assert_eq!(sources.len(), 5);
    assert!(matches!(&sources[0], PactSource::File(path) if path == "a.json"));
    assert!(matches!(&sources[1], PactSource::File(path) if path == "b.json"));
    assert!(matches!(&sources[2], PactSource::Dir(path) if path == "pacts"));
    match &sources[3] {
        PactSource::URL(url, Some(HttpAuth::Token(token))) => {
            assert_eq!(url, "http://x/1");
            assert_eq!(token, "tok");
        }
        other => panic!("unexpected source {:?}", other),
    }
    match &sources[4] {
        PactSource::Broker { url, auth: Some(HttpAuth::Token(token)), consumers, providers } => {
            assert_eq!(url, "http://broker");
            assert_eq!(token, "tok");
            assert_eq!(consumers.len(), 1);
            assert_eq!(consumers[0].as_str(), "web");
            assert!(providers.is_empty());
        }
        other => panic!("unexpected source {:?}", other),
    }
}

#[test]
fn user_option_is_split_at_its_colons() {
    let with = |user: &str| {
        let args = SourceArgs {
            urls: vec!["http://x".to_string()],
            user: Some(user.to_string()),
            token: Some("ignored".to_string()),
            ..no_args()
        };
        match pact_source(&args).pop() {
            Some(PactSource::URL(_, Some(HttpAuth::User(name, password)))) => (name, password),
            other => panic!("unexpected source {:?}", other),
        }
    };
    assert_eq!(with("bob"), ("bob".to_string(), None));
    assert_eq!(with("bob:secret"), ("bob".to_string(), Some("secret".to_string())));
    assert_eq!(with("bob:"), ("bob".to_string(), Some(String::new())));
    assert_eq!(with(":secret"), (String::new(), Some("secret".to_string())));
    assert_eq!(with("bob:se:cret"), ("bob".to_string(), Some("se".to_string())));
}

#[test]
fn no_options_give_no_sources() {
    assert!(pact_source(&no_args()).is_empty());
    let args = SourceArgs { urls: vec!["http://x".to_string()], ..no_args() };
    assert!(matches!(pact_source(&args).pop(), Some(PactSource::URL(_, None))));
}

#[test]
fn only_files_and_directories_are_watched() {
    let sources = vec![
        PactSource::URL("http://x".to_string(), None),
        PactSource::Dir("pacts".to_string()),
        PactSource::Unknown,
        PactSource::File("a.json".to_string()),
        PactSource::Broker {
            url: "http://b".to_string(),
            auth: None,
            consumers: vec![],
            providers: vec![],
        },
    ];
    assert_eq!(get_watch_paths(&sources), vec!["pacts".to_string(), "a.json".to_string()]);
    assert!(get_watch_paths(&vec![]).is_empty());
}
