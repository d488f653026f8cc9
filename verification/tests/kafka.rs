use ftp_server::kafka::{
    KafkaSendHandler, ReplyCode, SendAction, SendArgs, SendEvent, SendSession, SiteReply,
    BROKERS, DEFAULT_TOPIC, MESSAGE_TIMEOUT_MS,
};
use ftp_server::storage::MemStorage;

fn args(topic: &str, key: Option<&str>, files: &[&str]) -> SendArgs {
    SendArgs {
        topic: topic.to_string(),
        key: key.map(|k| k.to_string()),
        file_names: files.iter().map(|f| f.to_string()).collect(),
    }
}

fn code_of(reply: &SiteReply) -> ReplyCode {
    match reply {
        SiteReply::CodeAndMsg { code, .. } => *code,
        SiteReply::MultiLine { code, .. } => *code,
    }
}

fn started(a: SendArgs) -> (SendSession, SendAction) {
    KafkaSendHandler.start(SendArgs::from_parsed(Ok(a)), true).unwrap()
}

#[test]
fn tokenizes_plain_file_names() {
    let words = SendArgs::tokenize("file1.txt file2.txt").unwrap();
    assert_eq!(words, vec!["file1.txt", "file2.txt"]);
}

#[test]
fn tokenizes_quoted_file_name_with_embedded_spaces() {
    let words = SendArgs::tokenize("\"my file.txt\"").unwrap();
    assert_eq!(words, vec!["my file.txt"]);
}

#[test]
fn tokenizes_topic_and_key_alongside_quoted_file_names() {
    let words =
        SendArgs::tokenize("--topic my-topic --key my-key \"my file.txt\" other.txt").unwrap();
    assert_eq!(words, vec!["--topic", "my-topic", "--key", "my-key", "my file.txt", "other.txt"]);
}

#[test]
fn rejects_unbalanced_quotes() {
    let err = SendArgs::tokenize("\"unterminated").unwrap_err();
    assert!(matches!(
        err,
        SiteReply::CodeAndMsg { code: ReplyCode::ParameterSyntaxError, .. }
    ));
}

#[test]
fn rejects_missing_file_names() {
    let err = SendArgs::from_parsed(Ok(args("my-topic", None, &[]))).unwrap_err();
    assert!(matches!(
        err,
        SiteReply::CodeAndMsg { code: ReplyCode::ParameterSyntaxError, ref msg } if msg == "Missing file names"
    ));
}

#[test]
fn a_complaint_of_the_option_parser_is_a_syntax_error() {
    let err = SendArgs::from_parsed(Err("unexpected argument '--nope'".to_string())).unwrap_err();
    assert!(matches!(
        err,
        SiteReply::CodeAndMsg { code: ReplyCode::ParameterSyntaxError, ref msg } if msg == "unexpected argument '--nope'"
    ));
}

#[test]
fn the_defaults_are_those_of_the_readme() {
    assert_eq!(DEFAULT_TOPIC, "rust-topic");
    assert_eq!(BROKERS, "localhost:9092");
    assert_eq!(MESSAGE_TIMEOUT_MS, "5000");
}

#[test]
fn handle_rejects_missing_file_names_without_touching_storage_or_kafka() {
    let parsed = SendArgs::from_parsed(Ok(args(DEFAULT_TOPIC, None, &[])));
    let reply = KafkaSendHandler.start(parsed, false).err().unwrap();
    assert_eq!(code_of(&reply), ReplyCode::ParameterSyntaxError);
}

#[test]
fn handle_rejects_when_not_logged_in() {
    let parsed = SendArgs::from_parsed(Ok(args(DEFAULT_TOPIC, None, &["hello.txt"])));
    let reply = KafkaSendHandler.start(parsed, false).err().unwrap();
    assert_eq!(code_of(&reply), ReplyCode::NotLoggedIn);
}

#[test]
fn handle_reports_missing_files_per_name_without_a_reachable_broker() {
    let storage = MemStorage::new();
    let (mut session, action) = started(args(DEFAULT_TOPIC, None, &["missing.txt"]));
    assert!(matches!(action, SendAction::Connect { .. }));

    let action = session.step(SendEvent::Connected(Ok(())));
    let file_name = match action {
        SendAction::Fetch { file_name } => file_name,
        other => panic!("expected a fetch, got {other:?}"),
    };
    assert_eq!(file_name, "missing.txt");
    let fetched = storage.get(&file_name, 0).map_err(|e| format!("{:?}", e.kind));

    match session.step(SendEvent::Fetched(fetched)) {
        SendAction::Finish(SiteReply::MultiLine { code, lines }) => {
            assert_eq!(code, ReplyCode::LocalError);
            assert_eq!(lines, vec!["\"missing.txt\": PermanentFileNotAvailable".to_string()]);
        }
        other => panic!("expected the final answer, got {other:?}"),
    }
}

#[test]
fn the_connect_action_names_the_broker() {
    let (_, action) = started(args(DEFAULT_TOPIC, None, &["a.txt"]));
    match action {
        SendAction::Connect { brokers, message_timeout_ms } => {
            assert_eq!(brokers, "localhost:9092");
            assert_eq!(message_timeout_ms, "5000");
        }
        other => panic!("expected a connect, got {other:?}"),
    }
}

#[test]
fn an_unreachable_broker_ends_the_command() {
    let (mut session, _) = started(args(DEFAULT_TOPIC, None, &["a.txt"]));
    match session.step(SendEvent::Connected(Err("no route".to_string()))) {
        SendAction::Finish(SiteReply::CodeAndMsg { code, msg }) => {
            assert_eq!(code, ReplyCode::LocalError);
            assert_eq!(msg, "Cannot connect to Kafka broker localhost:9092: no route");
        }
        other => panic!("expected the final answer, got {other:?}"),
    }
    assert!(!session.expects(&SendEvent::Fetched(Ok(Vec::new()))));
}

#[test]
fn every_file_is_published_in_order_with_its_own_name_as_key() {
    let (mut session, _) = started(args("t", None, &["a.txt", "b.txt"]));
    let mut action = session.step(SendEvent::Connected(Ok(())));
    let mut published = Vec::new();
    for (i, content) in [b"A".to_vec(), b"BB".to_vec()].into_iter().enumerate() {
        assert!(matches!(action, SendAction::Fetch { .. }));
        match session.step(SendEvent::Fetched(Ok(content.clone()))) {
            SendAction::Publish { topic, key, payload } => {
                assert_eq!(topic, "t");
                assert_eq!(payload, content);
                published.push(key);
            }
            other => panic!("expected a publish, got {other:?}"),
        }
        action = session.step(SendEvent::Published(Ok(format!("offset {i}"))));
    }
    assert_eq!(published, vec!["a.txt", "b.txt"]);
    match action {
        SendAction::Finish(SiteReply::MultiLine { code, lines }) => {
            assert_eq!(code, ReplyCode::CommandOkay);
            assert_eq!(
                lines,
                vec![
                    "Sent file \"a.txt\" as message to t. offset 0".to_string(),
                    "Sent file \"b.txt\" as message to t. offset 1".to_string(),
                ]
            );
        }
        other => panic!("expected the final answer, got {other:?}"),
    }
}

#[test]
fn the_key_option_keys_every_message() {
    let (mut session, _) = started(args("t", Some("k"), &["a.txt"]));
    session.step(SendEvent::Connected(Ok(())));
    match session.step(SendEvent::Fetched(Ok(vec![7]))) {
        SendAction::Publish { key, .. } => assert_eq!(key, "k"),
        other => panic!("expected a publish, got {other:?}"),
    }
}

#[test]
fn one_failed_delivery_fails_the_command_but_not_the_other_files() {
    let (mut session, _) = started(args("t", None, &["a.txt", "b.txt"]));
    session.step(SendEvent::Connected(Ok(())));
    session.step(SendEvent::Fetched(Ok(vec![1])));
    let action = session.step(SendEvent::Published(Err("MessageTimedOut".to_string())));
    assert!(matches!(action, SendAction::Fetch { ref file_name } if file_name == "b.txt"));
    session.step(SendEvent::Fetched(Ok(vec![2])));
    match session.step(SendEvent::Published(Ok("delivered".to_string()))) {
        SendAction::Finish(SiteReply::MultiLine { code, lines }) => {
            assert_eq!(code, ReplyCode::LocalError);
            assert_eq!(lines[0], "\"a.txt\": MessageTimedOut");
            assert_eq!(lines[1], "Sent file \"b.txt\" as message to t. delivered");
        }
        other => panic!("expected the final answer, got {other:?}"),
    }
}

#[test]
fn the_session_expects_only_the_event_of_its_request() {
    let (mut session, _) = started(args("t", None, &["a.txt"]));
    assert!(session.expects(&SendEvent::Connected(Ok(()))));
    assert!(!session.expects(&SendEvent::Published(Ok(String::new()))));
    session.step(SendEvent::Connected(Ok(())));
    assert!(session.expects(&SendEvent::Fetched(Ok(Vec::new()))));
    assert!(!session.expects(&SendEvent::Connected(Ok(()))));
}

#[test]
fn words_that_could_not_be_split_are_a_syntax_error() {
    let err = SendArgs::from_words(None).unwrap_err();
    assert!(matches!(
        err,
        SiteReply::CodeAndMsg { code: ReplyCode::ParameterSyntaxError, ref msg } if msg == "Unbalanced quotes in arguments"
    ));
    let words = vec!["a".to_string(), "b c".to_string()];
    assert_eq!(SendArgs::from_words(Some(words.clone())).unwrap(), words);
}

#[test]
fn a_missing_file_is_reported_and_the_later_ones_still_sent() {
    let mut storage = MemStorage::new();
    storage.put("a.txt", Ok(b"A".to_vec())).unwrap();
    storage.put("c.txt", Ok(b"C".to_vec())).unwrap();
    let (mut session, _) = started(args("t", None, &["a.txt", "b.txt", "/c.txt"]));
    let mut action = session.step(SendEvent::Connected(Ok(())));
    let mut sent = Vec::new();
    loop {
        let event = match action {
            SendAction::Finish(reply) => {
                match reply {
                    SiteReply::MultiLine { code, lines } => {
                        assert_eq!(code, ReplyCode::LocalError);
                        assert_eq!(lines.len(), 3);
                        assert!(lines[1].starts_with("\"b.txt\": "));
                        assert_eq!(lines[2], "Sent file \"/c.txt\" as message to t. ok");
                    }
                    other => panic!("expected a report, got {other:?}"),
                }
                break;
            }
            SendAction::Fetch { file_name } => SendEvent::Fetched(
                storage.get(&file_name, 0).map_err(|e| format!("{:?}", e.kind)),
            ),
            SendAction::Publish { key, payload, .. } => {
                sent.push((key, payload));
                SendEvent::Published(Ok("ok".to_string()))
            }
            other => panic!("unexpected {other:?}"),
        };
        action = session.step(event);
    }
    assert_eq!(
        sent,
        vec![("a.txt".to_string(), b"A".to_vec()), ("/c.txt".to_string(), b"C".to_vec())]
    );
}
