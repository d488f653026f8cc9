use ftp_server::diagnostics::describe_error;

#[test]
fn describe_error_joins_the_source_chain() {
    let chain = vec![
        "server error".to_string(),
        "io error".to_string(),
        "Address already in use (os error 48)".to_string(),
    ];
    assert_eq!(
        describe_error(&chain),
        "server error: io error: Address already in use (os error 48)"
    );
}

#[test]
fn describe_error_of_an_error_without_sources_is_its_message() {
    assert_eq!(describe_error(&vec!["boom".to_string()]), "boom");
    assert_eq!(describe_error(&Vec::new()), "");
}
