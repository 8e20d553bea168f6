use livemarkdown::cli::{validate_port, Args};

fn argv(args: &[&str]) -> Vec<String> {
    args.iter().map(|a| a.to_string()).collect()
}

#[test]
fn test_validate_port() {
    assert!(validate_port("3030").is_ok());
    assert!(validate_port("8080").is_ok());
    assert!(validate_port("65535").is_ok());
    assert!(validate_port("0").is_err());
    assert!(validate_port("abc").is_err());
    assert!(validate_port("70000").is_err());
}

#[test]
fn test_args_parsing_with_port() {
    let args = Args::try_parse_from(&argv(&["livemarkdown", "--port", "8080"])).unwrap();
    assert_eq!(args.port, Some(8080));
    assert_eq!(args.file, None);
}

#[test]
fn test_args_parsing_without_port() {
    let args = Args::try_parse_from(&argv(&["livemarkdown"])).unwrap();
    assert_eq!(args.port, None);
    assert_eq!(args.file, None);
}

#[test]
fn test_args_parsing_with_file() {
    let args = Args::try_parse_from(&argv(&["livemarkdown", "test.md"])).unwrap();
    assert_eq!(args.port, None);
    assert_eq!(args.file, Some("test.md".to_string()));
}

#[test]
fn test_args_parsing_with_port_and_file() {
    let args = Args::try_parse_from(&argv(&["livemarkdown", "--port", "3030", "test.md"])).unwrap();
    assert_eq!(args.port, Some(3030));
    assert_eq!(args.file, Some("test.md".to_string()));
}

#[test]
fn validate_port_exact_values_and_messages() {
    assert_eq!(validate_port("3030").unwrap(), 3030);
    assert_eq!(validate_port("1").unwrap(), 1);
    assert_eq!(validate_port("+8080").unwrap(), 8080);
    assert_eq!(validate_port("00042").unwrap(), 42);
    assert_eq!(
        validate_port("0").unwrap_err(),
        "Port number must be greater than 0"
    );
    assert_eq!(
        validate_port("65536").unwrap_err(),
        "Port must be a valid number between 1 and 65535"
    );
    assert_eq!(
        validate_port("").unwrap_err(),
        "Port must be a valid number between 1 and 65535"
    );
    assert_eq!(
        validate_port("-1").unwrap_err(),
        "Port must be a valid number between 1 and 65535"
    );
    assert_eq!(
        validate_port("12x4").unwrap_err(),
        "Port must be a valid number between 1 and 65535"
    );
}

#[test]
fn args_parsing_rejects_bad_command_lines() {
    assert!(Args::try_parse_from(&argv(&["livemarkdown", "--port"])).is_err());
    assert!(Args::try_parse_from(&argv(&["livemarkdown", "--port", "0"])).is_err());
    assert!(Args::try_parse_from(&argv(&["livemarkdown", "--port", "abc"])).is_err());
    assert!(Args::try_parse_from(&argv(&["livemarkdown", "--unknown"])).is_err());
    assert!(Args::try_parse_from(&argv(&["livemarkdown", "a.md", "b.md"])).is_err());
    assert!(
        Args::try_parse_from(&argv(&["livemarkdown", "--port", "1", "--port", "2"])).is_err()
    );
}

#[test]
fn args_parsing_short_flag() {
    let args = Args::try_parse_from(&argv(&["livemarkdown", "-p", "4000", "doc.md"])).unwrap();
    assert_eq!(args.port, Some(4000));
    assert_eq!(args.file, Some("doc.md".to_string()));
}
