use aquatic::common::cli::{first_8_chars, LogLevel, Options};

fn args(list: &[&str]) -> Vec<String> {
    list.iter().map(|s| s.to_string()).collect()
}

#[test]
fn test_parse_args_options() {
    let options = Options::parse_args(args(&["-c", "/etc/aquatic.toml", "-P", "--version"])).unwrap();
    assert_eq!(options.config_file, Some("/etc/aquatic.toml".to_string()));
    assert!(options.print_parsed_config);
    assert!(options.print_version);
    assert!(!options.print_config);

    let options = Options::parse_args(args(&["", "--print-config"])).unwrap();
    assert!(options.print_config);
    assert_eq!(options.config_file, None);

    let options = Options::parse_args(Vec::new()).unwrap();
    assert!(!options.print_config && !options.print_parsed_config && !options.print_version);
}

#[test]
fn test_parse_args_errors() {
    assert_eq!(Options::parse_args(args(&["-h"])).unwrap_err(), None);
    assert_eq!(Options::parse_args(args(&["-p", "--help"])).unwrap_err(), None);
    assert_eq!(
        Options::parse_args(args(&["--config-file"])).unwrap_err(),
        Some("No config file path given".to_string())
    );
    assert_eq!(Options::parse_args(args(&["-x"])).unwrap_err(), Some("Unrecognized argument".to_string()));
}

#[test]
fn test_first_8_chars() {
    assert_eq!(first_8_chars("0123456789abcdef"), "01234567");
    assert_eq!(first_8_chars("abc"), "abc");
    assert_eq!(first_8_chars("äöüßéèêëx"), "äöüßéèêë");
}

#[test]
fn test_log_level_default() {
    assert_eq!(LogLevel::default(), LogLevel::Warn);
}
