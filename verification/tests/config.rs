use vaultpipe::config::{config_file_path, config_path_from_default, parse_config, ConfigError};
use vaultpipe::keepassxc::socket::socket_path_in;

#[test]
fn given_config_path_wins() {
    let path = config_file_path(Some("/etc/vaultpipe.kdl".to_owned())).unwrap();
    assert_eq!(path, "/etc/vaultpipe.kdl");
}

#[test]
fn default_config_path_cases() {
    assert!(matches!(config_path_from_default(None), Err(ConfigError::NoConfigDir)));
    assert!(matches!(config_path_from_default(Some(None)), Err(ConfigError::NonUnicodePath)));
    assert_eq!(
        config_path_from_default(Some(Some("/home/u/.config/vaultpipe/config.kdl".to_owned()))).unwrap(),
        "/home/u/.config/vaultpipe/config.kdl"
    );
}

#[test]
fn kdl_documents_parse() {
    assert!(parse_config("").is_ok());
    assert!(parse_config("source \"keepass\" {\n  db \"main\"\n}\n").is_ok());
}

#[test]
fn malformed_kdl_is_refused() {
    assert!(matches!(parse_config("node {"), Err(ConfigError::Parse(_))));
}

#[test]
fn socket_path_in_tmp_dir() {
    assert_eq!(
        socket_path_in("/var/folders/xy/T/".to_owned()),
        "/var/folders/xy/T/org.keepassxc.KeePassXC.BrowserServer"
    );
}

#[test]
fn nested_blocks_and_comments_parse() {
    let text = format!("{}{}", "a {".repeat(16), "}".repeat(16));
    assert!(parse_config(&text).is_ok());
    let comment = format!("/*{}*/\nnode 1\n", "*".repeat(20));
    assert!(parse_config(&comment).is_ok());
}

#[test]
fn many_slashes_and_braces_parse() {
    let mut text = String::new();
    for i in 0..40 {
        text.push_str(&format!("url \"https://example.org/a/b/{}\" {{ x 1; }}\n", i));
    }
    text.push_str("// a comment /* with */ stars *\n");
    assert!(parse_config(&text).is_ok());
}
