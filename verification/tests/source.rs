use vaultpipe::env::collect_env;
use vaultpipe::source::{get_secret_source_from_uri, initialize_source_by_name, secret_references};

#[test]
fn test_get_secret_source_from_uri() {
    let cases: Vec<(&str, Option<String>)> = vec![
        ("somerandomstring", None),
        ("vp://keepass/db/value", Some("keepass".to_owned())),
        ("vp://test", None),
        ("vp://test/foo", Some("test".to_owned())),
    ];
    for (uri, expected) in cases {
        let res = get_secret_source_from_uri(uri);
        assert_eq!(res, expected);
    }
}

#[test]
fn source_name_stops_at_first_slash() {
    assert_eq!(get_secret_source_from_uri("vp://a/b/c"), Some("a".to_owned()));
    assert_eq!(get_secret_source_from_uri("vp:///path"), Some("".to_owned()));
    assert_eq!(get_secret_source_from_uri("vp:/x/y"), None);
    assert_eq!(get_secret_source_from_uri("xvp://x/y"), None);
    assert_eq!(get_secret_source_from_uri(""), None);
}

#[test]
fn source_name_keeps_unicode() {
    assert_eq!(get_secret_source_from_uri("vp://schlüssel/ä"), Some("schlüssel".to_owned()));
}

#[test]
fn reference_built_from_name_and_path_names_source() {
    let name = "vault";
    let path = "team/db";
    let uri = format!("vp://{}/{}", name, path);
    assert_eq!(get_secret_source_from_uri(&uri), Some(name.to_owned()));
}

#[test]
fn no_source_is_registered() {
    assert!(initialize_source_by_name("keepass").is_none());
    assert!(initialize_source_by_name("").is_none());
}

#[test]
fn secret_references_pick_referencing_values_in_order() {
    let env = collect_env(vec![
        ("PLAIN".to_owned(), "value".to_owned()),
        ("DB".to_owned(), "vp://keepass/db/password".to_owned()),
        ("BARE".to_owned(), "vp://nopath".to_owned()),
        ("API".to_owned(), "vp://vault/api".to_owned()),
    ]);
    let refs = secret_references(&env);
    assert_eq!(
        refs,
        vec![
            ("API".to_owned(), "vault".to_owned()),
            ("DB".to_owned(), "keepass".to_owned()),
        ]
    );
}
