use clnaddress::base_url::{with_trailing_slash, BaseUrl, BaseUrlError};
use clnaddress::startup::{
    accept_keys, check_secret_path, choose_listen_address, get_startup_options,
    listens_on_localhost, load_nostr_zapper_keys, read_secret_file, FileFacts, FileKind,
    SecretFile, StartupError, StartupFault, StartupOptions,
};

const SECRET: &str = "0000000000000000000000000000000000000000000000000000000000000001";
const SECRET_BECH32: &str = "nsec1qqqqqqqqqqqqqqqqqqqqqqqqqqqqqqqqqqqqqqqqqqqqqqqqqqqsmhltgl";
const PUBLIC: &str = "79be667ef9dcbbac55a06295ce870b07029bfcdb2dce28d959f2815b16f81798";

fn file(mode: u32, contents: &str) -> SecretFile {
    SecretFile {
        path: "/tmp/key".to_string(),
        facts: Some(FileFacts { kind: FileKind::Regular, mode: Some(mode) }),
        contents: Some(contents.to_string()),
    }
}

fn options() -> StartupOptions {
    StartupOptions {
        rpc_path: "/run/lightning-rpc".to_string(),
        plugin_dir: "/var/clnaddress".to_string(),
        listen: "127.0.0.1:9797".to_string(),
        listen_lookup: Ok(Some("127.0.0.1:9797".to_string())),
        base_url: Some("https://goats.example/pay".to_string()),
        min_receivable: 1,
        max_receivable: 100_000_000,
        description: "Thank you".to_string(),
        nostr_privkey: None,
        nostr_privkey_file: None,
    }
}

fn said<T>(result: Result<T, StartupError>) -> String {
    match result {
        Ok(_) => panic!("accepted"),
        Err(error) => error.message(),
    }
}

fn public_key(result: Result<Option<clnaddress::event::ZapperKeys>, StartupError>) -> String {
    match result {
        Ok(Some(keys)) => nostr::key::PublicKey::from_byte_array(keys.public_key).to_hex(),
        Ok(None) => panic!("no keys"),
        Err(error) => panic!("{}", error.message()),
    }
}

#[test]
fn rejects_two_zap_secret_sources() {
    assert!(load_nostr_zapper_keys(
        Some("secret".to_owned()),
        Some(SecretFile { path: "/tmp/key".to_owned(), facts: None, contents: None }),
    )
    .is_err());
}

#[test]
fn rejects_group_or_world_readable_zap_secret_file() {
    assert!(read_secret_file(file(0o644, "test-secret")).is_err());
}

#[test]
fn accepts_private_regular_zap_secret_file() {
    assert_eq!(read_secret_file(file(0o600, "test-secret\n")).unwrap(), "test-secret\n");
}

#[test]
fn rejects_symlinked_zap_secret_file() {
    let link = SecretFile {
        path: "/tmp/link".to_string(),
        facts: Some(FileFacts { kind: FileKind::Symlink, mode: Some(0o600) }),
        contents: Some("test-secret".to_string()),
    };
    assert!(read_secret_file(link).is_err());
}

#[test]
fn refused_key_files_say_why() {
    let regular = |mode: Option<u32>| Some(FileFacts { kind: FileKind::Regular, mode });
    assert_eq!(said(check_secret_path("", regular(None))), "Nostr private key file path is empty");
    assert_eq!(said(check_secret_path("k", None)), "could not stat Nostr private key file k");
    assert_eq!(
        said(check_secret_path("k", Some(FileFacts { kind: FileKind::Symlink, mode: None }))),
        "Nostr private key file must not be a symbolic link"
    );
    assert_eq!(
        said(check_secret_path("k", Some(FileFacts { kind: FileKind::Other, mode: None }))),
        "Nostr private key path must reference a regular file"
    );
    assert_eq!(
        said(check_secret_path("k", regular(Some(0o100644)))),
        "Nostr private key file permissions are too broad (644); use mode 0600 or stricter"
    );
    assert_eq!(
        said(check_secret_path("k", regular(Some(0o100001)))),
        "Nostr private key file permissions are too broad (1); use mode 0600 or stricter"
    );
    assert!(check_secret_path("k", regular(Some(0o100600))).is_ok());
    assert!(check_secret_path("k", regular(Some(0o100400))).is_ok());
    assert!(check_secret_path("k", regular(None)).is_ok());
    let unread = SecretFile { contents: None, ..file(0o600, "") };
    assert_eq!(said(read_secret_file(unread)), "could not read Nostr private key file /tmp/key");
}

#[test]
fn keys_are_read_inline_and_from_files() {
    assert!(matches!(load_nostr_zapper_keys(None, None), Ok(None)));
    for secret in [
        SECRET.to_string(),
        SECRET_BECH32.to_string(),
        format!(" \t{SECRET}\r\n"),
        format!("\u{3000}{SECRET}\u{a0}"),
    ] {
        assert_eq!(public_key(load_nostr_zapper_keys(Some(secret.clone()), None)), PUBLIC);
        assert_eq!(public_key(load_nostr_zapper_keys(None, Some(file(0o600, &secret)))), PUBLIC);
    }
}

#[test]
fn keys_are_kept_in_hexadecimal() {
    match load_nostr_zapper_keys(Some(SECRET_BECH32.to_string()), None) {
        Ok(Some(keys)) => assert_eq!(keys.secret_key, SECRET),
        _ => panic!("refused"),
    }
}

#[test]
fn refused_keys_say_why() {
    assert_eq!(
        said(load_nostr_zapper_keys(Some("a".to_string()), Some(file(0o600, "b")))),
        "configure only one of `clnaddress-nostr-privkey` or `clnaddress-nostr-privkey-file`"
    );
    assert_eq!(
        said(load_nostr_zapper_keys(Some(" \n".to_string()), None)),
        "Nostr zap receipt private key is empty"
    );
    assert_eq!(
        said(load_nostr_zapper_keys(Some("goat".to_string()), None)),
        "invalid Nostr zap receipt private key"
    );
    assert_eq!(
        said(load_nostr_zapper_keys(None, Some(file(0o640, SECRET)))),
        "Nostr private key file permissions are too broad (640); use mode 0600 or stricter"
    );
    assert!(matches!(accept_keys(None), Err(StartupFault::InvalidSecret)));
}

#[test]
fn the_host_before_the_last_colon_is_looked_at() {
    assert!(listens_on_localhost("localhost:9797").unwrap());
    assert!(!listens_on_localhost("127.0.0.1:9797").unwrap());
    assert!(!listens_on_localhost("[::1]:9797").unwrap());
    assert!(!listens_on_localhost("localhost:1:2").unwrap());
    assert!(listens_on_localhost("localhost:").unwrap());
    assert_eq!(
        said(listens_on_localhost("localhost")),
        "`clnaddress-listen` is invalid, it should have one `:`"
    );
}

#[test]
fn the_address_that_was_found_is_listened_on() {
    let found = Ok(Some("127.0.0.1:1".to_string()));
    assert_eq!(choose_listen_address("localhost:1", found).unwrap(), "127.0.0.1:1");
    assert_eq!(
        said(choose_listen_address("localhost:1", Ok(None))),
        "No address found for localhost"
    );
    assert_eq!(said(choose_listen_address("localhost:1", Err("dns".to_string()))), "dns");
    assert_eq!(
        said(choose_listen_address("goat:1", Ok(None))),
        "`clnaddress-listen` should be a valid IP."
    );
    assert_eq!(
        said(choose_listen_address("goat:1", Err("dns".to_string()))),
        "`clnaddress-listen` should be a valid IP."
    );
    assert_eq!(
        said(choose_listen_address("goat", Ok(Some("x".to_string())))),
        "`clnaddress-listen` is invalid, it should have one `:`"
    );
}

#[test]
fn servers_start_with_their_options() {
    let state = match get_startup_options(StartupOptions {
        nostr_privkey: Some(SECRET.to_string()),
        ..options()
    }) {
        Ok(state) => state,
        Err(error) => panic!("{}", error.message()),
    };
    assert_eq!(state.rpc_path, "/run/lightning-rpc");
    assert_eq!(state.plugin_dir, "/var/clnaddress");
    assert_eq!(state.min_sendable_msat, 1);
    assert_eq!(state.max_sendable_msat, 100_000_000);
    assert_eq!(state.default_description, "Thank you");
    assert!(state.users.entries().is_empty());
    assert_eq!(state.base_url.as_str(), "https://goats.example/pay/");
    assert_eq!(state.payindex, 0);
    assert_eq!(state.listen_address, "127.0.0.1:9797");
    assert_eq!(state.nostr_zapper_keys.unwrap().secret_key, SECRET);
}

#[test]
fn servers_that_do_not_start_say_why() {
    let refuse = |options: StartupOptions| said(get_startup_options(options));
    assert_eq!(
        refuse(StartupOptions { base_url: None, ..options() }),
        "Please specify a base URL!"
    );
    assert_eq!(
        refuse(StartupOptions { base_url: Some("goats".to_string()), ..options() }),
        "relative URL without a base"
    );
    assert_eq!(
        refuse(StartupOptions { base_url: Some("mailto:goat".to_string()), ..options() }),
        "Invalid base URL! Missing host part! mailto:goat/"
    );
    assert_eq!(
        refuse(StartupOptions { min_receivable: -1, ..options() }),
        "out of range integral type conversion attempted"
    );
    assert_eq!(
        refuse(StartupOptions { max_receivable: -1, ..options() }),
        u64::try_from(-1i64).unwrap_err().to_string()
    );
    assert_eq!(
        refuse(StartupOptions { min_receivable: 2, max_receivable: 1, ..options() }),
        "`clnaddress-min-receivable` is greater than `clnaddress-max-receivable`!"
    );
    assert_eq!(
        refuse(StartupOptions { nostr_privkey: Some(String::new()), ..options() }),
        "Nostr zap receipt private key is empty"
    );
    assert_eq!(
        refuse(StartupOptions { listen: "goat".to_string(), base_url: None, ..options() }),
        "`clnaddress-listen` is invalid, it should have one `:`"
    );
}

#[test]
fn a_slash_at_the_end_of_a_base_url_is_optional() {
    for (with, without) in [
        ("https://goats.example/", "https://goats.example"),
        ("https://goats.example:8443/pay/", "https://goats.example:8443/pay"),
    ] {
        let with = BaseUrl::parse(with.to_string()).unwrap();
        let without = BaseUrl::parse(without.to_string()).unwrap();
        assert_eq!(with.as_str(), without.as_str());
        assert_eq!(with.port(), without.port());
    }
    assert_eq!(with_trailing_slash(String::new()), "/");
    assert_eq!(with_trailing_slash("a".to_string()), "a/");
    assert_eq!(with_trailing_slash("a/".to_string()), "a/");
}

#[test]
fn callbacks_are_below_the_base_url() {
    let url = BaseUrl::parse("HTTPS://Goats.Example:443/pay".to_string()).unwrap();
    assert_eq!(url.as_str(), "https://goats.example/pay/");
    assert_eq!(url.host(), "goats.example");
    assert_eq!(url.port(), None);
    assert_eq!(url.callback(None), "https://goats.example/pay/invoice");
    assert_eq!(url.callback(Some("goat.3")), "https://goats.example/pay/invoice/goat.3");
    assert!(matches!(BaseUrl::parse("x:".to_string()), Err(BaseUrlError::MissingHost(_))));
    assert!(matches!(BaseUrl::parse(String::new()), Err(BaseUrlError::Malformed(_))));
}

#[test]
fn callbacks_of_a_base_url_with_a_query_replace_its_last_segment() {
    let url = BaseUrl::parse("https://goats.example/pay?herd".to_string()).unwrap();
    assert_eq!(url.as_str(), "https://goats.example/pay?herd/");
    assert_eq!(url.callback(Some("goat")), "https://goats.example/invoice/goat");
}

#[test]
fn callbacks_are_joined_to_the_url_that_was_parsed() {
    let url = BaseUrl::parse("file://h//C:/".to_string()).unwrap();
    assert_eq!(url.as_str(), "file://h/C:/");
    assert_eq!(url.host(), "h");
    assert_eq!(url.callback(None), "file://h/C:/invoice");
    assert_eq!(url.callback(Some("goat")), "file://h/C:/invoice/goat");
}

#[test]
fn one_join_is_as_good_as_two() {
    for base in [
        "https://goats.example/",
        "https://goats.example/pay?herd/",
        "file://h//C:/",
        "file://h//C:?x/",
        "file://h/a#b/",
        "goat://h?x/",
        "goat://u:p@h:80/a/../b/",
        "goat://h//",
    ] {
        let parsed = url::Url::parse(base).unwrap();
        let url = BaseUrl::parse(base.to_string()).unwrap();
        assert_eq!(url.callback(None), parsed.join("invoice").unwrap().to_string());
        for user in ["goat", "c", "goat.3", "1"] {
            assert_eq!(
                url.callback(Some(user)),
                parsed.join("invoice/").unwrap().join(user).unwrap().to_string()
            );
        }
    }
}
