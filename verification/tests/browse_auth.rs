use rustdirlister::auth::{auth_config, login_accepted, parse_user_file, session_allows, session_cookie, session_cookie_name, session_cookie_value, UserInfo};
use rustdirlister::browse::{
    gate, DirListing, Gate,
    browse_outcome, cached_readme, download_disposition, is_readme, is_static_path, climbs_out_of, request_path,
    static_headers, static_outcome, store_readme, BrowseOutcome, EntryKind, MdCache, StaticOutcome,
};
use rustdirlister::clock::Timestamp;
use rustdirlister::encoding::utf8_or_empty;
use rustdirlister::listing::EntryMeta;
use rustdirlister::secret::{secret_key_from, secret_key_with};

fn user(l: &str, p: &str) -> UserInfo {
    UserInfo { login: l.to_string(), password: p.to_string() }
}

#[test]
fn request_path_decodes_and_trims() {
    assert_eq!(request_path("/docs/a%20b/").as_deref(), Some("docs/a b"));
    assert_eq!(request_path("/").as_deref(), Some(""));
    assert_eq!(request_path("/%C3%A9t%C3%A9").as_deref(), Some("été"));
    assert_eq!(request_path("/50%25+off").as_deref(), Some("50%+off"));
    assert_eq!(request_path("/%zz/%4").as_deref(), Some("%zz/%4"));
}

#[test]
fn request_path_rejects_invalid_utf8() {
    assert_eq!(request_path("/%FF%FE"), None);
}

#[test]
fn static_paths_are_recognised() {
    assert!(is_static_path("rdl_static/app.js"));
    assert!(is_static_path("rdl_static"));
    assert!(!is_static_path("docs/rdl_static"));
    assert!(!is_static_path("rdl_static2/secret"));
    assert!(!is_static_path("rdl_staticfoo"));
}

#[test]
fn static_and_browse_outcomes() {
    assert!(matches!(static_outcome(None), StaticOutcome::NotFound));
    assert!(matches!(static_outcome(Some(EntryKind::Dir)), StaticOutcome::NotFound));
    assert!(matches!(static_outcome(Some(EntryKind::File)), StaticOutcome::Serve));
    assert!(matches!(static_outcome(Some(EntryKind::Other)), StaticOutcome::NotImplemented));
    assert!(matches!(browse_outcome(None), BrowseOutcome::EmptyPage));
    assert!(matches!(browse_outcome(Some(EntryKind::File)), BrowseOutcome::Download));
    assert!(matches!(browse_outcome(Some(EntryKind::Dir)), BrowseOutcome::Listing));
    assert!(matches!(browse_outcome(Some(EntryKind::Other)), BrowseOutcome::Listing));
}

#[test]
fn static_headers_name_type_and_file() {
    let h = static_headers("rdl_static/style.css");
    assert_eq!(h.content_type, "text/css");
    assert_eq!(h.disposition, "filename=\"file.bin\"; filename*=UTF-8''style.css ");
    let h = static_headers("rdl_static/blob");
    assert_eq!(h.content_type, "application/octet-stream");
    let h = static_headers("..");
    assert_eq!(h.disposition, "filename=\"file.bin\"; filename*=UTF-8''file.bin ");
}

#[test]
fn download_disposition_is_an_attachment() {
    assert_eq!(
        download_disposition("served/docs/report.pdf"),
        "attachment; filename=\"file.bin\"; filename*=UTF-8''report.pdf "
    );
}

#[test]
fn readme_cache_serves_until_file_changes() {
    let mut cache: MdCache = MdCache::new();
    let key = "served/README.md".to_string();
    let t1 = Timestamp { secs: 100, nanos: 5 };
    assert_eq!(cached_readme(&cache, &key, t1), None);
    let text = store_readme(&mut cache, key.clone(), t1, "# Title".as_bytes());
    assert_eq!(text, "# Title");
    assert_eq!(cached_readme(&cache, &key, t1).as_deref(), Some("# Title"));
    assert_eq!(cached_readme(&cache, &key, Timestamp { secs: 99, nanos: 0 }), None);
    assert_eq!(cached_readme(&cache, &key, Timestamp { secs: 100, nanos: 4 }), None);
    assert_eq!(cached_readme(&cache, &key, Timestamp { secs: 100, nanos: 6 }), None);
    assert_eq!(cached_readme(&cache, &"other/README.md".to_string(), t1), None);
}

#[test]
fn readme_that_is_not_utf8_reads_as_empty() {
    let mut cache: MdCache = MdCache::new();
    let text = store_readme(&mut cache, "k".to_string(), Timestamp::unix_epoch(), &[0xff, 0xfe]);
    assert_eq!(text, "");
    assert_eq!(utf8_or_empty("é".as_bytes()), "é");
    assert!(is_readme("README.md"));
    assert!(!is_readme("readme.md"));
}

#[test]
fn user_file_with_two_pieces() {
    let u = parse_user_file("admin s3cret").unwrap();
    assert_eq!(u.login, "admin");
    assert_eq!(u.password, "s3cret");
    let u = parse_user_file("admin s3cret\n").unwrap();
    assert_eq!(u.password, "s3cret\n");
    let u = parse_user_file(" x").unwrap();
    assert_eq!(u.login, "");
    assert_eq!(u.password, "x");
}

#[test]
fn user_file_with_other_piece_counts() {
    assert!(parse_user_file("").is_none());
    assert!(parse_user_file("admin").is_none());
    assert!(parse_user_file("a b c").is_none());
    assert!(parse_user_file("a  b").is_none());
}

#[test]
fn auth_config_enables_login_only_with_credentials() {
    let c = auth_config("root pw");
    assert!(c.enabled);
    assert_eq!(c.user.login, "root");
    let c = auth_config("nothing");
    assert!(!c.enabled);
    assert_eq!(c.user.login, "");
    assert_eq!(c.user.password, "");
}

#[test]
fn login_needs_matching_credentials() {
    let u = user("root", "pw");
    assert!(login_accepted(true, Some(&u), &user("root", "pw")));
    assert!(!login_accepted(true, Some(&u), &user("root", "px")));
    assert!(!login_accepted(true, Some(&u), &user("roo", "pw")));
    assert!(!login_accepted(true, None, &user("root", "pw")));
    assert!(!login_accepted(false, Some(&u), &user("root", "pw")));
}

#[test]
fn session_check() {
    assert!(session_allows(false, None));
    assert!(session_allows(true, Some(session_cookie_value())));
    assert!(!session_allows(true, Some("Auth")));
    assert!(!session_allows(true, None));
    assert_eq!(session_cookie_name(), "session");
    assert_eq!(session_cookie_value(), "auth");
}

#[test]
fn session_cookie_attributes() {
    let c = session_cookie();
    assert_eq!(c.name, "session");
    assert_eq!(c.value, "auth");
    assert_eq!(c.path, "/");
    assert!(c.http_only && c.same_site_strict && c.permanent);
    assert!(session_allows(true, Some(c.value)));
}

#[test]
fn login_then_session_cookie_lets_requests_in() {
    let c = auth_config("root pw");
    assert!(login_accepted(c.enabled, Some(&c.user), &user("root", "pw")));
    assert!(session_allows(c.enabled, Some(session_cookie_value())));
}

#[test]
fn stored_key_is_used_as_is() {
    let stored: Vec<u8> = (0..64).collect();
    let fresh = [9u8; 64];
    let k = secret_key_with(Some(&stored), &fresh);
    assert_eq!(k.key, stored);
    assert!(!k.persist);
}

#[test]
fn bad_or_missing_key_is_replaced_and_persisted() {
    let fresh = [9u8; 64];
    let k = secret_key_with(Some(&[1, 2, 3]), &fresh);
    assert_eq!(k.key, fresh.to_vec());
    assert!(k.persist);
    let k = secret_key_with(None, &fresh);
    assert_eq!(k.key, fresh.to_vec());
    assert!(k.persist);
}

#[test]
fn persisted_key_reloads_unchanged() {
    let k = secret_key_from(None);
    assert_eq!(k.key.len(), 64);
    assert!(k.persist);
    let again = secret_key_from(Some(&k.key));
    assert_eq!(again.key, k.key);
    assert!(!again.persist);
}

#[test]
fn static_assets_bypass_the_session_check_outside_the_served_folder() {
    assert!(matches!(gate("rdl_static/app.css", true, None, false), Gate::Static));
    assert!(matches!(gate("rdl_static/missing", true, Some("nope"), false), Gate::Static));
    assert!(matches!(gate("docs", true, None, false), Gate::Login));
    assert!(matches!(gate("docs", true, Some("nope"), false), Gate::Login));
    assert!(matches!(gate("docs", true, Some("auth"), false), Gate::Open));
    assert!(matches!(gate("docs", false, None, false), Gate::Open));
}

#[test]
fn paths_that_climb_out_reach_nothing() {
    assert!(climbs_out_of("rdl_static/../USER"));
    assert!(climbs_out_of(".."));
    assert!(climbs_out_of("docs/../../etc"));
    assert!(!climbs_out_of("docs/..hidden/a..b"));
    assert!(!climbs_out_of("rdl_static/./app.css"));
    assert!(matches!(gate("rdl_static/../USER", true, None, false), Gate::NotFound));
    assert!(matches!(gate("rdl_static/../.SECRETKEY", false, None, false), Gate::NotFound));
    assert!(matches!(gate("docs/../../etc", true, Some("auth"), false), Gate::NotFound));
    assert!(matches!(gate("..", false, None, false), Gate::NotFound));
    let p = request_path("/rdl_static/%2e%2e/USER").unwrap();
    assert_eq!(p, "rdl_static/../USER");
    assert!(matches!(gate(&p, true, None, false), Gate::NotFound));
}

#[test]
fn names_beside_the_asset_folder_are_no_assets() {
    assert!(matches!(gate("rdl_static2/secret", true, None, false), Gate::Login));
    assert!(matches!(gate("rdl_static2/secret", true, Some("auth"), false), Gate::Open));
    assert!(matches!(gate("rdl_static", true, None, false), Gate::Static));
}

#[test]
fn served_asset_folder_needs_a_login() {
    assert!(matches!(gate("rdl_static/f", true, None, true), Gate::Login));
    assert!(matches!(gate("rdl_static/f", true, Some("x"), true), Gate::Login));
    assert!(matches!(gate("rdl_static/f", true, Some("auth"), true), Gate::Static));
    assert!(matches!(gate("rdl_static/f", false, None, true), Gate::Static));
    assert!(matches!(gate("", true, None, true), Gate::Login));
}

fn meta(is_file: bool, secs: i64) -> Option<EntryMeta> {
    Some(EntryMeta { is_file, size: 3, modified: Timestamp { secs, nanos: 0 } })
}

#[test]
fn listing_visits_entries_and_readme() {
    let mut cache: MdCache = MdCache::new();
    let mut l = DirListing::new();
    let v = l.visit(&cache, "sub".to_string(), &"root/sub".to_string(), &meta(false, 0));
    assert!(!v.load_readme && !v.fault);
    let v = l.visit(&cache, "gone".to_string(), &"root/gone".to_string(), &None);
    assert!(!v.load_readme && !v.fault);
    let key = "root/README.md".to_string();
    let v = l.visit(&cache, "README.md".to_string(), &key, &meta(true, 10));
    assert!(v.load_readme && !v.fault);
    l.load_readme(&mut cache, key.clone(), Timestamp { secs: 10, nanos: 0 }, b"hello");
    assert_eq!(l.markdown, "hello");
    assert_eq!(l.catalog.dirs.len(), 1);
    assert_eq!(l.catalog.files.len(), 1);

    let mut again = DirListing::new();
    let v = again.visit(&cache, "README.md".to_string(), &key, &meta(true, 10));
    assert!(!v.load_readme);
    assert_eq!(again.markdown, "hello");
    let v = again.visit(&cache, "README.md".to_string(), &key, &meta(true, 11));
    assert!(v.load_readme);
    let v = again.visit(&cache, "README.md".to_string(), &key, &meta(true, 9));
    assert!(v.load_readme);
}

#[test]
fn listing_reports_unrenderable_times() {
    let cache: MdCache = MdCache::new();
    let mut l = DirListing::new();
    let v = l.visit(&cache, "f".to_string(), &"r/f".to_string(), &meta(true, i64::MAX));
    assert!(v.fault);
    assert_eq!(l.catalog.files.len(), 0);
}
