use app_builder::cert::{CertCache, Lookup, Served};
use app_builder::delivery::{after_notice_send, after_report_send, SendStep};
use app_builder::command::{
    answer_run, authorize_command, combine_output, report_output, count_upload_chunk, parse_flag, plan_command, CommandForm,
    CommandRejection, MAX_UPLOAD_BYTES,
};
use app_builder::settings::{notification_settings, path_is_absolute, NotificationConfig, PersistenceLocation};
use app_builder::socket::{authorize_build_socket, SocketRejection};
use app_builder::strmap::StrMap;
use app_builder::text::trim_str;
use app_builder::utils::{accept_confined, confine_to_base, generate_token, is_path_exits};

#[test]
fn test_dynamic_cert_resolver() {
    let hour = 3_600_000_000_000u64;
    let mut cache: CertCache<String> = CertCache::new();
    assert!(cache.fresh_key(0).is_none());
    // 1. Initial load
    assert!(matches!(cache.confirm(0, 10, 20), Lookup::Reload));
    cache.install("key1".to_string(), 0, 10, 20);
    let key1 = cache.cached_key().expect("Failed to load initially").clone();
    assert_eq!(key1, "key1");
    // 2. Fetching again soon returns the cached key
    assert_eq!(cache.fresh_key(150_000_000).expect("Failed to get cached key"), &key1);
    // 3. Files modified, and more than an hour passed
    let later = 3_610_000_000_000u64;
    assert!(later > hour);
    assert!(cache.fresh_key(later).is_none());
    assert!(matches!(cache.confirm(later, 11, 21), Lookup::Reload));
    // 4. Reloading installs a new key
    cache.install("key3".to_string(), later, 11, 21);
    let key3 = cache.cached_key().expect("Failed to load updated key");
    assert_ne!(key3, &key1);
}

#[test]
fn unchanged_files_confirm_the_cached_key() {
    let mut cache: CertCache<u8> = CertCache::new();
    cache.install(7, 0, 1, 2);
    let t = 5_000_000_000_000u64;
    assert!(cache.fresh_key(t).is_none());
    match cache.confirm(t, 1, 2) {
        Lookup::Cached(k) => assert_eq!(*k, 7),
        Lookup::Reload => panic!("expected the cached key"),
    }
    assert_eq!(cache.fresh_key(t + 1), Some(&7));
    assert_eq!(cache.cached_key(), Some(&7));
}

#[test]
fn command_authorization_order() {
    assert_eq!(authorize_command("", Some("x"), false), Err(CommandRejection::TokenNotConfigured));
    assert_eq!(authorize_command("secret", None, false), Err(CommandRejection::Unauthorized));
    assert_eq!(authorize_command("secret", Some("wrong"), true), Err(CommandRejection::Unauthorized));
    assert_eq!(authorize_command("secret", Some("secret"), true), Err(CommandRejection::BuildInProgress));
    assert_eq!(authorize_command("secret", Some("secret"), false), Ok(()));
    assert_eq!(CommandRejection::Unauthorized.http_status(), 401);
    assert_eq!(CommandRejection::BuildInProgress.http_status(), 409);
    assert_eq!(CommandRejection::MissingScript.http_status(), 400);
    assert_eq!(CommandRejection::MissingCommand.message(), "⚠️ Missing command field");
    assert_eq!(CommandRejection::FileTooLarge.message(), "File size exceeds 400MB limit");
}

#[test]
fn flags_and_upload_limit() {
    assert!(parse_flag(" true\n"));
    assert!(parse_flag("1"));
    assert!(parse_flag("yes"));
    assert!(!parse_flag("TRUE"));
    assert!(!parse_flag("no"));
    assert_eq!(MAX_UPLOAD_BYTES, 400 * 1024 * 1024);
    assert_eq!(count_upload_chunk(0, 10), Some(10));
    assert_eq!(count_upload_chunk(MAX_UPLOAD_BYTES - 1, 1), Some(MAX_UPLOAD_BYTES));
    assert_eq!(count_upload_chunk(MAX_UPLOAD_BYTES, 1), None);
    assert_eq!(count_upload_chunk(5, usize::MAX), None);
}

#[test]
fn command_plan_checks_then_fills_param() {
    let mut setup = StrMap::new();
    setup.insert("deploy".to_string(), "./deploy.sh {param}".to_string());
    let form = |is_file: Option<bool>, file_saved: bool, command: Option<&str>, param: Option<&str>| CommandForm {
        is_file,
        file_saved,
        command: command.map(|s| s.to_string()),
        param: param.map(|s| s.to_string()),
    };
    assert_eq!(plan_command(&form(Some(true), false, Some("deploy"), Some("p")), &setup), Err(CommandRejection::ExpectedFile));
    assert_eq!(plan_command(&form(None, false, None, Some("p")), &setup), Err(CommandRejection::MissingCommand));
    assert_eq!(plan_command(&form(None, false, Some("other"), Some("p")), &setup), Err(CommandRejection::MissingScript));
    assert_eq!(plan_command(&form(Some(true), true, Some("deploy"), Some("prod")), &setup), Ok("./deploy.sh prod".to_string()));
}

#[test]
fn command_output_report() {
    assert_eq!(combine_output(b"out", b""), "stdout:\nout\n");
    assert_eq!(combine_output(b"", b"err"), "stderr:\nerr\n");
    assert_eq!(combine_output(b"a", b"b"), "stdout:\na\nstderr:\nb\n");
    assert_eq!(combine_output(b"", b""), "");
    assert_eq!(combine_output(&[0xff], b""), "stdout:\n\u{fffd}\n");
    assert_eq!(answer_run(true, "r"), "✅ Command executed successfully:\nr");
    assert_eq!(answer_run(false, "r"), "❌ Command execution failed:\nr");
}

#[test]
fn build_socket_admission() {
    assert_eq!(authorize_build_socket(None, Some("t")), Err(SocketRejection::TokenRequired));
    assert_eq!(authorize_build_socket(Some("t"), None), Err(SocketRejection::NoBuildRunning));
    assert_eq!(authorize_build_socket(Some("t"), Some("u")), Err(SocketRejection::InvalidToken));
    assert_eq!(authorize_build_socket(Some("t"), Some("t")), Ok(()));
    assert_eq!(SocketRejection::InvalidToken.message(), "Invalid token");
    assert_eq!(SocketRejection::TokenRequired.message(), "Socket Token is Required");
}

#[test]
fn notification_settings_defaults_and_overrides() {
    let s = notification_settings(&None);
    assert!(s.callback_url.is_none());
    assert!(!s.delete_only_on_success);
    assert_eq!((s.retry_count, s.retry_interval), (3, 60));
    match s.location {
        PersistenceLocation::UnderHome(p) => assert_eq!(p, ".config/app_builder/scheduled_notifications.json"),
        _ => panic!("default path is relative"),
    }
    let c = NotificationConfig {
        callback_url: "http://cb".to_string(),
        persistence_path: Some("/var/lib/notes.json".to_string()),
        delete_only_on_success: true,
        retry_count: 5,
        retry_interval: 7,
    };
    let s = notification_settings(&Some(c));
    assert_eq!(s.callback_url.as_deref(), Some("http://cb"));
    assert!(s.delete_only_on_success);
    assert_eq!((s.retry_count, s.retry_interval), (5, 7));
    assert!(matches!(s.location, PersistenceLocation::Absolute(ref p) if p == "/var/lib/notes.json"));
    assert!(path_is_absolute("/x"));
    assert!(!path_is_absolute("x/y"));
    assert!(!path_is_absolute(""));
}

#[test]
fn tokens_and_paths() {
    let t = generate_token(32);
    assert_eq!(t.chars().count(), 32);
    assert!(t.chars().all(|c| c.is_ascii_alphanumeric()));
    assert_eq!(generate_token(0), "");
    assert!(is_path_exits("/"));
    assert!(!is_path_exits("/definitely/not/here/at/all"));
    assert_eq!(confine_to_base("/srv/app", "/srv/app/out/file.txt"), Some("/srv/app/out/file.txt".to_string()));
    assert_eq!(confine_to_base("/srv/app", "/srv/app"), Some("/srv/app".to_string()));
    assert_eq!(confine_to_base("/srv/app", "/srv/application/file"), None);
    assert_eq!(confine_to_base("/srv/app", "/etc/passwd"), None);
}

#[test]
fn trimming() {
    assert_eq!(trim_str("  a b \t\n"), "a b");
    assert_eq!(trim_str("\u{3000}x\u{a0}"), "x");
    assert_eq!(trim_str(""), "");
}

#[test]
fn report_and_confinement_decisions() {
    assert_eq!(report_output("x", "y"), "stdout:\nx\nstderr:\ny\n");
    assert_eq!(report_output("", ""), "");
    assert_eq!(accept_confined(true, "/a/b"), Some("/a/b".to_string()));
    assert_eq!(accept_confined(false, "/a/b"), None);
    assert_eq!(accept_confined(true, ""), None);
}

#[test]
fn serving_follows_the_lookup_order() {
    let hour = 3_600_000_000_000u64;
    let mut cache: CertCache<String> = CertCache::new();
    // Nothing cached: the times are read and the files loaded.
    let r = cache.serve(0, || (10, 20), || Some("k1".to_string()));
    assert!(matches!(r, Served::Loaded { cert_mtime: 10, key_mtime: 20 }));
    assert_eq!(cache.cached_key().map(|k| k.as_str()), Some("k1"));
    // Fresh: nothing is read or loaded.
    let r = cache.serve(5, || panic!("times read"), || panic!("files loaded"));
    assert!(matches!(r, Served::Fresh));
    // Stale and unchanged: confirmed without loading.
    let r = cache.serve(hour + 1, || (10, 20), || panic!("files loaded"));
    assert!(matches!(r, Served::Confirmed { cert_mtime: 10, key_mtime: 20 }));
    assert_eq!(cache.fresh_key(hour + 2).map(|k| k.as_str()), Some("k1"));
    // Stale and changed, load fails: the old key still serves.
    let r = cache.serve(3 * hour, || (11, 20), || None);
    assert!(matches!(r, Served::LoadFailed { cert_mtime: 11, key_mtime: 20 }));
    assert_eq!(cache.cached_key().map(|k| k.as_str()), Some("k1"));
    // Changed again, load succeeds: the new key serves.
    let r = cache.serve(3 * hour + 1, || (11, 21), || Some("k2".to_string()));
    assert!(matches!(r, Served::Loaded { cert_mtime: 11, key_mtime: 21 }));
    assert_eq!(cache.cached_key().map(|k| k.as_str()), Some("k2"));
}

#[test]
fn failed_first_load_leaves_cache_empty() {
    let mut cache: CertCache<u8> = CertCache::new();
    let r = cache.serve(0, || (0, 0), || None);
    assert!(matches!(r, Served::LoadFailed { .. }));
    assert_eq!(cache.cached_key(), None);
}

#[test]
fn delivery_retries_once() {
    assert_eq!(after_report_send(true, true), SendStep::Done);
    assert_eq!(after_report_send(true, false), SendStep::RetryAfter { secs: 10 });
    assert_eq!(after_report_send(false, true), SendStep::RecordFailed);
    assert_eq!(after_report_send(false, false), SendStep::RecordFailed);
    assert_eq!(after_notice_send(true, true), SendStep::Done);
    assert_eq!(after_notice_send(true, false), SendStep::RetryAfter { secs: 5 });
    assert_eq!(after_notice_send(false, false), SendStep::Done);
}

#[test]
fn malformed_output_still_gets_its_section() {
    assert_eq!(combine_output(&[0xc3], &[0xff, 0xfe]), "stdout:\n\u{fffd}\nstderr:\n\u{fffd}\u{fffd}\n");
}
