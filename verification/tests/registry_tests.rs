use assoc_guard::hash::compute_user_choice_hash;
use assoc_guard::registry::clamp_filetime_to_minute;
use assoc_guard::registry::filetime_to_regdate_hex;
use assoc_guard::registry::normalize_ext;
use assoc_guard::registry::normalize_ext_for_store;
use assoc_guard::registry::pick_progid_by_hint;
use assoc_guard::registry::run_commit_protocol;
use assoc_guard::registry::user_choice_subkey;
use assoc_guard::registry::CommitOutcome;
use assoc_guard::registry::CommitSession;
use assoc_guard::registry::FileTime;
use assoc_guard::registry::ReadUserChoiceError;
use assoc_guard::registry::SetUserChoiceError;

#[test]
fn normalize_ext_accepts_dot_prefixed() {
    assert_eq!(normalize_ext(".mp4").unwrap(), ".mp4");
}

#[test]
fn normalize_ext_accepts_without_dot() {
    assert_eq!(normalize_ext("mp4").unwrap(), ".mp4");
}

#[test]
fn normalize_ext_trims_whitespace() {
    assert_eq!(normalize_ext("  .mkv  ").unwrap(), ".mkv");
}

#[test]
fn normalize_ext_rejects_empty() {
    assert!(matches!(normalize_ext(""), Err(ReadUserChoiceError::InvalidExt)));
    assert!(matches!(normalize_ext("   "), Err(ReadUserChoiceError::InvalidExt)));
    assert!(matches!(normalize_ext("."), Err(ReadUserChoiceError::InvalidExt)));
}

#[test]
fn normalize_ext_rejects_path_separators() {
    assert!(matches!(normalize_ext(".mp4\\x"), Err(ReadUserChoiceError::InvalidExt)));
    assert!(matches!(normalize_ext("mp4/x"), Err(ReadUserChoiceError::InvalidExt)));
}

#[test]
fn normalize_ext_for_store_agrees() {
    assert_eq!(normalize_ext_for_store("  .Mp4  ").unwrap(), ".Mp4");
    assert_eq!(normalize_ext_for_store(".").unwrap_err(), "invalid extension");
}

#[test]
fn clamp_filetime_to_minute_is_multiple_of_minute() {
    let minute = 600_000_000u64;
    let ft = 123456789012345678u64;
    let clamped = clamp_filetime_to_minute(ft);
    assert_eq!(clamped % minute, 0);
    assert!(clamped <= ft);
}

#[test]
fn clamp_filetime_is_idempotent() {
    let ft = 987654321987654321u64;
    let once = clamp_filetime_to_minute(ft);
    assert_eq!(clamp_filetime_to_minute(once), once);
}

#[test]
fn filetime_hex_is_lowercase_16_chars() {
    assert_eq!(filetime_to_regdate_hex(0), "0000000000000000");
    assert_eq!(filetime_to_regdate_hex(0x1), "0000000000000001");
    assert_eq!(filetime_to_regdate_hex(0xabcdef), "0000000000abcdef");
}

#[test]
fn filetime_hex_max_value() {
    assert_eq!(filetime_to_regdate_hex(u64::MAX), "ffffffffffffffff");
}

#[test]
fn filetime_as_u64_joins_halves() {
    let ft = FileTime { low_date_time: 0x67246000, high_date_time: 0x01d4d982 };
    assert_eq!(ft.as_u64(), 0x01d4d98267246000);
}

#[test]
fn commit_rejects_invalid_ext() {
    let r = CommitSession::begin("", "VLC.mp4", "S-1-5-21-1-2-3-1000".to_string(), None);
    assert!(matches!(r, Err(SetUserChoiceError::InvalidExt)));
}

#[test]
fn commit_rejects_empty_prog_id() {
    let r = CommitSession::begin(".mp4", "   ", "S-1-5-21-1-2-3-1000".to_string(), None);
    assert!(matches!(r, Err(SetUserChoiceError::ProgIdEmpty)));
}

#[test]
fn commit_rejects_newer_scheme() {
    let r = CommitSession::begin(".mp4", "VLC.mp4", "S-1-5-21-1-2-3-1000".to_string(), Some(7));
    assert!(matches!(r, Err(SetUserChoiceError::UserChoiceLatestEnabled { hash_version: 7 })));
}

#[test]
fn commit_accepts_zero_hash_version() {
    let r = CommitSession::begin(".mp4", "VLC.mp4", "S-1-5-21-1-2-3-1000".to_string(), Some(0));
    assert!(r.is_ok());
}

#[test]
fn commit_succeeds_on_attempt_k() {
    let sid = "S-1-5-21-463486358-3398762107-1964875780-1001";
    let session = CommitSession::begin(".mp4", "PotPlayer.mp4", sid.to_string(), None).unwrap();
    let minute = 600_000_000u64;
    // the first two rounds see the timestamp move to the next minute; the
    // third round is stable within one minute
    let timestamps = vec![(0u64, minute), (0u64, minute), (5u64, 7u64), (0u64, 0u64), (0u64, 0u64)];
    let r = run_commit_protocol(&session, &timestamps).unwrap();
    assert_eq!(r.attempts, 3);
    assert_eq!(r.ext, ".mp4");
    assert_eq!(r.prog_id, "PotPlayer.mp4");
    assert_eq!(r.regdate_hex, "0000000000000000");
    assert_eq!(r.hash, compute_user_choice_hash(".mp4", sid, "PotPlayer.mp4", "0000000000000000"));
}

#[test]
fn commit_exhausts_after_five_attempts() {
    let session =
        CommitSession::begin(".mp4", "VLC.mp4", "S-1-5-21-1-2-3-1000".to_string(), None).unwrap();
    let minute = 600_000_000u64;
    let timestamps = vec![
        (0u64, minute),
        (0u64, minute),
        (0u64, minute),
        (0u64, minute),
        (0u64, minute),
        (0u64, 0u64),
    ];
    let e = run_commit_protocol(&session, &timestamps).unwrap_err();
    match e {
        SetUserChoiceError::WindowsApiError { api, code } => {
            assert_eq!(api, "set_user_choice(retry_exhausted)");
            assert_eq!(code, 0);
        },
        other => panic!("unexpected error: {:?}", other),
    }
}

#[test]
fn commit_session_counts_attempts_stepwise() {
    let sid = "S-1-5-21-1-2-3-1000";
    let mut session =
        CommitSession::begin(".txt", "txtfile", sid.to_string(), None).unwrap();
    let minute = 600_000_000u64;
    let (prog_id, hash) = session.on_key_timestamp(3);
    assert_eq!(prog_id, "txtfile");
    assert_eq!(hash, compute_user_choice_hash(".txt", sid, "txtfile", "0000000000000000"));
    assert!(matches!(session.on_post_write_timestamp(minute), CommitOutcome::Retry));
    let _ = session.on_key_timestamp(minute + 1);
    match session.on_post_write_timestamp(minute + 2) {
        CommitOutcome::Accepted(res) => {
            assert_eq!(res.attempts, 2);
            assert_eq!(res.regdate_hex, filetime_to_regdate_hex(minute));
        },
        other => panic!("unexpected outcome: {:?}", other),
    }
}

#[test]
fn user_choice_subkey_shape() {
    assert_eq!(
        user_choice_subkey(".mp4"),
        "Software\\Microsoft\\Windows\\CurrentVersion\\Explorer\\FileExts\\.mp4\\UserChoice"
    );
}

#[test]
fn pick_progid_matches_hint_case_insensitively() {
    let progids = vec!["WMP11.AssocFile.MP4".to_string(), "VLC.mp4".to_string()];
    let r = pick_progid_by_hint(".mp4", " VLC ", &progids).unwrap();
    assert_eq!(r, "VLC.mp4");
}

#[test]
fn pick_progid_takes_first_match() {
    let progids = vec!["PotPlayerMini64.mp4".to_string(), "PotPlayer.mp4".to_string()];
    let r = pick_progid_by_hint(".mp4", "potplayer", &progids).unwrap();
    assert_eq!(r, "PotPlayerMini64.mp4");
}

#[test]
fn pick_progid_rejects_empty_hint() {
    let progids = vec!["VLC.mp4".to_string()];
    assert!(pick_progid_by_hint(".mp4", "   ", &progids).is_err());
}

#[test]
fn pick_progid_reports_no_match() {
    let progids = vec!["VLC.mp4".to_string()];
    assert!(pick_progid_by_hint(".mp4", "potplayer", &progids).is_err());
}

#[test]
fn error_messages_carry_context() {
    let e = SetUserChoiceError::UserChoiceLatestEnabled { hash_version: 1 };
    let m = e.message();
    assert!(m.starts_with("UserChoiceLatest is enabled (HashVersion=1)"));
    let e = SetUserChoiceError::WindowsApiError { api: "RegCreateKeyExW".to_string(), code: 5 };
    assert_eq!(e.message(), "RegCreateKeyExW failed with 5");
    let e = ReadUserChoiceError::InvalidExt;
    assert_eq!(e.message(), "invalid extension");
}
