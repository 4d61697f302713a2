use coconutpak::island_rules::{
    api_key_text, api_pak_by_name_key, api_yank, cache_timeout, check_version_tag, decimal_text, download_path,
    download_source, download_without_login, filter_reports, matching_versions, motd, new_report, pak_by_id_key,
    pak_id_by_name_key, pak_or_not_found, pak_versions_key, pick_version, publish_not_offered,
    reports_for_version, require_administrator, secret_kind, secret_text, select_pak_version,
    session_token_text, source_not_offered, user_published_key, user_subscriptions_key, with_yanked, ApiError,
    PakRecord, PakVersionRecord, ReportRecord, Scopes, SecretKind, ServerError, UserRecord,
    API_KEY_PREFIX_NO_DASH, TOKEN_PREFIX_NO_DASH, SESSION_LIFETIME_MS, session_expiry, session_is_live,
    pak_found_by_name, oauth_redirect_url, oauth_scopes, lookup_pak_version, user_subscriptions_read_key,
    pak_or_missing, version_or_missing, API_PAK_CACHE_SECONDS, PUBLISHED_CACHE_SECONDS,
    SUBSCRIPTIONS_REFRESH_SECONDS, SUBSCRIPTIONS_STORE_SECONDS, VERSIONS_CACHE_SECONDS,
};

fn version(id: u64, v: &str, yanked: bool) -> PakVersionRecord {
    PakVersionRecord { id, coconutpak: 7, version: v.to_string(), yanked }
}

fn report(reporter: u64, v: &str, reason: &str) -> ReportRecord {
    ReportRecord { reporter, target_pak: 7, date: 1000, reason: reason.to_string(), version: v.to_string() }
}

fn pak(owner: u64) -> PakRecord {
    PakRecord { id: 7, name: "greetings".to_string(), owner, subscribers: 0, verified: false }
}

fn user(uuid: u64, admin: bool) -> UserRecord {
    UserRecord {
        uuid,
        github_id: 1,
        username: "u".to_string(),
        restricted_account: false,
        administrator_account: admin,
        fake_account: false,
        email: None,
    }
}

fn api_error_text(e: &ApiError) -> (&'static str, String) {
    match e {
        ApiError::NotFound(m) => ("not found", m.clone()),
        ApiError::Forbidden(m) => ("forbidden", m.clone()),
        ApiError::BadRequest(m) => ("bad request", m.clone()),
        ApiError::InternalServerError(m) => ("internal", m.clone()),
        ApiError::NotImplemented(m) => ("not implemented", m.clone()),
    }
}

#[test]
fn numbers_are_written_in_decimal() {
    for n in [0u64, 7, 10, 99, 100, 12345, u64::MAX] {
        assert_eq!(decimal_text(n), n.to_string());
    }
}

#[test]
fn version_tags_must_be_semantic_versions() {
    assert!(check_version_tag("1.2.3").is_ok());
    assert!(check_version_tag("0.1.0-beta.1").is_ok());
    match check_version_tag("1.2") {
        Err(ServerError::BadArgument { argument, why }) => {
            assert_eq!(argument, "version");
            assert!(!why.is_empty());
        }
        _ => panic!("1.2 is no semantic version"),
    }
    assert!(check_version_tag("").is_err());
}

#[test]
fn the_last_version_of_a_text_is_picked() {
    let vs = vec![version(1, "1.0.0", false), version(2, "1.1.0", false), version(3, "1.0.0", true)];
    let picked = pick_version(vs, "1.0.0").unwrap();
    assert_eq!(picked.id, 3);
    assert!(picked.yanked);
    assert!(pick_version(vec![version(1, "1.0.0", false)], "2.0.0").is_none());
    assert!(pick_version(vec![], "1.0.0").is_none());
}

#[test]
fn a_missing_version_is_not_found() {
    let vs = vec![version(1, "1.0.0", false)];
    assert_eq!(select_pak_version(7, "1.0.0", vs).map(|v| v.id).ok(), Some(1));
    match select_pak_version(42, "2.0.0", vec![version(1, "1.0.0", false)]) {
        Err(ServerError::NotFound { what, detail }) => {
            assert_eq!(what, "42@2.0.0");
            assert_eq!(detail, "None");
        }
        _ => panic!("expected not found"),
    }
    assert_eq!(pak_or_not_found(3, Some(pak(1))).map(|p| p.owner).ok(), Some(1));
    match pak_or_not_found(305, None) {
        Err(ServerError::NotFound { what, detail }) => {
            assert_eq!(what, "305");
            assert_eq!(detail, "None");
        }
        _ => panic!("expected not found"),
    }
}

#[test]
fn reports_are_filtered_by_reporter_and_version() {
    let rs = || vec![report(1, "1.0.0", "a"), report(2, "1.0.0", "b"), report(1, "2.0.0", "c")];
    let reasons = |r: Result<Vec<ReportRecord>, ServerError>| -> Vec<String> {
        match r {
            Ok(v) => v.into_iter().map(|x| x.reason).collect(),
            Err(_) => panic!("filter failed"),
        }
    };
    assert_eq!(reasons(filter_reports(rs(), None, None)), vec!["a", "b", "c"]);
    assert_eq!(reasons(filter_reports(rs(), Some(1), None)), vec!["a", "c"]);
    assert_eq!(reasons(filter_reports(rs(), None, Some("1.0.0".to_string()))), vec!["a", "b"]);
    assert_eq!(reasons(filter_reports(rs(), Some(1), Some("2.0.0".to_string()))), vec!["c"]);
    assert!(reasons(filter_reports(rs(), Some(9), None)).is_empty());
    match filter_reports(rs(), None, Some("one".to_string())) {
        Err(ServerError::Message(m)) => assert_eq!(m, "Invalid Version Tag"),
        _ => panic!("expected an invalid version tag"),
    }
}

#[test]
fn a_new_report_targets_the_versions_pak() {
    let r = new_report(5, &version(1, "1.0.0", false), "1.0.0".to_string(), "spam".to_string(), 99);
    assert_eq!(r.reporter, 5);
    assert_eq!(r.target_pak, 7);
    assert_eq!(r.date, 99);
    assert_eq!(r.reason, "spam");
    assert_eq!(r.version, "1.0.0");
    let v = with_yanked(version(1, "1.0.0", false), true);
    assert!(v.yanked);
    assert_eq!(v.version, "1.0.0");
    assert!(!with_yanked(v, false).yanked);
}

#[test]
fn secrets_are_written_in_base64() {
    assert_eq!(API_KEY_PREFIX_NO_DASH, "A");
    assert_eq!(TOKEN_PREFIX_NO_DASH, "S");
    assert_eq!(secret_text(&[1, 2, 3], "A", &[0xff], &[]), "AQID.A./w==:");
    assert_eq!(api_key_text(b"hi", b"salt", b"sig"), "aGk=.A.c2FsdA==:c2ln");
    assert_eq!(session_token_text(b"hi", b"salt", b"sig"), "aGk=.S.c2FsdA==:c2ln");
    assert_eq!(secret_kind("A"), Some(SecretKind::ApiKey));
    assert_eq!(secret_kind("S"), Some(SecretKind::Session));
    assert_eq!(secret_kind("a"), None);
    assert_eq!(secret_kind(""), None);
}

#[test]
fn cache_keys_are_prefixed() {
    assert_eq!(pak_id_by_name_key("greetings"), "cpk:name2id:greetings");
    assert_eq!(pak_by_id_key(12), "cpk:byid:12");
    assert_eq!(pak_versions_key(0), "cpk:vers:0");
    assert_eq!(user_subscriptions_key(345), "cpk:uspk:345");
    assert_eq!(user_published_key(6), "cpk:uppk:6");
    assert_eq!(api_pak_by_name_key("greetings"), "coconutpak:paks:greetings");
    assert_eq!(cache_timeout(None), 360);
    assert_eq!(cache_timeout(Some(5)), 5);
}

#[test]
fn versions_with_a_text_are_kept_in_order() {
    let vs = vec![version(1, "1.0.0", false), version(2, "1.1.0", false), version(3, "1.0.0", true)];
    let ids: Vec<u64> = matching_versions(&vs, "1.0.0").iter().map(|v| v.id).collect();
    assert_eq!(ids, vec![1, 3]);
    assert!(matching_versions(&vs, "9.9.9").is_empty());
}

#[test]
fn only_an_administrating_owner_yanks_one_version() {
    let vs = vec![version(1, "1.0.0", false), version(2, "1.1.0", false)];
    let y = api_yank(&pak(4), &user(4, true), "1.1.0", &vs).map_err(|e| api_error_text(&e)).unwrap();
    assert_eq!(y.id, 2);
    assert!(y.yanked);
    let forbidden = ("forbidden", "You do not own this CoconutPak.".to_string());
    assert_eq!(api_yank(&pak(4), &user(5, true), "1.1.0", &vs).err().map(|e| api_error_text(&e)), Some(forbidden.clone()));
    assert_eq!(api_yank(&pak(4), &user(4, false), "1.1.0", &vs).err().map(|e| api_error_text(&e)), Some(forbidden));
    assert_eq!(
        api_yank(&pak(4), &user(4, true), "2.0.0", &vs).err().map(|e| api_error_text(&e)),
        Some(("not found", "CoconutPak Not Found.".to_string()))
    );
    let twice = vec![version(1, "1.0.0", false), version(2, "1.0.0", false)];
    assert_eq!(
        api_yank(&pak(4), &user(4, true), "1.0.0", &twice).err().map(|e| api_error_text(&e)),
        Some(("internal", "Too many CoconutPaks!".to_string()))
    );
    assert!(matches!(api_yank(&pak(4), &user(4, true), "x", &vs), Err(ApiError::InternalServerError(_))));
}

#[test]
fn reports_are_listed_for_administrators() {
    assert!(require_administrator(&user(1, true)).is_ok());
    assert_eq!(
        require_administrator(&user(1, false)).err().map(|e| api_error_text(&e)),
        Some(("forbidden", "You need to be an administrator to do that.".to_string()))
    );
    let rs = || vec![report(1, "1.0.0", "a"), report(2, "2.0.0", "b")];
    assert_eq!(reports_for_version("*", rs()).map(|v| v.len()).ok(), Some(2));
    let one = reports_for_version("2.0.0", rs()).ok().unwrap();
    assert_eq!(one.len(), 1);
    assert_eq!(one[0].reason, "b");
    assert!(matches!(reports_for_version("two", rs()), Err(ApiError::BadRequest(_))));
}

#[test]
fn downloads_come_from_the_compile_directory() {
    assert_eq!(download_path("compile/", "greetings", "1.0.0"), "compile/greetings/1.0.0/greetings.cpak");
    let vs = vec![version(1, "1.0.0", false), version(2, "2.0.0", true)];
    assert_eq!(
        download_source("compile/", "greetings", "1.0.0", &vs).ok(),
        Some("compile/greetings/1.0.0/greetings.cpak".to_string())
    );
    let not_found = Some(("not found", "Pak Not Found.".to_string()));
    assert_eq!(download_source("compile/", "greetings", "2.0.0", &vs).err().map(|e| api_error_text(&e)), not_found);
    assert_eq!(
        download_source("compile/", "greetings", "3.0.0", &vs).err().map(|e| api_error_text(&e)),
        Some(("not found", "Pak Not Found.".to_string()))
    );
    assert_eq!(
        api_error_text(&download_without_login()),
        ("forbidden", "You need to be logged in to do that.".to_string())
    );
    assert_eq!(api_error_text(&source_not_offered()), ("not implemented", "Sorry!".to_string()));
    assert_eq!(api_error_text(&publish_not_offered()), ("not implemented", "lol".to_string()));
}

#[test]
fn the_message_of_the_day_says_hi() {
    let m = motd();
    assert_eq!(m.color, "red");
    assert_eq!(m.text, "hi");
    assert!(!m.has_button);
    assert!(m.button_label.is_none());
    assert!(m.button_link.is_none());
}

#[test]
fn the_administrator_scope_grants_everything() {
    assert_eq!(Scopes::all().len(), 6);
    assert_eq!(Scopes::admin(), Scopes::Admin);
    assert!(Scopes::Admin.has_permission(&[]));
    assert!(Scopes::Yank.has_permission(&[Scopes::Report, Scopes::Yank]));
    assert!(!Scopes::Yank.has_permission(&[Scopes::Report, Scopes::Download]));
    assert!(!Scopes::Publish.has_permission(&[Scopes::Admin]));
    assert!(!Scopes::Download.has_permission(&[]));
}

#[test]
fn sessions_last_sixty_nine_days() {
    assert_eq!(SESSION_LIFETIME_MS, 69 * 24 * 60 * 60 * 1000);
    let created = 1_650_000_000_000i64;
    let expire = session_expiry(created);
    assert_eq!(expire, created + 5_961_600_000);
    assert!(session_is_live(expire, created));
    assert!(session_is_live(expire, expire - 1));
    assert!(!session_is_live(expire, expire));
    assert!(!session_is_live(expire, expire + 1));
}

#[test]
fn api_lookups_by_name_report_a_missing_pak() {
    assert_eq!(pak_found_by_name(Some(pak(3))).map(|p| p.owner).ok(), Some(3));
    assert_eq!(
        pak_found_by_name(None).err().map(|e| api_error_text(&e)),
        Some(("not found", "Pak Not Found".to_string()))
    );
}

#[test]
fn logins_come_back_to_the_redirect_path() {
    assert_eq!(oauth_redirect_url("https://island.example"), "https://island.example/redirect");
    assert_eq!(oauth_scopes(), vec!["public_read".to_string(), "email_read".to_string()]);
}

#[test]
fn the_store_layer_refuses_bad_version_tags() {
    let vs = || vec![version(1, "1.0.0", false), version(2, "1.0.0", true)];
    match lookup_pak_version("one", vs()) {
        Err(ServerError::Message(m)) => assert_eq!(m, "Invalid Version Tag"),
        _ => panic!("expected an invalid version tag"),
    }
    assert_eq!(lookup_pak_version("1.0.0", vs()).ok().flatten().map(|v| v.id), Some(2));
    assert!(matches!(lookup_pak_version("2.0.0", vs()), Ok(None)));
}

#[test]
fn subscriptions_are_read_under_a_key_without_the_colon() {
    assert_eq!(user_subscriptions_read_key(345), "cpk:uspk345");
    assert_eq!(user_subscriptions_key(345), "cpk:uspk:345");
}

#[test]
fn missing_paks_and_versions_are_named() {
    assert_eq!(pak_or_missing(4, Some(pak(9))).map(|p| p.owner).ok(), Some(9));
    match pak_or_missing(42, None) {
        Err(ServerError::Message(m)) => assert_eq!(m, "CoconutPak with ID 42 does not exist."),
        _ => panic!("expected a missing pak"),
    }
    assert_eq!(version_or_missing(4, "1.0.0", Some(version(3, "1.0.0", false))).map(|v| v.id).ok(), Some(3));
    match version_or_missing(42, "1.2.3", None) {
        Err(ServerError::Message(m)) => assert_eq!(m, "CoconutPak with ID 42 and version 1.2.3 does not exist."),
        _ => panic!("expected a missing version"),
    }
}

#[test]
fn cache_lifetimes_are_as_the_server_sets_them() {
    assert_eq!(VERSIONS_CACHE_SECONDS, 60);
    assert_eq!(SUBSCRIPTIONS_REFRESH_SECONDS, 10);
    assert_eq!(SUBSCRIPTIONS_STORE_SECONDS, 20);
    assert_eq!(PUBLISHED_CACHE_SECONDS, 20);
    assert_eq!(API_PAK_CACHE_SECONDS, 3600);
}

#[test]
fn base64_pads_to_four_characters() {
    assert_eq!(secret_text(&[], "A", &[1, 2], &[1, 2, 3, 4]), ".A.AQI=:AQIDBA==");
    assert_eq!(secret_text(b"hello world~", "S", b"", b"Man"), "aGVsbG8gd29ybGR+.S.:TWFu");
}
