use name_sniper::text::join_cookies;
use name_sniper::token::{
    extract_ppft, extract_url_post, parse_pre_auth, plan_java_token, Error, TokenPlan,
};
use name_sniper::{
    Credentials, JavaData, JavaPayload, JavaResponse, LogUserQuery, LogUserResponse,
    RpsTicketPayload, RpsTicketResponse, XstsData, XstsDisplayClaims, XstsPayload, XstsResponse,
    XstsXui,
};

const PAGE: &str = "<script>var x={sFTTag:'<input type=\"hidden\" name=\"PPFT\" id=\"i0327\" value=\"Dabc!def*\"/>',urlPost:'https://login.live.com/ppsecure/post.srf?x=1',y:2}</script>";

fn java(expires_at: i64) -> JavaData {
    JavaData { token: "Bearer t".to_string(), expires_at }
}

fn xsts(expires_at: i64) -> XstsData {
    XstsData { xid: None, hash: "h".to_string(), token: "x".to_string(), expires_at }
}

#[test]
fn token_reuse_within_expiry() {
    let now = 1_000_000;
    match plan_java_token(Some(java(now + 300_000)), None, now) {
        TokenPlan::Cached(j) => assert_eq!(j.expires_at, now + 300_000),
        _ => panic!("expected the cached token"),
    }
    assert!(matches!(plan_java_token(Some(java(now - 1_000)), None, now), TokenPlan::FullChain));
    assert!(matches!(
        plan_java_token(Some(java(now - 1_000)), Some(xsts(now + 300_000)), now),
        TokenPlan::FullChain
    ));
    assert!(matches!(
        plan_java_token(Some(java(now - 1_000)), Some(xsts(now + 300_001)), now),
        TokenPlan::FromXsts(_)
    ));
    assert!(matches!(plan_java_token(None, None, now), TokenPlan::FullChain));
}

#[test]
fn cache_freshness_edges() {
    assert!(java(11).fresh_at(10));
    assert!(!java(10).fresh_at(10));
    assert!(xsts(300_011).fresh_at(10));
    assert!(!xsts(300_010).fresh_at(10));
    assert!(java(30_011).usable_at(10));
    assert!(!java(30_010).usable_at(10));
}

#[test]
fn pre_auth_extracts_ppft_and_url() {
    assert_eq!(extract_ppft(PAGE), Some("Dabc!def*".to_string()));
    assert_eq!(extract_url_post(PAGE), Some("https://login.live.com/ppsecure/post.srf?x=1".to_string()));
    let cookies = vec![
        "MSPRequ=id=N&lt=1; path=/;Secure".to_string(),
        "uaid=abc; domain=login.live.com".to_string(),
        "plain".to_string(),
    ];
    let data = parse_pre_auth(PAGE, &cookies).ok().unwrap();
    assert_eq!(data.cookie, "MSPRequ=id=N&lt=1;uaid=abc;plain");
    assert_eq!(data.ppft, "Dabc!def*");
    assert_eq!(data.url, "https://login.live.com/ppsecure/post.srf?x=1");
}

#[test]
fn pre_auth_missing_values_fail() {
    assert!(matches!(parse_pre_auth("<html></html>", &vec![]), Err(Error::ParseError)));
    let no_url = "sFTTag:'<input value=\"v\"/>'";
    assert_eq!(extract_ppft(no_url), Some("v".to_string()));
    assert!(matches!(parse_pre_auth(no_url, &vec![]), Err(Error::ParseError)));
    let unclosed = "urlPost:'https://x";
    assert_eq!(extract_url_post(unclosed), None);
    assert_eq!(extract_ppft("value=\"v\"/>' sFTTag:'"), None);
}

#[test]
fn pre_auth_keeps_non_ascii_text() {
    let page = "é sFTTag:'value=\"ünï\"/>' urlPost:'https://ö'";
    assert_eq!(extract_ppft(page), Some("ünï".to_string()));
    assert_eq!(extract_url_post(page), Some("https://ö".to_string()));
}

#[test]
fn cookie_join_empty() {
    assert_eq!(join_cookies(&vec![]), "");
    assert_eq!(join_cookies(&vec![";x".to_string()]), "");
}

#[test]
fn request_payloads() {
    let creds = Credentials { username: "me@x.com".to_string(), password: "pw".to_string() };
    let auth = name_sniper::PreAuthData { cookie: "c".to_string(), ppft: "P".to_string(), url: "u".to_string() };
    let q = LogUserQuery::new(&creds, &auth);
    assert_eq!((q.login.as_str(), q.loginfmt.as_str(), q.passwd.as_str(), q.ppft.as_str()), ("me@x.com", "me@x.com", "pw", "P"));
    let rps = RpsTicketPayload::for_ticket(&LogUserResponse { access_token: "T".to_string() });
    assert_eq!(rps.relying_party, "http://auth.xboxlive.com");
    assert_eq!(rps.token_type, "JWT");
    assert_eq!(rps.properties.auth_method, "RPS");
    assert_eq!(rps.properties.site_name, "user.auth.xboxlive.com");
    assert_eq!(rps.properties.rps_ticket, "T");
    let x = XstsPayload::for_user_token(&RpsTicketResponse { token: "U".to_string() });
    assert_eq!(x.relying_party, "rp://api.minecraftservices.com/");
    assert_eq!(x.properties.user_tokens, vec!["U".to_string()]);
    assert_eq!(x.properties.sandbox_id, "RETAIL");
    let j = JavaPayload::for_xsts(&XstsData { xid: None, hash: "uhs1".to_string(), token: "tok".to_string(), expires_at: 0 });
    assert_eq!(j.identity_token, "XBL3.0 x=uhs1;tok");
}

#[test]
fn java_token_from_reply() {
    let r = JavaResponse { access_token: "abc".to_string(), token_type: "Bearer".to_string(), expires_in: 86_400 };
    let d = JavaData::from_response(&r, 1_000);
    assert_eq!(d.token, "Bearer abc");
    assert_eq!(d.expires_at, 86_401_000);
    let late = JavaData::from_response(&r, i64::MAX - 5);
    assert_eq!(late.expires_at, i64::MAX);
}

fn reply(not_after: &str, claims: Vec<XstsXui>) -> XstsResponse {
    XstsResponse {
        display_claims: XstsDisplayClaims { xui: claims },
        not_after: not_after.to_string(),
        token: "xsts-token".to_string(),
    }
}

#[test]
fn xsts_reply_reads_not_after() {
    let ok = reply(
        "2024-01-01T00:00:00.5Z",
        vec![XstsXui { uhs: "1234".to_string(), xid: Some("99".to_string()) }],
    );
    let d = XstsData::from_response(&ok).ok().unwrap();
    assert_eq!(d.expires_at, 1_704_067_200_500);
    assert_eq!(d.hash, "1234");
    assert_eq!(d.xid, Some("99".to_string()));
    assert_eq!(d.token, "xsts-token");
    let offset = reply("2024-01-01T01:00:00+01:00", vec![XstsXui { uhs: "1".to_string(), xid: None }]);
    assert_eq!(XstsData::from_response(&offset).ok().unwrap().expires_at, 1_704_067_200_000);
}

#[test]
fn xsts_reply_errors() {
    let bad_time = reply("tomorrow", vec![XstsXui { uhs: "1".to_string(), xid: None }]);
    assert!(matches!(XstsData::from_response(&bad_time), Err(Error::DeserializationError)));
    let no_claims = reply("2024-01-01T00:00:00Z", vec![]);
    assert!(matches!(XstsData::from_response(&no_claims), Err(Error::DeserializationError)));
    assert!(matches!(XstsData::from_parts(&no_claims, Some(5)), Err(Error::DeserializationError)));
    let claims = reply("x", vec![XstsXui { uhs: "u".to_string(), xid: None }]);
    assert_eq!(XstsData::from_parts(&claims, Some(5)).ok().unwrap().expires_at, 5);
}

#[test]
fn token_validity_reads_the_clock() {
    let far = JavaData { token: "Bearer t".to_string(), expires_at: i64::MAX };
    assert!(name_sniper::Account::<u8>::is_token_valid(Some(&far)));
    let past = JavaData { token: "Bearer t".to_string(), expires_at: 1_600_000_000_000 };
    assert!(!name_sniper::Account::<u8>::is_token_valid(Some(&past)));
}

#[test]
fn status_parses_through_from_str_trait() {
    let s: name_sniper::Status = "NOT_ALLOWED".parse().unwrap();
    assert_eq!(s, name_sniper::Status::Banned);
}
