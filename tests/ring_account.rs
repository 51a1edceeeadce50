use name_sniper::account::{status_from_body, Error};
use name_sniper::{Account, AccountData, ClientRing, MinecraftResponse, ProxyData, Status};

fn ring_of(n: u32) -> ClientRing<u32> {
    let mut ring = ClientRing::new();
    for i in 0..n {
        ring.add(i);
    }
    ring
}

#[test]
fn ring_round_robin_three_clients() {
    let mut ring = ring_of(3);
    let mut seen = Vec::new();
    for _ in 0..7 {
        seen.push(*ring.next().unwrap());
    }
    assert_eq!(seen, vec![1, 2, 0, 1, 2, 0, 1]);
    assert_eq!(ring.index(), 1);
}

#[test]
fn ring_evict_keeps_cursor_then_cycles() {
    let mut ring = ring_of(3);
    for _ in 0..7 {
        ring.next();
    }
    ring.evict_current();
    assert_eq!(ring.len(), 2);
    assert_eq!(ring.index(), 1);
    let mut positions = Vec::new();
    let mut clients = Vec::new();
    for _ in 0..4 {
        clients.push(*ring.next().unwrap());
        positions.push(ring.index());
    }
    assert_eq!(positions, vec![0, 1, 0, 1]);
    assert_eq!(clients, vec![0, 2, 0, 2]);
}

#[test]
fn ring_empty_has_no_client() {
    let mut ring: ClientRing<u32> = ClientRing::new();
    assert!(ring.next().is_none());
    ring.evict_current();
    assert!(ring.is_empty());
    let mut one = ring_of(1);
    one.next();
    one.evict_current();
    assert!(one.next().is_none());
}

#[test]
fn ring_evict_past_end_removes_nothing() {
    let mut ring = ring_of(3);
    ring.next();
    ring.next();
    assert_eq!(ring.index(), 2);
    ring.evict_current();
    assert_eq!(ring.len(), 2);
    ring.evict_current();
    assert_eq!(ring.len(), 2);
    assert_eq!(*ring.next().unwrap(), 1);
}

#[test]
fn account_reply_402_evicts_current_client() {
    let mut account: Account<&str> = Account::new("a@b.c".to_string(), "pw".to_string());
    account.add_agent("proxy-a");
    account.add_agent("proxy-b");
    account.add_agent("proxy-c");
    assert_eq!(*account.get_client().unwrap(), "proxy-b");
    assert_eq!(account.handle_reply(Some(402), true), Err(Error::Retry));
    assert_eq!(*account.get_client().unwrap(), "proxy-a");
    assert_eq!(*account.get_client().unwrap(), "proxy-c");
}

#[test]
fn account_reply_429_backs_off() {
    let mut account: Account<u8> = Account::new("u".to_string(), "p".to_string());
    account.add_agent(7);
    assert_eq!(account.handle_reply(Some(429), true), Err(Error::Delay(30)));
    assert_eq!(account.handle_reply(Some(429), false), Err(Error::Delay(120)));
    assert_eq!(*account.get_client().unwrap(), 7);
}

#[test]
fn account_reply_other_codes() {
    let mut account: Account<u8> = Account::new("u".to_string(), "p".to_string());
    account.add_agent(1);
    account.add_agent(2);
    assert_eq!(account.handle_reply(None, true), Err(Error::Retry));
    assert_eq!(account.handle_reply(Some(500), true), Err(Error::Request));
    assert_eq!(account.handle_reply(Some(200), false), Ok(()));
    assert_eq!(*account.get_client().unwrap(), 2);
}

#[test]
fn account_without_client_yields_none() {
    let mut account: Account<u8> = Account::new("user".to_string(), "secret".to_string());
    assert!(account.get_client().is_none());
    assert!(account.get_client_and_credentials().is_none());
    account.add_agent(3);
    let (client, login) = account.get_client_and_credentials().unwrap();
    assert_eq!(*client, 3);
    assert_eq!(login.username, "user");
    assert_eq!(login.password, "secret");
}

#[test]
fn account_token_validity_margin() {
    let mut account: Account<u8> = Account::new("u".to_string(), "p".to_string());
    assert!(!Account::<u8>::is_token_valid_at(account.token(), 0));
    account.set_token(name_sniper::JavaData { token: "Bearer x".to_string(), expires_at: 100_000 });
    assert!(Account::<u8>::is_token_valid_at(account.token(), 69_999));
    assert!(!Account::<u8>::is_token_valid_at(account.token(), 70_000));
    assert!(!Account::<u8>::is_token_valid(account.token()));
}

#[test]
fn body_status_mapping() {
    let body = |s: &str| Some(MinecraftResponse { status: s.to_string() });
    assert_eq!(status_from_body(body("AVAILABLE")), Ok(Status::Available));
    assert_eq!(status_from_body(body("DUPLICATE")), Ok(Status::Taken));
    assert_eq!(status_from_body(body("NOT_ALLOWED")), Ok(Status::Banned));
    assert_eq!(status_from_body(body("SOMETHING")), Ok(Status::Unknown));
    assert_eq!(status_from_body(None), Err(Error::Deserialization));
}

#[test]
fn proxy_basic_auth_needs_both_parts() {
    let with = ProxyData {
        address: "1.2.3.4".to_string(),
        port: 8080,
        username: Some("u".to_string()),
        password: Some("p".to_string()),
    };
    assert_eq!(with.basic_auth(), Some(("u".to_string(), "p".to_string())));
    let half = ProxyData { address: "1.2.3.4".to_string(), port: 8080, username: Some("u".to_string()), password: None };
    assert_eq!(half.basic_auth(), None);
}

#[test]
fn account_data_becomes_account() {
    let data = AccountData { username: "n".to_string(), password: "p".to_string() };
    let mut account: Account<u8> = data.into_account();
    assert_eq!(account.credentials().username, "n");
    assert!(account.token().is_none());
    assert!(account.get_client().is_none());
}
