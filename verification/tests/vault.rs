use auth2_core::bridge::TokenAlg;
use auth2_core::config::{Config, KeyStore};
use auth2_core::db::tokens::{self, Token, TokenData, TokenListItem};
use auth2_core::db::MemoryDb;
use auth2_core::enc::decrypt_secret;
use auth2_core::error::Error;
use auth2_core::{generate, new_token, token_from_url, Auth2};

struct FixedKey(Option<String>);

impl KeyStore for FixedKey {
    fn get(&self) -> Option<String> {
        self.0.clone()
    }
}

fn vault(key: Option<&str>) -> Auth2<FixedKey> {
    Auth2::new(Config {
        database_url: "sqlite://vault.db".into(),
        key_store: FixedKey(key.map(|k| k.to_string())),
    })
}

const SEED_BASE32: &str = "GEZDGNBVGY3TQOJQGEZDGNBVGY3TQOJQ";

#[test]
fn add_token_fills_in_defaults() {
    let data = vault(Some("key"))
        .add_token("me".into(), None, SEED_BASE32.into(), None, None, None)
        .unwrap();
    assert_eq!(data.account, "me");
    assert_eq!(data.service, None);
    assert_eq!(data.algorithm, tokens::TokenAlg::Sha1);
    assert_eq!(data.digits, 6);
    assert_eq!(data.period, 30);
    assert_ne!(data.secret, SEED_BASE32);
    assert_eq!(decrypt_secret("key".into(), data.secret).unwrap(), SEED_BASE32);
}

#[test]
fn add_token_keeps_what_was_chosen() {
    let data = vault(Some("key"))
        .add_token(
            "me".into(),
            Some("GitHub".into()),
            "anything at all".into(),
            Some(TokenAlg::Sha512),
            Some(0),
            Some(0),
        )
        .unwrap();
    assert_eq!(data.service.as_deref(), Some("GitHub"));
    assert_eq!(data.algorithm, tokens::TokenAlg::Sha512);
    assert_eq!(data.digits, 0);
    assert_eq!(data.period, 0);
    assert_eq!(decrypt_secret("key".into(), data.secret).unwrap(), "anything at all");
}

#[test]
fn add_token_without_a_key_fails() {
    let res = vault(None).add_token("me".into(), None, SEED_BASE32.into(), None, None, None);
    match res {
        Err(Error::InternalError(text)) => assert_eq!(text, "no user key found"),
        other => panic!("unexpected result: {:?}", other),
    }
    let res = new_token(None, "me".into(), None, SEED_BASE32.into(), None, None, None);
    assert!(matches!(res, Err(Error::InternalError(_))));
}

#[test]
fn add_token_from_url_takes_the_url_apart() {
    let url = format!(
        "otpauth://totp/GitHub:me?secret={}&issuer=GitHub&algorithm=SHA256&digits=8&period=60",
        SEED_BASE32
    );
    let data = vault(Some("key")).add_token_from_url(url).unwrap();
    assert_eq!(data.account, "me");
    assert_eq!(data.service.as_deref(), Some("GitHub"));
    assert_eq!(data.algorithm, tokens::TokenAlg::Sha256);
    assert_eq!(data.digits, 8);
    assert_eq!(data.period, 60);
    assert_eq!(decrypt_secret("key".into(), data.secret).unwrap(), SEED_BASE32);
}

#[test]
fn add_token_from_url_cuts_wide_numbers() {
    let url = format!("otpauth://totp/me?secret={}&digits=262&period=4294967326", SEED_BASE32);
    let data = token_from_url(Some("key".into()), url).unwrap();
    assert_eq!(data.digits, 6);
    assert_eq!(data.period, 30);
}

#[test]
fn add_token_from_url_fails_on_bad_input() {
    let res = vault(Some("key")).add_token_from_url("https://example.com".into());
    assert!(matches!(res, Err(Error::InternalError(_))));
    let res = vault(Some("key")).add_token_from_url("otpauth://totp/me".into());
    assert!(matches!(res, Err(Error::InternalError(_))));
    let url = format!("otpauth://totp/me?secret={}", SEED_BASE32);
    let res = vault(None).add_token_from_url(url);
    match res {
        Err(Error::InternalError(text)) => assert_eq!(text, "no user key found"),
        other => panic!("unexpected result: {:?}", other),
    }
}

#[test]
fn generate_current_gives_the_reference_code() {
    let vault = vault(Some("key"));
    let data = vault
        .add_token("me".into(), None, SEED_BASE32.into(), None, Some(8), None)
        .unwrap();
    let result = vault.generate_current(Some(Token { id: 1, data }), 59).unwrap();
    assert_eq!(result.current, "94287082");
    assert_eq!(result.expires, 1);
}

#[test]
fn generate_current_from_a_url() {
    let vault = vault(Some("key"));
    let url = "otpauth://totp/me?secret=GEZDGNBVGY3TQOJQGEZDGNBVGY3TQOJQGEZDGNBVGY3TQOJQGEZA&algorithm=SHA256&digits=8";
    let data = vault.add_token_from_url(url.into()).unwrap();
    let result = vault.generate_current(Some(Token { id: 1, data }), 1111111109).unwrap();
    assert_eq!(result.current, "68084774");
    assert_eq!(result.expires, 30 - (1111111109 % 30) as u32);
}

#[test]
fn generate_current_without_entry_or_key() {
    let res = vault(Some("key")).generate_current(None, 59);
    match res {
        Err(Error::InternalError(text)) => assert_eq!(text, "no entry found"),
        other => panic!("unexpected result: {:?}", other),
    }
    let data = vault(Some("key"))
        .add_token("me".into(), None, SEED_BASE32.into(), None, None, None)
        .unwrap();
    let res = vault(None).generate_current(Some(Token { id: 1, data }), 59);
    match res {
        Err(Error::InternalError(text)) => assert_eq!(text, "no user key found"),
        other => panic!("unexpected result: {:?}", other),
    }
}

#[test]
fn generate_with_another_key_is_a_decrypt_error() {
    let data = vault(Some("key"))
        .add_token("me".into(), None, SEED_BASE32.into(), None, None, None)
        .unwrap();
    let res = vault(Some("rotated")).generate_current(Some(Token { id: 1, data }), 59);
    assert!(matches!(res, Err(Error::DecryptError)));
}

#[test]
fn generate_on_broken_records() {
    let sealed = |secret: &str| {
        new_token(Some("key".into()), "me".into(), None, secret.into(), None, None, None).unwrap()
    };
    let not_base32 = sealed("not base32 !");
    let res = generate(Token { id: 1, data: not_base32 }, Some("key".into()), 59);
    assert!(matches!(res, Err(Error::InternalError(_))));

    let mut zero_period = sealed(SEED_BASE32);
    zero_period.period = 0;
    let res = generate(Token { id: 1, data: zero_period }, Some("key".into()), 59);
    assert!(matches!(res, Err(Error::InternalError(_))));

    let plain = TokenData { secret: SEED_BASE32.into(), ..Default::default() };
    let res = generate(Token { id: 1, data: plain }, Some("key".into()), 59);
    assert!(matches!(res, Err(Error::InternalError(_)) | Err(Error::DecryptError)));

    let garbage = TokenData { secret: "***".into(), ..Default::default() };
    let res = generate(Token { id: 1, data: garbage }, Some("key".into()), 59);
    assert!(matches!(res, Err(Error::InternalError(_))));
}

#[test]
fn token_added_needs_the_record() {
    let token = Token { id: 5, data: TokenData { account: "me".into(), ..Default::default() } };
    let detail = Auth2::<FixedKey>::token_added(Some(token)).unwrap();
    assert_eq!(detail.id, 5);
    assert_eq!(detail.account, "me");
    assert_eq!(detail.algorithm, TokenAlg::Sha1);
    assert_eq!(detail.digits, 6);
    assert_eq!(detail.period, 30);
    let res = Auth2::<FixedKey>::token_added(None);
    match res {
        Err(Error::InternalError(text)) => assert_eq!(text, "token not found"),
        other => panic!("unexpected result: {:?}", other),
    }
}

#[test]
fn token_detail_of_an_unknown_id_is_absent() {
    assert!(Auth2::<FixedKey>::token_detail(None).is_none());
    let token = Token { id: 5, data: TokenData { account: "me".into(), ..Default::default() } };
    let detail = Auth2::<FixedKey>::token_detail(Some(token)).unwrap();
    assert_eq!(detail.id, 5);
    assert_eq!(detail.account, "me");
}

#[test]
fn list_tokens_keeps_the_order() {
    let items = vec![
        TokenListItem { id: 1, account: "a".into(), service: None },
        TokenListItem { id: 2, account: "b".into(), service: Some("s".into()) },
        TokenListItem { id: 3, account: "c".into(), service: None },
    ];
    let shown = Auth2::<FixedKey>::list_tokens(items);
    assert_eq!(shown.len(), 3);
    assert_eq!(shown[0].id, 1);
    assert_eq!(shown[0].account, "a");
    assert_eq!(shown[1].id, 2);
    assert_eq!(shown[1].service.as_deref(), Some("s"));
    assert_eq!(shown[2].id, 3);
    assert!(Auth2::<FixedKey>::list_tokens(Vec::new()).is_empty());
}

#[test]
fn vault_over_a_store() {
    let vault = vault(Some("key"));
    let mut db = MemoryDb::new(Vec::new());

    let data = vault
        .add_token("me".into(), Some("svc".into()), SEED_BASE32.into(), None, Some(8), None)
        .unwrap();
    let id = db.add_token(42, data).unwrap();
    let detail = Auth2::<FixedKey>::token_added(db.token_detail(id).unwrap()).unwrap();
    assert_eq!(detail.id, 42);
    assert_eq!(detail.account, "me");

    let shown = Auth2::<FixedKey>::list_tokens(db.list_tokens().unwrap());
    assert_eq!(shown.len(), 1);
    assert_eq!(shown[0].id, 42);

    let result = vault.generate_current(db.token_detail(id).unwrap(), 59).unwrap();
    assert_eq!(result.current, "94287082");

    db.remove_token(id).unwrap();
    assert!(Auth2::<FixedKey>::token_detail(db.token_detail(id).unwrap()).is_none());
    let res = vault.generate_current(db.token_detail(id).unwrap(), 59);
    assert!(matches!(res, Err(Error::InternalError(_))));
    assert!(Auth2::<FixedKey>::list_tokens(db.list_tokens().unwrap()).is_empty());
}
