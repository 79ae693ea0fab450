//! Core of a local, encrypted vault for time-based one-time passwords.
//!
//! The vault keeps each credential's shared secret sealed under a key that
//! the host supplies, and computes one-time codes on demand. This crate holds
//! the rules: the sealed envelope and its layout, the code derivation, the
//! record model of the token store, and the consistency check on schema
//! migrations. Storage, key custody and scheduling belong to the host: an
//! operation of [`Auth2`] takes what the host read from its store and gives
//! back what the host is to write or to show.

use vstd::prelude::*;
use vstd::utf8::encode_utf8;

use bridge::{host_detail, host_token, Token, TokenAlg, TokenDetail, TokenResult};
use config::{Config, KeyStore};
use db::tokens::{label_text, TokenData, TokenDataView, TokenListItem};
use enc::{decrypt_secret, encrypt_secret, open_envelope, Opening, MAX_PLAINTEXT};
use error::Error;
use otp::{
    base32_decode, base32_encode, code_at, compute_current, decode_secret, encode_secret,
    names_totp_host, parse_provisioning_url, provisioning_url, seconds_remaining,
};

pub mod bridge;
pub mod config;
pub mod db;
pub mod enc;
pub mod error;
pub mod otp;

verus! {

/// The hash that a request names, or SHA-1 where it names none.
pub open spec fn chosen_algorithm(algorithm: Option<TokenAlg>) -> db::tokens::TokenAlg {
    match algorithm {
        Some(alg) => alg.stored(),
        None => db::tokens::TokenAlg::Sha1,
    }
}

/// The data of a token that is entered by hand, with `sealed` for its
/// secret: six digits and thirty seconds where the request names none.
pub open spec fn manual_token(
    account: Seq<char>,
    service: Option<Seq<char>>,
    sealed: Seq<char>,
    algorithm: Option<TokenAlg>,
    digits: Option<u8>,
    period: Option<u32>,
) -> TokenDataView {
    TokenDataView {
        account,
        service,
        secret: sealed,
        algorithm: chosen_algorithm(algorithm),
        digits: match digits {
            Some(count) => count,
            None => 6,
        },
        period: match period {
            Some(seconds) => seconds,
            None => 30,
        },
    }
}

/// The data of a token that a provisioning URL describes, with `sealed` for
/// its secret. Digits and period are cut to the width of their fields.
pub open spec fn url_token(spec: otp::TokenSpecView, sealed: Seq<char>) -> TokenDataView {
    TokenDataView {
        account: spec.account,
        service: spec.issuer,
        secret: sealed,
        algorithm: spec.algorithm,
        digits: spec.digits as u8,
        period: spec.period as u32,
    }
}

/// The data of a token that is entered by hand, its secret sealed under
/// `user_key`.
///
/// Fails without a key, and on a secret beyond the reach of the cipher.
pub fn new_token(
    user_key: Option<String>,
    account: String,
    service: Option<String>,
    secret: String,
    algorithm: Option<TokenAlg>,
    digits: Option<u8>,
    period: Option<u32>,
) -> (res: Result<TokenData, Error>)
    ensures
        match res {
            Ok(data) => {
                &&& user_key matches Some(key)
                &&& encode_utf8(secret@).len() <= MAX_PLAINTEXT
                &&& data@ == manual_token(
                    account@,
                    label_text(service),
                    data@.secret,
                    algorithm,
                    digits,
                    period,
                )
                &&& open_envelope(key@, data@.secret) == Opening::Plaintext(secret@)
            },
            Err(error) => {
                &&& error is InternalError
                &&& user_key is None || encode_utf8(secret@).len() > MAX_PLAINTEXT
            },
        },
{
    let key = match user_key {
        Some(key) => key,
        None => {
            return Err(Error::internal("no user key found"));
        },
    };
    let sealed = encrypt_secret(key, secret)?;
    let mut data = TokenData::default();
    data.account = account;
    data.service = service;
    data.secret = sealed;
    if let Some(alg) = algorithm {
        data.algorithm = alg.to_stored();
    }
    if let Some(count) = digits {
        data.digits = count;
    }
    if let Some(seconds) = period {
        data.period = seconds;
    }
    Ok(data)
}

/// The data of the token that a provisioning URL describes, its secret
/// sealed under `user_key` as base32 text.
///
/// Fails without a key and on a URL that is malformed.
pub fn token_from_url(user_key: Option<String>, url: String) -> (res: Result<TokenData, Error>)
    ensures
        match res {
            Ok(data) => {
                &&& user_key matches Some(key)
                &&& names_totp_host(url@)
                &&& provisioning_url(url@) matches Some(spec)
                &&& data@ == url_token(spec, data@.secret)
                &&& open_envelope(key@, data@.secret) == Opening::Plaintext(
                    base32_encode(spec.secret),
                )
            },
            Err(error) => {
                &&& error is InternalError
                &&& {
                    ||| user_key is None
                    ||| !names_totp_host(url@)
                    ||| provisioning_url(url@) is None
                    ||| provisioning_url(url@) matches Some(spec) && encode_utf8(
                        base32_encode(spec.secret),
                    ).len() > MAX_PLAINTEXT
                }
            },
        },
{
    let key = match user_key {
        Some(key) => key,
        None => {
            return Err(Error::internal("no user key found"));
        },
    };
    let spec = parse_provisioning_url(url.as_str())?;
    let secret = encode_secret(&spec.secret);
    let sealed = encrypt_secret(key, secret)?;
    Ok(
        TokenData {
            account: spec.account,
            service: spec.issuer,
            secret: sealed,
            algorithm: spec.algorithm,
            digits: #[verifier::truncate]
            (spec.digits as u8),
            period: #[verifier::truncate]
            (spec.period as u32),
        },
    )
}

/// What generating a code for a token at a time comes to.
pub enum Generation {
    /// The code and the seconds for which it stays valid.
    Code(Seq<char>, int),
    /// The envelope did not open under the key.
    Locked,
    /// The envelope is malformed, the secret is no base32 text, or the
    /// period is zero.
    Broken,
}

/// What generating a code for `token` under `user_key` at `now` comes to.
pub open spec fn generation(token: TokenDataView, user_key: Seq<char>, now: u64) -> Generation {
    match open_envelope(user_key, token.secret) {
        Opening::Plaintext(text) => match base32_decode(text) {
            Some(secret) => if token.period > 0 {
                Generation::Code(
                    code_at(token.algorithm, secret, token.digits, token.period, now),
                    seconds_remaining(token.period, now),
                )
            } else {
                Generation::Broken
            },
            None => Generation::Broken,
        },
        Opening::Rejected => Generation::Locked,
        Opening::Malformed => Generation::Broken,
    }
}

/// The code of `token` at `now`, its secret opened under `user_key`.
pub fn generate(token: db::tokens::Token, user_key: Option<String>, now: u64) -> (res: Result<
    TokenResult,
    Error,
>)
    ensures
        match user_key {
            None => res matches Err(Error::InternalError(_)),
            Some(key) => match generation(token@.data, key@, now) {
                Generation::Code(code, remaining) => res matches Ok(result) && result.current@
                    == code && result.expires == remaining,
                Generation::Locked => res matches Err(Error::DecryptError),
                Generation::Broken => res matches Err(Error::InternalError(_)),
            },
        },
{
    let key = match user_key {
        Some(key) => key,
        None => {
            return Err(Error::internal("no user key found"));
        },
    };
    let text = decrypt_secret(key, token.data.secret)?;
    let secret = decode_secret(text)?;
    let (current, expires) = compute_current(
        secret,
        token.data.algorithm,
        token.data.digits,
        token.data.period,
        token.data.service,
        token.data.account,
        now,
    )?;
    Ok(TokenResult { current, expires })
}

/// The vault's operations, for a host that holds the key store.
pub struct Auth2<K: KeyStore> {
    config: Config<K>,
}

impl<K: KeyStore> Auth2<K> {
    /// The settings that the vault was made with.
    pub closed spec fn config(&self) -> Config<K> {
        self.config
    }

    /// A vault with the settings given.
    pub fn new(config: Config<K>) -> (vault: Auth2<K>)
        ensures
            vault.config() == config,
    {
        Auth2 { config }
    }

    /// The data of a new token that was entered by hand, to be written to
    /// the store. The key store is asked for the key.
    pub fn add_token(
        &self,
        account: String,
        service: Option<String>,
        secret: String,
        algorithm: Option<TokenAlg>,
        digits: Option<u8>,
        period: Option<u32>,
    ) -> (res: Result<TokenData, Error>)
        ensures
            match res {
                Ok(data) => {
                    &&& encode_utf8(secret@).len() <= MAX_PLAINTEXT
                    &&& data@ == manual_token(
                        account@,
                        label_text(service),
                        data@.secret,
                        algorithm,
                        digits,
                        period,
                    )
                    &&& exists|key: Seq<char>| #[trigger]
                        open_envelope(key, data@.secret) == Opening::Plaintext(secret@)
                },
                Err(error) => error is InternalError,
            },
    {
        let user_key = self.config.key_store.get();
        new_token(user_key, account, service, secret, algorithm, digits, period)
    }

    /// The data of a new token that a provisioning URL describes, to be
    /// written to the store. The key store is asked for the key.
    pub fn add_token_from_url(&self, url: String) -> (res: Result<TokenData, Error>)
        ensures
            match res {
                Ok(data) => {
                    &&& names_totp_host(url@)
                    &&& provisioning_url(url@) matches Some(spec)
                    &&& data@ == url_token(spec, data@.secret)
                    &&& exists|key: Seq<char>| #[trigger]
                        open_envelope(key, data@.secret) == Opening::Plaintext(
                            base32_encode(spec.secret),
                        )
                },
                Err(error) => error is InternalError,
            },
    {
        let user_key = self.config.key_store.get();
        token_from_url(user_key, url)
    }

    /// What to show of a token that was just written, given what the store
    /// holds under its identifier. That the store holds nothing is an
    /// internal error.
    pub fn token_added(fetched: Option<db::tokens::Token>) -> (res: Result<TokenDetail, Error>)
        ensures
            match fetched {
                Some(token) => res matches Ok(detail) && detail == host_detail(token),
                None => res matches Err(Error::InternalError(_)),
            },
    {
        match fetched {
            Some(token) => Ok(TokenDetail::from(token)),
            None => Err(Error::internal("token not found")),
        }
    }

    /// What to show of a token, given what the store holds under its
    /// identifier. An identifier that the store does not hold is no error.
    pub fn token_detail(fetched: Option<db::tokens::Token>) -> (res: Option<TokenDetail>)
        ensures
            match fetched {
                Some(token) => res == Some(host_detail(token)),
                None => res is None,
            },
    {
        match fetched {
            Some(token) => Some(TokenDetail::from(token)),
            None => None,
        }
    }

    /// The listing to show, given the listing of the store, line for line.
    pub fn list_tokens(items: Vec<TokenListItem>) -> (res: Vec<Token>)
        ensures
            res@.len() == items@.len(),
            forall|i: int| 0 <= i < items@.len() ==> #[trigger] res@[i] == host_token(items@[i]),
    {
        let mut items = items;
        let ghost all = items@;
        let mut shown: Vec<Token> = Vec::new();
        let mut rest: Vec<Token> = Vec::new();
        while items.len() > 0
            invariant
                items@.len() + rest@.len() == all.len(),
                forall|i: int| 0 <= i < items@.len() ==> items@[i] == all[i],
                forall|i: int|
                    0 <= i < rest@.len() ==> #[trigger] rest@[i] == host_token(
                        all[all.len() - 1 - i],
                    ),
            decreases items@.len(),
        {
            let item = items.pop().unwrap();
            rest.push(Token::from(item));
        }
        while rest.len() > 0
            invariant
                shown@.len() + rest@.len() == all.len(),
                forall|i: int|
                    0 <= i < rest@.len() ==> #[trigger] rest@[i] == host_token(
                        all[all.len() - 1 - i],
                    ),
                forall|i: int| 0 <= i < shown@.len() ==> #[trigger] shown@[i] == host_token(all[i]),
            decreases rest@.len(),
        {
            let token = rest.pop().unwrap();
            shown.push(token);
        }
        shown
    }

    /// The current code of a token, given what the store holds under its
    /// identifier and the time of this call in seconds since the epoch.
    ///
    /// Code and remaining seconds come from the one time given. The key
    /// store is asked only where the store holds the token.
    pub fn generate_current(&self, fetched: Option<db::tokens::Token>, now: u64) -> (res: Result<
        TokenResult,
        Error,
    >)
        ensures
            fetched is None ==> res matches Err(Error::InternalError(_)),
            res matches Ok(result) ==> fetched matches Some(token) && exists|key: Seq<char>|
                generation(token@.data, key, now) == Generation::Code(
                    result.current@,
                    result.expires as int,
                ),
            res matches Err(Error::DecryptError) ==> fetched matches Some(token) && exists|
                key: Seq<char>,
            | generation(token@.data, key, now) == Generation::Locked,
            !(res matches Err(Error::MigrationError(_))),
    {
        let token = match fetched {
            Some(token) => token,
            None => {
                return Err(Error::internal("no entry found"));
            },
        };
        let user_key = self.config.key_store.get();
        generate(token, user_key, now)
    }
}

} // verus!
