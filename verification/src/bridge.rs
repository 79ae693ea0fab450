//! The records that cross the boundary to the host.
//!
//! They show a token without its sealed secret.

use vstd::prelude::*;
use vstd::std_specs::convert::FromSpecImpl;

use crate::db::tokens;

verus! {

/// A token as a listing shows it.
#[derive(Debug)]
pub struct Token {
    pub id: u64,
    pub account: String,
    pub service: Option<String>,
}

/// A token with its parameters, without the secret.
#[derive(Debug)]
pub struct TokenDetail {
    pub id: u64,
    pub account: String,
    pub service: Option<String>,
    pub algorithm: TokenAlg,
    pub digits: u8,
    pub period: u32,
}

/// The hash of a token, as the host names it.
#[derive(Debug, Clone, Copy, PartialEq, Eq, Structural)]
pub enum TokenAlg {
    Sha1,
    Sha256,
    Sha512,
}

/// A generated code and the seconds for which it stays valid.
#[derive(Debug)]
pub struct TokenResult {
    pub current: String,
    pub expires: u32,
}

impl TokenAlg {
    /// The hash that the store knows under this name.
    pub open spec fn stored(self) -> tokens::TokenAlg {
        match self {
            TokenAlg::Sha1 => tokens::TokenAlg::Sha1,
            TokenAlg::Sha256 => tokens::TokenAlg::Sha256,
            TokenAlg::Sha512 => tokens::TokenAlg::Sha512,
        }
    }

    /// The hash that the store knows under this name.
    pub fn to_stored(self) -> (alg: tokens::TokenAlg)
        ensures
            alg == self.stored(),
    {
        match self {
            TokenAlg::Sha1 => tokens::TokenAlg::Sha1,
            TokenAlg::Sha256 => tokens::TokenAlg::Sha256,
            TokenAlg::Sha512 => tokens::TokenAlg::Sha512,
        }
    }
}

/// The name under which the host knows a hash of the store.
pub open spec fn host_algorithm(alg: tokens::TokenAlg) -> TokenAlg {
    match alg {
        tokens::TokenAlg::Sha1 => TokenAlg::Sha1,
        tokens::TokenAlg::Sha256 => TokenAlg::Sha256,
        tokens::TokenAlg::Sha512 => TokenAlg::Sha512,
    }
}

impl From<tokens::TokenAlg> for TokenAlg {
    fn from(v: tokens::TokenAlg) -> (alg: TokenAlg) {
        match v {
            tokens::TokenAlg::Sha1 => TokenAlg::Sha1,
            tokens::TokenAlg::Sha256 => TokenAlg::Sha256,
            tokens::TokenAlg::Sha512 => TokenAlg::Sha512,
        }
    }
}

impl FromSpecImpl<tokens::TokenAlg> for TokenAlg {
    open spec fn obeys_from_spec() -> bool {
        true
    }

    open spec fn from_spec(v: tokens::TokenAlg) -> TokenAlg {
        host_algorithm(v)
    }
}

/// What the host is shown of a line of the store's listing.
pub open spec fn host_token(item: tokens::TokenListItem) -> Token {
    Token { id: item.id, account: item.account, service: item.service }
}

/// What the host is shown of a token: all but the secret.
pub open spec fn host_detail(token: tokens::Token) -> TokenDetail {
    TokenDetail {
        id: token.id,
        account: token.data.account,
        service: token.data.service,
        algorithm: host_algorithm(token.data.algorithm),
        digits: token.data.digits,
        period: token.data.period,
    }
}

impl From<tokens::TokenListItem> for Token {
    fn from(v: tokens::TokenListItem) -> (token: Token) {
        Token { id: v.id, account: v.account, service: v.service }
    }
}

impl FromSpecImpl<tokens::TokenListItem> for Token {
    open spec fn obeys_from_spec() -> bool {
        true
    }

    open spec fn from_spec(v: tokens::TokenListItem) -> Token {
        host_token(v)
    }
}

impl From<tokens::Token> for TokenDetail {
    fn from(v: tokens::Token) -> (detail: TokenDetail) {
        TokenDetail {
            id: v.id,
            account: v.data.account,
            service: v.data.service,
            algorithm: TokenAlg::from(v.data.algorithm),
            digits: v.data.digits,
            period: v.data.period,
        }
    }
}

impl FromSpecImpl<tokens::Token> for TokenDetail {
    open spec fn obeys_from_spec() -> bool {
        true
    }

    open spec fn from_spec(v: tokens::Token) -> TokenDetail {
        host_detail(v)
    }
}

} // verus!
