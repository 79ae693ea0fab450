//! Token records as the store keeps them.

use vstd::prelude::*;

verus! {

/// The hash that drives the code derivation of a token.
#[derive(Debug, Clone, Copy, PartialEq, Eq, Structural)]
pub enum TokenAlg {
    Sha1,
    Sha256,
    Sha512,
}

/// Everything a token holds besides its identifier.
#[derive(Debug)]
pub struct TokenData {
    /// Display label of the account.
    pub account: String,
    /// Issuer or service label, if any.
    pub service: Option<String>,
    /// The sealed envelope of the shared secret, never the secret itself.
    pub secret: String,
    pub algorithm: TokenAlg,
    /// Length of a generated code.
    pub digits: u8,
    /// Seconds for which one code stays valid.
    pub period: u32,
}

/// A stored token: the identifier it was given and its data.
#[derive(Debug)]
pub struct Token {
    pub id: u64,
    pub data: TokenData,
}

/// What a listing shows of a token.
#[derive(Debug)]
pub struct TokenListItem {
    pub id: u64,
    pub account: String,
    pub service: Option<String>,
}

/// The text of an optional label.
pub open spec fn label_text(label: Option<String>) -> Option<Seq<char>> {
    match label {
        Some(text) => Some(text@),
        None => None,
    }
}

/// Mathematical content of a [`TokenData`].
pub struct TokenDataView {
    pub account: Seq<char>,
    pub service: Option<Seq<char>>,
    pub secret: Seq<char>,
    pub algorithm: TokenAlg,
    pub digits: u8,
    pub period: u32,
}

/// Mathematical content of a [`Token`].
pub struct TokenView {
    pub id: u64,
    pub data: TokenDataView,
}

/// Mathematical content of a [`TokenListItem`].
pub struct TokenListItemView {
    pub id: u64,
    pub account: Seq<char>,
    pub service: Option<Seq<char>>,
}

impl View for TokenData {
    type V = TokenDataView;

    open spec fn view(&self) -> TokenDataView {
        TokenDataView {
            account: self.account@,
            service: label_text(self.service),
            secret: self.secret@,
            algorithm: self.algorithm,
            digits: self.digits,
            period: self.period,
        }
    }
}

impl View for Token {
    type V = TokenView;

    open spec fn view(&self) -> TokenView {
        TokenView { id: self.id, data: self.data@ }
    }
}

impl View for TokenListItem {
    type V = TokenListItemView;

    open spec fn view(&self) -> TokenListItemView {
        TokenListItemView {
            id: self.id,
            account: self.account@,
            service: label_text(self.service),
        }
    }
}

impl TokenView {
    /// The line of a listing that stands for this token.
    pub open spec fn list_item(self) -> TokenListItemView {
        TokenListItemView { id: self.id, account: self.data.account, service: self.data.service }
    }
}

/// The data of a token for which nothing was chosen: empty labels and
/// secret, SHA-1, six digits, thirty seconds.
pub open spec fn default_token_data() -> TokenDataView {
    TokenDataView {
        account: Seq::empty(),
        service: None,
        secret: Seq::empty(),
        algorithm: TokenAlg::Sha1,
        digits: 6,
        period: 30,
    }
}

impl Default for TokenData {
    fn default() -> (data: TokenData)
        ensures
            data@ == default_token_data(),
    {
        TokenData {
            account: String::new(),
            service: None,
            secret: String::new(),
            algorithm: TokenAlg::Sha1,
            digits: 6,
            period: 30,
        }
    }
}

/// Copies an optional label.
pub fn clone_label(label: &Option<String>) -> (copy: Option<String>)
    ensures
        label_text(copy) == label_text(*label),
{
    match label {
        Some(text) => Some(text.clone()),
        None => None,
    }
}

impl TokenData {
    /// A copy with the same content.
    pub fn duplicate(&self) -> (copy: TokenData)
        ensures
            copy@ == self@,
    {
        TokenData {
            account: self.account.clone(),
            service: clone_label(&self.service),
            secret: self.secret.clone(),
            algorithm: self.algorithm,
            digits: self.digits,
            period: self.period,
        }
    }
}

impl Token {
    /// A copy with the same content.
    pub fn duplicate(&self) -> (copy: Token)
        ensures
            copy@ == self@,
    {
        Token { id: self.id, data: self.data.duplicate() }
    }

    /// The line of a listing that stands for this token.
    pub fn list_item(&self) -> (item: TokenListItem)
        ensures
            item@ == self@.list_item(),
    {
        TokenListItem {
            id: self.id,
            account: self.data.account.clone(),
            service: clone_label(&self.data.service),
        }
    }
}

} // verus!
