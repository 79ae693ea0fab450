//! Time-based one-time codes.
//!
//! A code is derived from a shared secret and a point in time: the time is
//! divided into periods, the number of the period is authenticated with an
//! HMAC under the secret, and a few decimal digits are cut out of the
//! authentication tag. The HMAC comes from `totp_rs`; everything after it is
//! computed and proved here.

use vstd::prelude::*;
use vstd::arithmetic::div_mod::{lemma_fundamental_div_mod, lemma_small_mod};
use vstd::string::{StrSliceExecFns, StringExecFns};

use crate::db::tokens::TokenAlg;
use crate::error::Error;

verus! {

/// Windows of tolerance that a `totp_rs` value carries; signing ignores it.
pub const SKEW: u8 = 1;

/// The HMAC of `message` under `key` with the hash that `algorithm` names,
/// as `totp_rs` computes it.
pub uninterp spec fn hmac_digest(algorithm: TokenAlg, key: Seq<u8>, message: Seq<u8>) -> Seq<u8>;

/// Length in bytes of an HMAC tag under each hash.
pub open spec fn digest_len(algorithm: TokenAlg) -> nat {
    match algorithm {
        TokenAlg::Sha1 => 20,
        TokenAlg::Sha256 => 32,
        TokenAlg::Sha512 => 64,
    }
}

/// The eight bytes of `counter`, most significant first.
pub open spec fn counter_bytes(counter: u64) -> Seq<u8> {
    seq![
        ((counter / 0x100_0000_0000_0000) % 0x100) as u8,
        ((counter / 0x1_0000_0000_0000) % 0x100) as u8,
        ((counter / 0x100_0000_0000) % 0x100) as u8,
        ((counter / 0x1_0000_0000) % 0x100) as u8,
        ((counter / 0x100_0000) % 0x100) as u8,
        ((counter / 0x1_0000) % 0x100) as u8,
        ((counter / 0x100) % 0x100) as u8,
        (counter % 0x100) as u8,
    ]
}

/// Number of the period that `time` falls into.
pub open spec fn time_counter(period: u32, time: u64) -> u64
    recommends
        period > 0,
{
    (time / period as u64) as u64
}

/// Seconds from `time` to the start of the next period.
pub open spec fn seconds_remaining(period: u32, time: u64) -> int
    recommends
        period > 0,
{
    (time_counter(period, time) + 1) * period - time
}

/// Where in a tag the code is cut out: the low four bits of its last byte.
pub open spec fn dynamic_offset(digest: Seq<u8>) -> int {
    digest.last() as int % 16
}

/// The four bytes at the dynamic offset, read most significant first, with
/// the top bit of the first byte dropped: a number below 2^31.
pub open spec fn truncated_value(digest: Seq<u8>) -> int {
    let at = dynamic_offset(digest);
    (digest[at] as int % 128) * 0x100_0000 + digest[at + 1] as int * 0x1_0000 + digest[at + 2] as int
        * 0x100 + digest[at + 3] as int
}

/// Ten to the power `n`.
pub open spec fn pow10(n: nat) -> nat
    decreases n,
{
    if n == 0 {
        1
    } else {
        10 * pow10((n - 1) as nat)
    }
}

/// The character of one decimal digit.
pub open spec fn digit_char(digit: int) -> char {
    if digit == 0 {
        '0'
    } else if digit == 1 {
        '1'
    } else if digit == 2 {
        '2'
    } else if digit == 3 {
        '3'
    } else if digit == 4 {
        '4'
    } else if digit == 5 {
        '5'
    } else if digit == 6 {
        '6'
    } else if digit == 7 {
        '7'
    } else if digit == 8 {
        '8'
    } else {
        '9'
    }
}

/// `value` in decimal, without leading zeros; zero is `"0"`.
pub open spec fn decimal(value: nat) -> Seq<char>
    decreases value,
{
    if value < 10 {
        seq![digit_char(value as int)]
    } else {
        decimal(value / 10).push(digit_char((value % 10) as int))
    }
}

/// `count` zeros.
pub open spec fn zeros(count: nat) -> Seq<char> {
    Seq::new(count, |i: int| '0')
}

/// `value` in decimal, filled up with zeros on the left to `width`
/// characters. A number that needs more than `width` characters keeps them.
pub open spec fn zero_padded(value: nat, width: nat) -> Seq<char> {
    let text = decimal(value);
    if text.len() >= width {
        text
    } else {
        zeros((width - text.len()) as nat) + text
    }
}

/// The code that a tag yields: its truncated value modulo ten to the power
/// `digits`, written with `digits` characters.
pub open spec fn otp_code(digest: Seq<u8>, digits: nat) -> Seq<char> {
    zero_padded((truncated_value(digest) % pow10(digits) as int) as nat, digits)
}

/// The code of `secret` at `time`.
pub open spec fn code_at(
    algorithm: TokenAlg,
    secret: Seq<u8>,
    digits: u8,
    period: u32,
    time: u64,
) -> Seq<char>
    recommends
        period > 0,
{
    otp_code(
        hmac_digest(algorithm, secret, counter_bytes(time_counter(period, time))),
        digits as nat,
    )
}

/// Calls `totp_rs::TOTP::new_unchecked` and `totp_rs::TOTP::sign`: builds the
/// value from the arguments as they come and signs `time`. The tag is the
/// HMAC, under `secret` and the hash of `algorithm`, of the number of the
/// period that `time` falls into, as eight bytes with the most significant
/// first. Its length is that of the hash. `sign` divides by `period`.
#[verifier::external_body]
fn sign_time(
    algorithm: TokenAlg,
    digits: usize,
    skew: u8,
    period: u64,
    secret: Vec<u8>,
    service: Option<String>,
    account: String,
    time: u64,
) -> (tag: Vec<u8>)
    requires
        period > 0,
    ensures
        tag@ == hmac_digest(algorithm, secret@, counter_bytes((time / period) as u64)),
        tag@.len() == digest_len(algorithm),
{
    let algorithm = match algorithm {
        TokenAlg::Sha1 => totp_rs::Algorithm::SHA1,
        TokenAlg::Sha256 => totp_rs::Algorithm::SHA256,
        TokenAlg::Sha512 => totp_rs::Algorithm::SHA512,
    };
    totp_rs::TOTP::new_unchecked(algorithm, digits, skew, period, secret, service, account).sign(time)
}

/// Appends the character of one decimal digit.
fn push_digit(text: &mut String, digit: u8)
    requires
        digit < 10,
    ensures
        final(text)@ == old(text)@.push(digit_char(digit as int)),
{
    proof {
        reveal_strlit("0");
        reveal_strlit("1");
        reveal_strlit("2");
        reveal_strlit("3");
        reveal_strlit("4");
        reveal_strlit("5");
        reveal_strlit("6");
        reveal_strlit("7");
        reveal_strlit("8");
        reveal_strlit("9");
    }
    let glyph = if digit == 0 {
        "0"
    } else if digit == 1 {
        "1"
    } else if digit == 2 {
        "2"
    } else if digit == 3 {
        "3"
    } else if digit == 4 {
        "4"
    } else if digit == 5 {
        "5"
    } else if digit == 6 {
        "6"
    } else if digit == 7 {
        "7"
    } else if digit == 8 {
        "8"
    } else {
        "9"
    };
    assert(glyph@ =~= seq![digit_char(digit as int)]);
    text.append(glyph);
    assert(text@ =~= old(text)@.push(digit_char(digit as int)));
}

/// Appends `value` in decimal.
fn push_decimal(text: &mut String, value: u32)
    ensures
        final(text)@ == old(text)@ + decimal(value as nat),
    decreases value,
{
    if value >= 10 {
        push_decimal(text, value / 10);
    }
    push_digit(text, (value % 10) as u8);
    assert(text@ =~= old(text)@ + decimal(value as nat));
}

/// Number of characters of `value` in decimal.
fn decimal_len(value: u32) -> (len: u8)
    ensures
        len == decimal(value as nat).len(),
        1 <= len <= 10,
{
    let mut rest: u32 = value;
    let mut len: u8 = 1;
    assert(pow10(0) == 1);
    assert(rest as int * pow10((len - 1) as nat) <= value) by (nonlinear_arith)
        requires
            rest == value,
            pow10((len - 1) as nat) == 1,
    ;
    while rest >= 10
        invariant
            1 <= len <= 10,
            decimal(value as nat).len() == decimal(rest as nat).len() + len - 1,
            rest as int * pow10((len - 1) as nat) <= value,
        decreases rest,
    {
        proof {
            lemma_pow10_values();
            assert(pow10(len as nat) == 10 * pow10((len - 1) as nat));
            assert((rest / 10) * 10 <= rest);
            assert((rest / 10) as int * pow10(len as nat) <= value) by (nonlinear_arith)
                requires
                    (rest / 10) * 10 <= rest,
                    rest as int * pow10((len - 1) as nat) <= value,
                    pow10(len as nat) == 10 * pow10((len - 1) as nat),
            ;
            if len == 10 {
                assert(rest / 10 >= 1);
                assert((rest / 10) as int * pow10(10) >= pow10(10)) by (nonlinear_arith)
                    requires
                        rest / 10 >= 1,
                ;
            }
        }
        rest = rest / 10;
        len = len + 1;
    }
    len
}

/// The first few powers of ten.
pub proof fn lemma_pow10_values()
    ensures
        pow10(0) == 1,
        pow10(1) == 10,
        pow10(2) == 100,
        pow10(3) == 1_000,
        pow10(4) == 10_000,
        pow10(5) == 100_000,
        pow10(6) == 1_000_000,
        pow10(7) == 10_000_000,
        pow10(8) == 100_000_000,
        pow10(9) == 1_000_000_000,
        pow10(10) == 10_000_000_000,
{
    reveal_with_fuel(pow10, 11);
}

/// Powers of ten grow with the exponent.
pub proof fn lemma_pow10_grows(low: nat, high: nat)
    requires
        low <= high,
    ensures
        pow10(low) <= pow10(high),
        pow10(low) >= 1,
    decreases high,
{
    if low == 0 {
        if high > 0 {
            lemma_pow10_grows(0, (high - 1) as nat);
        }
    } else {
        lemma_pow10_grows((low - 1) as nat, (high - 1) as nat);
    }
}

/// A number below ten to the power `width` has at most `width` digits.
pub proof fn lemma_decimal_len(value: nat, width: nat)
    requires
        width >= 1,
        value < pow10(width),
    ensures
        decimal(value).len() <= width,
    decreases width,
{
    if value >= 10 {
        assert(pow10(1) == 10) by {
            reveal_with_fuel(pow10, 2);
        }
        assert(width >= 2);
        assert(pow10(width) == 10 * pow10((width - 1) as nat));
        lemma_decimal_len(value / 10, (width - 1) as nat);
    }
}

/// A code of at least one digit has exactly as many characters as it has
/// digits.
pub proof fn lemma_code_len(digest: Seq<u8>, digits: nat)
    requires
        digits >= 1,
    ensures
        otp_code(digest, digits).len() == digits,
{
    lemma_pow10_grows(0, digits);
    let value = (truncated_value(digest) % pow10(digits) as int) as nat;
    lemma_decimal_len(value, digits);
}

/// Ten to the power `exponent`, for an exponent that fits.
fn power_of_ten(exponent: u8) -> (power: u32)
    requires
        exponent <= 9,
    ensures
        power == pow10(exponent as nat),
{
    let mut power: u32 = 1;
    let mut done: u8 = 0;
    while done < exponent
        invariant
            done <= exponent <= 9,
            power == pow10(done as nat),
        decreases exponent - done,
    {
        proof {
            lemma_pow10_values();
            lemma_pow10_grows(done as nat, 8);
        }
        power = power * 10;
        done = done + 1;
    }
    power
}

/// Cuts the number out of a tag: four bytes at the dynamic offset, top bit
/// dropped.
pub fn truncate_digest(digest: &[u8]) -> (value: u32)
    requires
        digest@.len() >= 20,
    ensures
        value == truncated_value(digest@),
        value < 0x8000_0000,
{
    let at: usize = (digest[digest.len() - 1] % 16) as usize;
    let high: u32 = (digest[at] % 128) as u32;
    high * 0x100_0000 + (digest[at + 1] as u32) * 0x1_0000 + (digest[at + 2] as u32) * 0x100 + (
    digest[at + 3] as u32)
}

/// Writes `value` with at least `width` characters, zeros first.
pub fn format_code(value: u32, width: u8) -> (text: String)
    ensures
        text@ == zero_padded(value as nat, width as nat),
{
    let len: u8 = decimal_len(value);
    let mut text = String::new();
    if len < width {
        let fill: u8 = width - len;
        let mut done: u8 = 0;
        while done < fill
            invariant
                done <= fill,
                text@ == zeros(done as nat),
            decreases fill - done,
        {
            push_digit(&mut text, 0);
            done = done + 1;
            assert(text@ =~= zeros(done as nat));
        }
    }
    assert(text@ =~= if len < width {
        zeros((width - len) as nat)
    } else {
        Seq::<char>::empty()
    });
    push_decimal(&mut text, value);
    assert(text@ =~= zero_padded(value as nat, width as nat));
    text
}

/// The code that a tag yields, `digits` characters long.
///
/// The tag is an HMAC, so at least twenty bytes long.
pub fn code_from_digest(digest: &[u8], digits: u8) -> (code: String)
    requires
        digest@.len() >= 20,
    ensures
        code@ == otp_code(digest@, digits as nat),
        digits >= 1 ==> code@.len() == digits,
{
    proof {
        if digits >= 1 {
            lemma_code_len(digest@, digits as nat);
        }
    }
    let value: u32 = truncate_digest(digest);
    let reduced: u32 = if digits <= 9 {
        let modulus: u32 = power_of_ten(digits);
        proof {
            lemma_pow10_grows(0, digits as nat);
        }
        value % modulus
    } else {
        proof {
            lemma_pow10_values();
            lemma_pow10_grows(10, digits as nat);
            lemma_small_mod(value as nat, pow10(digits as nat));
        }
        value
    };
    format_code(reduced, digits)
}

/// The seconds that remain are the period less the seconds that have
/// passed of it: at least one, at most the whole period.
pub proof fn lemma_seconds_remaining(period: u32, time: u64)
    requires
        period > 0,
    ensures
        seconds_remaining(period, time) == period - time % (period as u64),
        1 <= seconds_remaining(period, time) <= period,
{
    let step = period as int;
    let now = time as int;
    lemma_fundamental_div_mod(now, step);
    assert(0 <= now / step <= now) by (nonlinear_arith)
        requires
            step >= 1,
            now >= 0,
    ;
    assert((now / step + 1) * step == step * (now / step) + step) by (nonlinear_arith);
    assert(0 <= now % step < step) by (nonlinear_arith)
        requires
            step >= 1,
    ;
}

/// The current code of a secret and the seconds for which it stays valid.
///
/// The labels take no part in the computation. A period of zero seconds
/// divides time into nothing and is refused.
pub fn compute_current(
    secret: Vec<u8>,
    algorithm: TokenAlg,
    digits: u8,
    period: u32,
    service: Option<String>,
    account: String,
    time: u64,
) -> (res: Result<(String, u32), Error>)
    ensures
        match res {
            Ok(pair) => period > 0 && pair.0@ == code_at(algorithm, secret@, digits, period, time)
                && pair.1 == seconds_remaining(period, time),
            Err(error) => period == 0 && error is InternalError,
        },
{
    if period == 0 {
        return Err(Error::internal("period must be positive"));
    }
    let step: u64 = period as u64;
    let tag = sign_time(algorithm, digits as usize, SKEW, step, secret, service, account, time);
    let code = code_from_digest(tag.as_slice(), digits);
    proof {
        lemma_seconds_remaining(period, time);
    }
    let remaining: u32 = (step - time % step) as u32;
    Ok((code, remaining))
}

/// The unpadded RFC 4648 base32 text of `bytes`, as `totp_rs` writes it.
pub uninterp spec fn base32_encode(bytes: Seq<u8>) -> Seq<char>;

/// The bytes that `totp_rs` reads out of unpadded base32 `text`, if it
/// accepts the text.
pub uninterp spec fn base32_decode(text: Seq<char>) -> Option<Seq<u8>>;

/// Calls `totp_rs::Secret::to_encoded` on a raw secret and takes the text.
/// What was encoded is read back from the text.
#[verifier::external_body]
fn base32_text(bytes: &Vec<u8>) -> (text: String)
    ensures
        text@ == base32_encode(bytes@),
        base32_decode(text@) == Some(bytes@),
{
    totp_rs::Secret::Raw(bytes.clone()).to_encoded().to_string()
}

/// Calls `totp_rs::Secret::to_bytes` on an encoded secret. A failure comes
/// back as the text of the outside error.
#[verifier::external_body]
fn base32_bytes(text: String) -> (res: Result<Vec<u8>, String>)
    ensures
        match res {
            Ok(bytes) => base32_decode(text@) == Some(bytes@),
            Err(_) => base32_decode(text@) is None,
        },
{
    match totp_rs::Secret::Encoded(text).to_bytes() {
        Ok(bytes) => Ok(bytes),
        Err(error) => Err(error.to_string()),
    }
}

/// Writes a raw secret as base32 text.
pub fn encode_secret(bytes: &Vec<u8>) -> (text: String)
    ensures
        text@ == base32_encode(bytes@),
        base32_decode(text@) == Some(bytes@),
{
    base32_text(bytes)
}

/// Reads a raw secret out of base32 text.
pub fn decode_secret(text: String) -> (res: Result<Vec<u8>, Error>)
    ensures
        match res {
            Ok(bytes) => base32_decode(text@) == Some(bytes@),
            Err(error) => error is InternalError && base32_decode(text@) is None,
        },
{
    match base32_bytes(text) {
        Ok(bytes) => Ok(bytes),
        Err(detail) => Err(Error::InternalError(detail)),
    }
}

/// What a provisioning URL says of a token.
#[derive(Debug)]
pub struct TokenSpec {
    pub account: String,
    pub issuer: Option<String>,
    /// The shared secret, decoded.
    pub secret: Vec<u8>,
    pub algorithm: TokenAlg,
    pub digits: usize,
    pub period: u64,
}

/// Mathematical content of a [`TokenSpec`].
pub struct TokenSpecView {
    pub account: Seq<char>,
    pub issuer: Option<Seq<char>>,
    pub secret: Seq<u8>,
    pub algorithm: TokenAlg,
    pub digits: usize,
    pub period: u64,
}

impl View for TokenSpec {
    type V = TokenSpecView;

    open spec fn view(&self) -> TokenSpecView {
        TokenSpecView {
            account: self.account@,
            issuer: crate::db::tokens::label_text(self.issuer),
            secret: self.secret@,
            algorithm: self.algorithm,
            digits: self.digits,
            period: self.period,
        }
    }
}

/// What `totp_rs` reads out of an `otpauth` URL, if it accepts the URL.
pub uninterp spec fn provisioning_url(url: Seq<char>) -> Option<TokenSpecView>;

/// Whether `url` starts with the scheme `otpauth` and the host `totp`, in
/// exactly these letters, and the host ends there.
pub open spec fn names_totp_host(url: Seq<char>) -> bool {
    &&& url.len() >= 14
    &&& url.subrange(0, 14) == "otpauth://totp"@
    &&& (url.len() == 14 || url[14] == '/' || url[14] == '?' || url[14] == '#')
}

/// Tests [`names_totp_host`].
pub fn starts_as_totp_url(url: &str) -> (yes: bool)
    ensures
        yes == names_totp_host(url@),
{
    let prefix = "otpauth://totp";
    proof {
        reveal_strlit("otpauth://totp");
    }
    let len: usize = url.unicode_len();
    if len < 14 {
        return false;
    }
    let mut at: usize = 0;
    while at < 14
        invariant
            at <= 14 <= url@.len(),
            prefix@ == "otpauth://totp"@,
            prefix@.len() == 14,
            forall|i: int| 0 <= i < at ==> url@[i] == prefix@[i],
        decreases 14 - at,
    {
        if url.get_char(at) != prefix.get_char(at) {
            assert(url@.subrange(0, 14)[at as int] != prefix@[at as int]);
            return false;
        }
        at = at + 1;
    }
    assert(url@.subrange(0, 14) =~= prefix@);
    if len == 14 {
        return true;
    }
    let next: char = url.get_char(14);
    next == '/' || next == '?' || next == '#'
}

/// Calls `totp_rs::TOTP::from_url_unchecked` and moves the fields of what
/// it built into a [`TokenSpec`]. A failure comes back as the text of the
/// outside error. The parser gives up without returning on a URL that has
/// no host; naming the host `totp` rules that out.
#[verifier::external_body]
fn parse_otpauth(url: &str) -> (res: Result<TokenSpec, String>)
    requires
        names_totp_host(url@),
    ensures
        match res {
            Ok(spec) => provisioning_url(url@) == Some(spec@),
            Err(_) => provisioning_url(url@) is None,
        },
{
    let totp = match totp_rs::TOTP::from_url_unchecked(url) {
        Ok(totp) => totp,
        Err(error) => return Err(error.to_string()),
    };
    let algorithm = match totp.algorithm {
        totp_rs::Algorithm::SHA1 => TokenAlg::Sha1,
        totp_rs::Algorithm::SHA256 => TokenAlg::Sha256,
        totp_rs::Algorithm::SHA512 => TokenAlg::Sha512,
    };
    let (account, issuer, secret) = (totp.account_name, totp.issuer, totp.secret);
    Ok(TokenSpec { account, issuer, secret, algorithm, digits: totp.digits, period: totp.step })
}

/// Reads a token out of a provisioning URL.
///
/// Only a URL that starts with `otpauth://totp`, followed by `/`, `?`, `#`
/// or nothing, is handed to the parser; any other is malformed.
pub fn parse_provisioning_url(url: &str) -> (res: Result<TokenSpec, Error>)
    ensures
        match res {
            Ok(spec) => names_totp_host(url@) && provisioning_url(url@) == Some(spec@),
            Err(error) => error is InternalError && (!names_totp_host(url@) || provisioning_url(
                url@,
            ) is None),
        },
{
    if !starts_as_totp_url(url) {
        return Err(Error::internal("not an otpauth://totp URL"));
    }
    match parse_otpauth(url) {
        Ok(spec) => Ok(spec),
        Err(detail) => Err(Error::InternalError(detail)),
    }
}

} // verus!
