//! Lightning addresses and the two steps of LNURL-pay: where the pay
//! parameters of an address are found, and how an invoice for an amount is
//! asked for.

use vstd::prelude::*;
use crate::text::{
    chars_of, decimal_digits, decimal_text, find_char, first_index_from, lemma_first_index_from,
    slice_text, str_eq,
};

verus! {

/// The pay parameters that a lightning address resolves to. Amounts are in
/// millisatoshi.
#[derive(Debug, Clone)]
pub struct LnurlPayResponse {
    pub callback: String,
    pub min_sendable: u64,
    pub max_sendable: u64,
    pub metadata: String,
    pub tag: String,
}

/// The answer to a request for an invoice.
#[derive(Debug, Clone)]
pub struct LnurlInvoiceResponse {
    /// The BOLT11 invoice.
    pub pr: String,
}

/// Why no invoice could be had.
#[derive(Debug, Clone, Copy, PartialEq, Eq, Structural)]
pub enum LnurlError {
    /// The lightning address does not hold exactly one `@`.
    InvalidAddress,
    /// The server answered with a status outside 200 to 299.
    HttpStatus { status: u16 },
    /// The pay parameters are not tagged `payRequest`.
    WrongTag,
    /// The amount is below what the receiver accepts.
    BelowMinimum,
    /// The amount is above what the receiver accepts.
    AboveMaximum,
    /// The callback is no URL, or is too long to be one.
    InvalidCallback,
}

/// Resolves lightning addresses to invoices. This part of the client holds
/// the rules; the requests themselves are made by its caller.
#[derive(Debug, Clone, Copy)]
pub struct LnurlClient;

/// A callback of more characters than this is refused.
pub const MAX_CALLBACK_CHARS: usize = 0x10_0000;

/// The position of the `@` of an address that holds exactly one.
pub open spec fn at_position(address: Seq<char>) -> Option<int> {
    let at = first_index_from(address, '@', 0);
    if at < address.len() && first_index_from(address, '@', at + 1) >= address.len() {
        Some(at)
    } else {
        None
    }
}

/// Whether text is a lightning address `user@domain`: exactly one `@`, a
/// user part that is not empty, and a domain that holds a `.`.
pub open spec fn is_lightning_address(address: Seq<char>) -> bool {
    match at_position(address) {
        Some(at) => 0 < at && first_index_from(address, '.', at + 1) < address.len(),
        None => false,
    }
}

/// The URL at which the pay parameters of `user@domain` are found:
/// `https://<domain>/.well-known/lnurlp/<user>`.
pub open spec fn pay_params_url(address: Seq<char>) -> Option<Seq<char>> {
    match at_position(address) {
        Some(at) => Some(
            "https://"@ + address.skip(at + 1) + "/.well-known/lnurlp/"@ + address.take(at),
        ),
        None => None,
    }
}

/// `at_position` finds the `@` exactly when the address holds one `@` and
/// no other.
pub proof fn lemma_at_position(address: Seq<char>, at: int)
    ensures
        at_position(address) == Some(at) <==> {
            &&& 0 <= at < address.len()
            &&& address[at] == '@'
            &&& forall|j: int| 0 <= j < address.len() && j != at ==> address[j] != '@'
        },
{
    let first = first_index_from(address, '@', 0);
    lemma_first_index_from(address, '@', 0);
    if first < address.len() {
        lemma_first_index_from(address, '@', first + 1);
    }
    if 0 <= at < address.len() && address[at] == '@' && (forall|j: int|
        0 <= j < address.len() && j != at ==> address[j] != '@') {
        assert(first == at);
        let second = first_index_from(address, '@', first + 1);
        if second < address.len() {
            assert(address[second] == '@');
        }
    }
}

/// An address is a lightning address exactly when it holds one `@`, with
/// something before it and a `.` somewhere after it.
pub proof fn lemma_is_lightning_address(address: Seq<char>)
    ensures
        is_lightning_address(address) <==> exists|at: int, dot: int|
            {
                &&& 0 < at < dot < address.len()
                &&& #[trigger] address[at] == '@'
                &&& #[trigger] address[dot] == '.'
                &&& forall|j: int| 0 <= j < address.len() && j != at ==> address[j] != '@'
            },
{
    let first = first_index_from(address, '@', 0);
    lemma_first_index_from(address, '@', 0);
    if is_lightning_address(address) {
        let at = at_position(address).unwrap();
        lemma_at_position(address, at);
        lemma_first_index_from(address, '.', at + 1);
        let dot = first_index_from(address, '.', at + 1);
        assert(0 < at < dot < address.len() && address[at] == '@' && address[dot] == '.');
    }
    if exists|at: int, dot: int|
        {
            &&& 0 < at < dot < address.len()
            &&& #[trigger] address[at] == '@'
            &&& #[trigger] address[dot] == '.'
            &&& forall|j: int| 0 <= j < address.len() && j != at ==> address[j] != '@'
        } {
        let (at, dot) = choose|at: int, dot: int|
            {
                &&& 0 < at < dot < address.len()
                &&& #[trigger] address[at] == '@'
                &&& #[trigger] address[dot] == '.'
                &&& forall|j: int| 0 <= j < address.len() && j != at ==> address[j] != '@'
            };
        lemma_at_position(address, at);
        lemma_first_index_from(address, '.', at + 1);
    }
}

/// The amount in millisatoshi for which an invoice is asked, where the
/// receiver accepts it.
pub open spec fn sendable_msats(min_sendable: u64, max_sendable: u64, amount_sats: u64) -> Result<
    u64,
    LnurlError,
> {
    let msats = amount_sats as int * 1000;
    if msats < min_sendable {
        Err(LnurlError::BelowMinimum)
    } else if msats > max_sendable {
        Err(LnurlError::AboveMaximum)
    } else {
        Ok(msats as u64)
    }
}

/// The URL that `url` gives for `base` once the query pair `name=value` is
/// appended to it; `None` where `base` is no URL.
pub uninterp spec fn url_with_pair(base: Seq<char>, name: Seq<char>, value: Seq<char>) -> Option<
    Seq<char>,
>;

/// Why `url` could not read a URL.
#[verifier::external_type_specification]
#[verifier::external_body]
pub struct ExUrlParseError(url::ParseError);

/// Calls `url::Url::parse` on `base`, then `query_pairs_mut` and
/// `append_pair` with `name` and `value`, and hands out the text of the URL.
/// Trusted: whether `base` is accepted, and the text that comes out, depend
/// on the three arguments alone. Long arguments are left out: the crate
/// cannot hold a URL of 4 GiB.
#[verifier::external_body]
fn append_query_pair(base: &str, name: &str, value: &str) -> (r: Result<String, url::ParseError>)
    requires
        base@.len() <= MAX_CALLBACK_CHARS,
        name@.len() <= MAX_CALLBACK_CHARS,
        value@.len() <= MAX_CALLBACK_CHARS,
    ensures
        match r {
            Ok(text) => url_with_pair(base@, name@, value@) == Some(text@),
            Err(_) => url_with_pair(base@, name@, value@) is None,
        },
{
    let mut url = url::Url::parse(base)?;
    url.query_pairs_mut().append_pair(name, value);
    Ok(String::from(url))
}

/// The URL at which an invoice over `amount_msats` is asked for: the
/// callback with the query pair `amount=<amount_msats>` appended.
pub open spec fn invoice_url_of(callback: Seq<char>, amount_msats: u64) -> Option<Seq<char>> {
    url_with_pair(callback, "amount"@, decimal_digits(amount_msats as nat))
}

/// The width of a number written in decimal.
pub proof fn lemma_decimal_is_short(n: nat)
    requires
        n <= u64::MAX,
    ensures
        1 <= decimal_digits(n).len() <= 20,
{
    reveal_with_fuel(decimal_digits, 21);
}

impl LnurlClient {
    pub fn new() -> LnurlClient {
        LnurlClient
    }

    /// Whether `address` has the form `user@domain`.
    pub fn validate_lightning_address(address: &str) -> (valid: bool)
        ensures
            valid == is_lightning_address(address@),
    {
        let v = chars_of(address);
        let at = find_char(&v, '@', 0);
        if at >= v.len() {
            return false;
        }
        if find_char(&v, '@', at + 1) < v.len() {
            return false;
        }
        if at == 0 {
            return false;
        }
        find_char(&v, '.', at + 1) < v.len()
    }

    /// The URL at which the pay parameters of a lightning address are
    /// found. Fails for text that does not hold exactly one `@`.
    pub fn lightning_address_to_url(address: &str) -> (r: Result<String, LnurlError>)
        ensures
            match r {
                Ok(url) => pay_params_url(address@) == Some(url@),
                Err(e) => e == LnurlError::InvalidAddress && pay_params_url(address@) is None,
            },
    {
        let v = chars_of(address);
        let at = find_char(&v, '@', 0);
        if at >= v.len() {
            return Err(LnurlError::InvalidAddress);
        }
        if find_char(&v, '@', at + 1) < v.len() {
            return Err(LnurlError::InvalidAddress);
        }
        let user = slice_text(address, 0, at);
        let domain = slice_text(address, at + 1, v.len());
        let mut url = String::from_str("https://");
        url.append(domain.as_str());
        url.append("/.well-known/lnurlp/");
        url.append(user.as_str());
        proof {
            assert(address@.subrange(0, at as int) =~= address@.take(at as int));
            assert(address@.subrange(at + 1, v.len() as int) =~= address@.skip(at + 1));
        }
        Ok(url)
    }

    /// Whether a server answered with success: a status of 200 to 299.
    pub fn check_status(status: u16) -> (r: Result<(), LnurlError>)
        ensures
            r == if 200 <= status <= 299 {
                Ok::<(), LnurlError>(())
            } else {
                Err::<(), LnurlError>(LnurlError::HttpStatus { status })
            },
    {
        if 200 <= status && status <= 299 {
            Ok(())
        } else {
            Err(LnurlError::HttpStatus { status })
        }
    }

    /// Takes pay parameters that are tagged `payRequest`, and refuses any
    /// other.
    pub fn check_pay_params(params: LnurlPayResponse) -> (r: Result<LnurlPayResponse, LnurlError>)
        ensures
            match r {
                Ok(p) => p == params && params.tag@ == "payRequest"@,
                Err(e) => e == LnurlError::WrongTag && params.tag@ != "payRequest"@,
            },
    {
        if str_eq(params.tag.as_str(), "payRequest") {
            Ok(params)
        } else {
            Err(LnurlError::WrongTag)
        }
    }

    /// The amount in millisatoshi to ask an invoice for, if the receiver
    /// accepts it: `min_sendable <= amount_sats × 1000 <= max_sendable`.
    pub fn amount_msats(params: &LnurlPayResponse, amount_sats: u64) -> (r: Result<
        u64,
        LnurlError,
    >)
        ensures
            r == sendable_msats(params.min_sendable, params.max_sendable, amount_sats),
    {
        match amount_sats.checked_mul(1000) {
            None => Err(LnurlError::AboveMaximum),
            Some(msats) => {
                if msats < params.min_sendable {
                    Err(LnurlError::BelowMinimum)
                } else if msats > params.max_sendable {
                    Err(LnurlError::AboveMaximum)
                } else {
                    Ok(msats)
                }
            },
        }
    }

    /// The URL at which an invoice over `amount_msats` is asked for. Fails
    /// where the callback is no URL or has more than `MAX_CALLBACK_CHARS`
    /// characters.
    pub fn invoice_url(callback: &str, amount_msats: u64) -> (r: Result<String, LnurlError>)
        ensures
            match r {
                Ok(url) => callback@.len() <= MAX_CALLBACK_CHARS && invoice_url_of(
                    callback@,
                    amount_msats,
                ) == Some(url@),
                Err(e) => e == LnurlError::InvalidCallback && (callback@.len()
                    > MAX_CALLBACK_CHARS || invoice_url_of(callback@, amount_msats) is None),
            },
    {
        if callback.unicode_len() > MAX_CALLBACK_CHARS {
            return Err(LnurlError::InvalidCallback);
        }
        let amount = decimal_text(amount_msats);
        proof {
            lemma_decimal_is_short(amount_msats as nat);
            reveal_strlit("amount");
        }
        match append_query_pair(callback, "amount", amount.as_str()) {
            Ok(url) => Ok(url),
            Err(_) => Err(LnurlError::InvalidCallback),
        }
    }

    /// The URL at which the invoice for a payout of `amount_sats` is asked
    /// for, given the pay parameters of the receiver.
    pub fn invoice_request(params: &LnurlPayResponse, amount_sats: u64) -> (r: Result<
        String,
        LnurlError,
    >)
        ensures
            match sendable_msats(params.min_sendable, params.max_sendable, amount_sats) {
                Err(e) => r == Err::<String, LnurlError>(e),
                Ok(msats) => match r {
                    Ok(url) => params.callback@.len() <= MAX_CALLBACK_CHARS && invoice_url_of(
                        params.callback@,
                        msats,
                    ) == Some(url@),
                    Err(e) => e == LnurlError::InvalidCallback && (params.callback@.len()
                        > MAX_CALLBACK_CHARS || invoice_url_of(params.callback@, msats) is None),
                },
            },
    {
        let msats = match LnurlClient::amount_msats(params, amount_sats) {
            Ok(m) => m,
            Err(e) => {
                return Err(e);
            },
        };
        LnurlClient::invoice_url(params.callback.as_str(), msats)
    }
}

} // verus!
