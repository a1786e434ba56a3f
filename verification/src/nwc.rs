//! The wallet-connect payer: the URI that configures it, the request it
//! sends, what a response of the wallet means, and how long it waits.

use vstd::prelude::*;
use crate::invoice::{invoice_hash, invoice_payment_hash};
use crate::preimage::{
    PREIMAGE_BYTES, hex_decoded, hex_encoded, lemma_hex_round_trip, preimage_opens,
    sha256_digest, verify_preimage,
};
use crate::record::text_of;
use crate::text::{
    chars_of, find_char, first_index_from, has_prefix, lemma_first_index_from, range_is,
    slice_text, starts_with,
};

verus! {

/// The proof that an invoice was paid: the payment hash that the invoice
/// names, and a preimage that opens it.
#[derive(Debug, Clone)]
pub struct PaymentResult {
    pub preimage: String,
    pub payment_hash: String,
}

/// What a wallet-connect URI holds:
/// `nostr+walletconnect://<wallet pubkey>?relay=<url>&secret=<hex>`.
#[derive(Debug, Clone)]
pub struct NwcUri {
    /// The public key of the wallet, as the URI writes it.
    pub wallet_pubkey: String,
    /// The relay, percent-decoded.
    pub relay_url: String,
    /// The secret of the client, as the URI writes it.
    pub secret: String,
}

/// A wallet-connect URI as a mathematical value.
pub struct NwcUriModel {
    pub wallet_pubkey: Seq<char>,
    pub relay_url: Seq<char>,
    pub secret: Seq<char>,
}

impl View for NwcUri {
    type V = NwcUriModel;

    open spec fn view(&self) -> NwcUriModel {
        NwcUriModel {
            wallet_pubkey: self.wallet_pubkey@,
            relay_url: self.relay_url@,
            secret: self.secret@,
        }
    }
}

/// Why text is no wallet-connect URI.
#[derive(Debug, Clone, Copy, PartialEq, Eq, Structural)]
pub enum NwcUriError {
    /// The text does not begin with `nostr+walletconnect://`.
    InvalidFormat,
    /// No `?` follows the public key.
    MissingQuery,
    /// A `relay` parameter is not percent-encoded UTF-8.
    InvalidRelayEncoding,
    /// The query holds no `relay` parameter.
    MissingRelay,
    /// The query holds no `secret` parameter.
    MissingSecret,
}

/// The percent-decoding of text; `None` where the decoded bytes are not
/// UTF-8.
pub uninterp spec fn percent_decoded(text: Seq<char>) -> Option<Seq<char>>;

/// Why decoded bytes are no text.
#[verifier::external_type_specification]
#[verifier::external_body]
pub struct ExFromUtf8Error(std::string::FromUtf8Error);

/// Calls `urlencoding::decode`. Trusted: whether the text decodes, and what
/// it decodes to, depend on the text alone.
#[verifier::external_body]
fn percent_decode(text: &str) -> (r: Result<String, std::string::FromUtf8Error>)
    ensures
        match r {
            Ok(decoded) => percent_decoded(text@) == Some(decoded@),
            Err(_) => percent_decoded(text@) is None,
        },
{
    Ok(urlencoding::decode(text)?.into_owned())
}

/// The relay and the secret found so far in a query.
pub struct QueryFound {
    pub relay: Option<Seq<char>>,
    pub secret: Option<Seq<char>>,
}

/// What one parameter of the query adds to what was found: a parameter
/// `relay=<value>` sets the relay to the decoded value, a parameter
/// `secret=<value>` sets the secret, and any other changes nothing. A
/// parameter splits at its first `=`.
pub open spec fn param_read(param: Seq<char>, found: QueryFound) -> Result<
    QueryFound,
    NwcUriError,
> {
    let eq = first_index_from(param, '=', 0);
    if eq >= param.len() {
        Ok(found)
    } else if param.take(eq) == "relay"@ {
        match percent_decoded(param.skip(eq + 1)) {
            Some(url) => Ok(QueryFound { relay: Some(url), secret: found.secret }),
            None => Err(NwcUriError::InvalidRelayEncoding),
        }
    } else if param.take(eq) == "secret"@ {
        Ok(QueryFound { relay: found.relay, secret: Some(param.skip(eq + 1)) })
    } else {
        Ok(found)
    }
}

/// What the parameters of a query from position `from` on add to what was
/// found. Parameters are separated by `&` and read in order, so that of
/// two with one name the later counts; reading stops at the first relay
/// that cannot be decoded.
pub open spec fn query_read(query: Seq<char>, from: int, found: QueryFound) -> Result<
    QueryFound,
    NwcUriError,
>
    decreases query.len() - from,
{
    if from < 0 || from > query.len() {
        Ok(found)
    } else {
        let amp = first_index_from(query, '&', from);
        match param_read(query.subrange(from, amp), found) {
            Err(e) => Err(e),
            Ok(next) => if amp >= query.len() {
                Ok(next)
            } else {
                proof {
                    lemma_first_index_from(query, '&', from);
                }
                query_read(query, amp + 1, next)
            },
        }
    }
}

/// What text holds as a wallet-connect URI, or why it is none.
pub open spec fn nwc_uri_of(uri: Seq<char>) -> Result<NwcUriModel, NwcUriError> {
    let scheme = "nostr+walletconnect://"@;
    if !has_prefix(uri, scheme) {
        Err(NwcUriError::InvalidFormat)
    } else {
        let rest = uri.skip(scheme.len() as int);
        let mark = first_index_from(rest, '?', 0);
        if mark >= rest.len() {
            Err(NwcUriError::MissingQuery)
        } else {
            match query_read(rest.skip(mark + 1), 0, QueryFound { relay: None, secret: None }) {
                Err(e) => Err(e),
                Ok(found) => match found.relay {
                    None => Err(NwcUriError::MissingRelay),
                    Some(relay_url) => match found.secret {
                        None => Err(NwcUriError::MissingSecret),
                        Some(secret) => Ok(
                            NwcUriModel { wallet_pubkey: rest.take(mark), relay_url, secret },
                        ),
                    },
                },
            }
        }
    }
}

fn sub_vec(v: &Vec<char>, from: usize, to: usize) -> (r: Vec<char>)
    requires
        from <= to <= v.len(),
    ensures
        r@ == v@.subrange(from as int, to as int),
{
    let mut r: Vec<char> = Vec::new();
    let mut i: usize = from;
    while i < to
        invariant
            from <= i <= to <= v.len(),
            r@ == v@.subrange(from as int, i as int),
        decreases to - i,
    {
        r.push(v[i]);
        assert(r@ =~= v@.subrange(from as int, i + 1));
        i = i + 1;
    }
    r
}

impl NwcUri {
    /// Reads a wallet-connect URI.
    pub fn parse(uri: &str) -> (r: Result<NwcUri, NwcUriError>)
        ensures
            match r {
                Ok(parsed) => nwc_uri_of(uri@) == Ok::<NwcUriModel, NwcUriError>(parsed@),
                Err(e) => nwc_uri_of(uri@) == Err::<NwcUriModel, NwcUriError>(e),
            },
    {
        let all = chars_of(uri);
        let scheme = chars_of("nostr+walletconnect://");
        if !starts_with(&all, &scheme) {
            return Err(NwcUriError::InvalidFormat);
        }
        let start = scheme.len();
        let rest = sub_vec(&all, start, all.len());
        assert(rest@ =~= uri@.skip(start as int));
        let mark = find_char(&rest, '?', 0);
        if mark >= rest.len() {
            return Err(NwcUriError::MissingQuery);
        }
        let query = sub_vec(&rest, mark + 1, rest.len());
        assert(query@ =~= rest@.skip(mark + 1));
        let query_start = start + mark + 1;
        let mut relay: Option<String> = None;
        let mut secret: Option<String> = None;
        let mut from: usize = 0;
        let ghost initial = QueryFound { relay: None, secret: None };
        loop
            invariant_except_break
                from <= query.len(),
                all@ == uri@,
                query@ == uri@.skip(query_start as int),
                query_start + query.len() == all.len(),
                query_read(query@, 0, initial) == query_read(
                    query@,
                    from as int,
                    QueryFound { relay: text_of(relay), secret: text_of(secret) },
                ),
            invariant
                has_prefix(uri@, "nostr+walletconnect://"@),
                start == "nostr+walletconnect://"@.len(),
                rest@ == uri@.skip(start as int),
                mark == first_index_from(rest@, '?', 0),
                mark < rest.len(),
                query@ == rest@.skip(mark + 1),
                query_start == start + mark + 1,
                initial == (QueryFound { relay: None, secret: None }),
            ensures
                query_read(query@, 0, initial) == Ok::<QueryFound, NwcUriError>(
                    QueryFound { relay: text_of(relay), secret: text_of(secret) },
                ),
            decreases query.len() - from,
        {
            let amp = find_char(&query, '&', from);
            let param = sub_vec(&query, from, amp);
            let eq = find_char(&param, '=', 0);
            let ghost found = QueryFound { relay: text_of(relay), secret: text_of(secret) };
            assert(query_read(query@, from as int, found) == match param_read(param@, found) {
                Err(e) => Err::<QueryFound, NwcUriError>(e),
                Ok(next) => if amp >= query@.len() {
                    Ok::<QueryFound, NwcUriError>(next)
                } else {
                    query_read(query@, amp + 1, next)
                },
            });
            if eq < param.len() {
                let value = slice_text(uri, query_start + from + eq + 1, query_start + amp);
                proof {
                    assert(value@ =~= param@.skip(eq + 1));
                    assert(param@.subrange(0, eq as int) =~= param@.take(eq as int));
                }
                if range_is(&param, 0, eq, "relay") {
                    match percent_decode(value.as_str()) {
                        Ok(url) => {
                            relay = Some(url);
                        },
                        Err(_) => {
                            return Err(NwcUriError::InvalidRelayEncoding);
                        },
                    }
                } else if range_is(&param, 0, eq, "secret") {
                    secret = Some(value);
                }
            }
            if amp >= query.len() {
                break ;
            }
            from = amp + 1;
        }
        let relay_url = match relay {
            Some(r) => r,
            None => {
                return Err(NwcUriError::MissingRelay);
            },
        };
        let secret = match secret {
            Some(s) => s,
            None => {
                return Err(NwcUriError::MissingSecret);
            },
        };
        let wallet_pubkey = slice_text(uri, start, start + mark);
        assert(wallet_pubkey@ =~= rest@.take(mark as int));
        Ok(NwcUri { wallet_pubkey, relay_url, secret })
    }
}

/// The request that asks the wallet to pay an invoice.
#[derive(Debug, Clone)]
pub struct Nip47Request {
    pub method: String,
    pub params: Nip47PayInvoiceParams,
}

/// The parameters of a request to pay an invoice.
#[derive(Debug, Clone)]
pub struct Nip47PayInvoiceParams {
    pub invoice: String,
}

/// What the wallet answers.
#[derive(Debug, Clone)]
pub struct Nip47Response {
    pub result_type: Option<String>,
    pub result: Option<Nip47PayInvoiceResult>,
    pub error: Option<Nip47Error>,
}

/// The result of a paid invoice.
#[derive(Debug, Clone)]
pub struct Nip47PayInvoiceResult {
    pub preimage: String,
}

/// The error of a wallet that did not pay.
#[derive(Debug, Clone)]
pub struct Nip47Error {
    pub code: String,
    pub message: String,
}

/// Why a payment is not proved.
#[derive(Debug, Clone)]
pub enum PaymentError {
    /// The wallet answered with an error.
    Wallet { code: String, message: String },
    /// The invoice names no payment hash, so that no payment of it could
    /// be proved: nothing is sent.
    InvalidInvoice,
    /// The wallet answered with a preimage that does not open the payment
    /// hash of the invoice.
    InvalidPreimage,
    /// The answer of the wallet could not be read.
    UnreadableResponse,
    /// The wallet did not answer within the attempts.
    NoResponse,
}

/// What a response of the wallet means.
#[derive(Debug, Clone)]
pub enum Reading {
    /// The invoice is paid, and here is the proof.
    Paid(PaymentResult),
    /// The payment failed.
    Failed(PaymentError),
    /// The response holds neither an error nor a result.
    Undecided,
}

/// How often the payer looks for the response of the wallet.
pub const MAX_POLL_ATTEMPTS: u32 = 5;

/// How long one look for the response may take, in seconds.
pub const POLL_WINDOW_SECS: u64 = 3;

/// The pause after a look that found nothing, in seconds.
pub const POLL_PAUSE_SECS: u64 = 1;

/// What one look for the response brought.
#[derive(Debug, Clone)]
pub enum PollEvent {
    /// No response was there.
    Nothing,
    /// A response was there, but could not be decrypted or read.
    Unreadable,
    /// A response was there.
    Response(Nip47Response),
}

/// The state of the payer while it waits: how many looks it has made.
#[derive(Debug, Clone, Copy, PartialEq, Eq, Structural)]
pub struct PayPoll {
    pub attempts_made: u32,
}

/// What the payer does after a look.
#[derive(Debug)]
pub enum PollStep {
    /// The call is over, with this outcome.
    Done(Result<PaymentResult, PaymentError>),
    /// Pause for `POLL_PAUSE_SECS`, then look again.
    Wait(PayPoll),
}

/// The request that asks the wallet to pay `bolt11`.
pub fn pay_invoice_request(bolt11: &str) -> (request: Nip47Request)
    ensures
        request.method@ == "pay_invoice"@,
        request.params.invoice@ == bolt11@,
{
    Nip47Request {
        method: String::from_str("pay_invoice"),
        params: Nip47PayInvoiceParams { invoice: bolt11.to_owned() },
    }
}

/// Whether a response decides the payment: it holds an error or a result.
pub open spec fn decides(response: Nip47Response) -> bool {
    response.error is Some || response.result is Some
}

/// What the payer holds once it has read an invoice: the request to send,
/// the payment hash to hold the answer of the wallet against, and the state
/// before the first look.
#[derive(Debug, Clone)]
pub struct PaymentStart {
    pub request: Nip47Request,
    /// The payment hash of the invoice, in lower-case hexadecimal.
    pub payment_hash: String,
    pub poll: PayPoll,
}

/// Prepares the payment of `bolt11`. An invoice that names no payment hash
/// is refused before anything is sent.
pub fn start_payment(bolt11: &str) -> (r: Result<PaymentStart, PaymentError>)
    ensures
        match r {
            Ok(start) => {
                &&& invoice_hash(bolt11@) matches Some(hash)
                &&& start.payment_hash@ == hex_encoded(hash)
                &&& start.request.method@ == "pay_invoice"@
                &&& start.request.params.invoice@ == bolt11@
                &&& start.poll.attempts_made == 0
            },
            Err(e) => e is InvalidInvoice && invoice_hash(bolt11@) is None,
        },
{
    match invoice_payment_hash(bolt11) {
        Some(payment_hash) => Ok(
            PaymentStart { request: pay_invoice_request(bolt11), payment_hash, poll: PayPoll::new() },
        ),
        None => Err(PaymentError::InvalidInvoice),
    }
}

/// Reads a response of the wallet to the request to pay an invoice whose
/// payment hash is `invoice_hash`. An error of the wallet counts before a
/// result. A result proves the payment only with a preimage that opens the
/// payment hash of the invoice; any other preimage is a failure.
pub fn read_response(response: Nip47Response, invoice_hash: &str) -> (reading: Reading)
    ensures
        match reading {
            Reading::Failed(PaymentError::Wallet { code, message }) => {
                &&& response.error matches Some(e)
                &&& code == e.code
                &&& message == e.message
            },
            Reading::Failed(PaymentError::InvalidPreimage) => {
                &&& response.error is None
                &&& response.result matches Some(r)
                &&& !preimage_opens(r.preimage@, invoice_hash@)
            },
            Reading::Failed(_) => false,
            Reading::Paid(paid) => {
                &&& response.error is None
                &&& response.result matches Some(r)
                &&& paid.preimage == r.preimage
                &&& paid.payment_hash@ == invoice_hash@
                &&& preimage_opens(r.preimage@, invoice_hash@)
            },
            Reading::Undecided => !decides(response),
        },
{
    match response.error {
        Some(e) => {
            return Reading::Failed(PaymentError::Wallet { code: e.code, message: e.message });
        },
        None => {},
    }
    match response.result {
        Some(r) => {
            if verify_preimage(r.preimage.as_str(), invoice_hash) {
                Reading::Paid(
                    PaymentResult { preimage: r.preimage, payment_hash: invoice_hash.to_owned() },
                )
            } else {
                Reading::Failed(PaymentError::InvalidPreimage)
            }
        },
        None => Reading::Undecided,
    }
}

impl PayPoll {
    /// The state before the first look.
    pub fn new() -> (state: PayPoll)
        ensures
            state.attempts_made == 0,
    {
        PayPoll { attempts_made: 0 }
    }

    /// Whether another look may follow a look that decided nothing.
    pub open spec fn may_look_again(self) -> bool {
        self.attempts_made + 1 < MAX_POLL_ATTEMPTS
    }

    /// What the payer does after a look that brought `event`, for an
    /// invoice whose payment hash is `invoice_hash`. A response that
    /// decides ends the call with what it says: a payment only where the
    /// preimage opens the payment hash of the invoice. A response that
    /// cannot be read ends the call with a failure. Otherwise the payer
    /// waits and looks again, until it has looked `MAX_POLL_ATTEMPTS` times:
    /// then the call ends with a failure, never with a payment.
    pub fn after_look(self, event: PollEvent, invoice_hash: &str) -> (step: PollStep)
        ensures
            match step {
                PollStep::Wait(next) => {
                    &&& self.may_look_again()
                    &&& next.attempts_made == self.attempts_made + 1
                    &&& !(event matches PollEvent::Response(r) && decides(r))
                    &&& !(event is Unreadable)
                },
                PollStep::Done(Err(PaymentError::NoResponse)) => {
                    &&& !self.may_look_again()
                    &&& !(event matches PollEvent::Response(r) && decides(r))
                    &&& !(event is Unreadable)
                },
                PollStep::Done(Err(PaymentError::UnreadableResponse)) => event is Unreadable,
                PollStep::Done(Err(PaymentError::Wallet { code, message })) => {
                    &&& event matches PollEvent::Response(r)
                    &&& r.error matches Some(e)
                    &&& code == e.code
                    &&& message == e.message
                },
                PollStep::Done(Err(PaymentError::InvalidPreimage)) => {
                    &&& event matches PollEvent::Response(r)
                    &&& r.error is None
                    &&& r.result matches Some(res)
                    &&& !preimage_opens(res.preimage@, invoice_hash@)
                },
                PollStep::Done(Err(PaymentError::InvalidInvoice)) => false,
                PollStep::Done(Ok(paid)) => {
                    &&& event matches PollEvent::Response(r)
                    &&& r.error is None
                    &&& r.result matches Some(res)
                    &&& paid.preimage == res.preimage
                    &&& paid.payment_hash@ == invoice_hash@
                    &&& preimage_opens(res.preimage@, invoice_hash@)
                },
            },
    {
        match event {
            PollEvent::Unreadable => {
                return PollStep::Done(Err(PaymentError::UnreadableResponse));
            },
            PollEvent::Response(response) => match read_response(response, invoice_hash) {
                Reading::Paid(paid) => {
                    return PollStep::Done(Ok(paid));
                },
                Reading::Failed(e) => {
                    return PollStep::Done(Err(e));
                },
                Reading::Undecided => {},
            },
            PollEvent::Nothing => {},
        }
        if self.attempts_made < MAX_POLL_ATTEMPTS - 1 {
            PollStep::Wait(PayPoll { attempts_made: self.attempts_made + 1 })
        } else {
            PollStep::Done(Err(PaymentError::NoResponse))
        }
    }
}

/// A payment that the payer reports for an invoice is proved against that
/// invoice: the preimage handed out is 32 bytes whose SHA-256 digest is the
/// payment hash that the invoice names.
pub proof fn lemma_payment_proves_the_invoice(
    bolt11: Seq<char>,
    preimage: Seq<char>,
    payment_hash: Seq<char>,
)
    requires
        invoice_hash(bolt11) matches Some(hash) && payment_hash == hex_encoded(hash),
        preimage_opens(preimage, payment_hash),
    ensures
        hex_decoded(preimage) matches Some(p) && p.len() == PREIMAGE_BYTES && invoice_hash(bolt11)
            == Some(sha256_digest(p)),
{
    lemma_hex_round_trip(invoice_hash(bolt11).unwrap());
}

/// In a run of the payer, the state before look number `k`, counted from
/// 0, has made `k` looks.
proof fn lemma_looks_are_counted(states: Seq<PayPoll>, k: int)
    requires
        0 <= k < states.len(),
        states[0].attempts_made == 0,
        forall|i: int|
            0 <= i < states.len() - 1 ==> (#[trigger] states[i]).may_look_again() && states[i
                + 1].attempts_made == states[i].attempts_made + 1,
    ensures
        states[k].attempts_made == k,
    decreases k,
{
    if k > 0 {
        lemma_looks_are_counted(states, k - 1);
        assert(states[k - 1].may_look_again());
    }
}

/// A payer that starts from `PayPoll::new` and looks again only where
/// `after_look` lets it wait makes at most `MAX_POLL_ATTEMPTS` looks.
/// `states` holds the state before each look of such a run.
pub proof fn lemma_poll_is_bounded(states: Seq<PayPoll>)
    requires
        states.len() > 0,
        states[0].attempts_made == 0,
        forall|i: int|
            0 <= i < states.len() - 1 ==> (#[trigger] states[i]).may_look_again() && states[i
                + 1].attempts_made == states[i].attempts_made + 1,
    ensures
        states.len() <= MAX_POLL_ATTEMPTS,
{
    if states.len() > 1 {
        let k = states.len() - 2;
        lemma_looks_are_counted(states, k);
        assert(states[k].may_look_again());
    }
}

} // verus!
