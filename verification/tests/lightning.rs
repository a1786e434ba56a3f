use utxo_recycler::lnurl::{LnurlClient, LnurlError, LnurlPayResponse};
use utxo_recycler::invoice::{invoice_payment_hash, payment_hash_bytes};
use utxo_recycler::nwc::{
    pay_invoice_request, read_response, start_payment, Nip47Error, Nip47PayInvoiceResult,
    Nip47Response, NwcUri, NwcUriError, PayPoll, PaymentError, PollEvent, PollStep, Reading,
    MAX_POLL_ATTEMPTS,
};
use utxo_recycler::preimage::{hex_decode, hex_encode, payment_hash_of, verify_preimage};

fn params(min_sendable: u64, max_sendable: u64, callback: &str) -> LnurlPayResponse {
    LnurlPayResponse {
        callback: callback.to_string(),
        min_sendable,
        max_sendable,
        metadata: "[]".to_string(),
        tag: "payRequest".to_string(),
    }
}

#[test]
fn lightning_addresses_need_a_user_and_a_dotted_domain() {
    for good in ["alice@example.com", "a@b.c", "A.B@Example.COM", "x@.", "user+tag@sub.domain.org"] {
        assert!(LnurlClient::validate_lightning_address(good), "{}", good);
    }
    for bad in [
        "",
        "alice",
        "@example.com",
        "alice@",
        "alice@example",
        "alice@@example.com",
        "a@b@c.d",
        "alice.smith@localhost",
        "@",
        ".@a",
    ] {
        assert!(!LnurlClient::validate_lightning_address(bad), "{}", bad);
    }
}

#[test]
fn pay_params_are_found_under_well_known() {
    assert_eq!(
        LnurlClient::lightning_address_to_url("alice@example.com"),
        Ok("https://example.com/.well-known/lnurlp/alice".to_string())
    );
    assert_eq!(
        LnurlClient::lightning_address_to_url("@x"),
        Ok("https://x/.well-known/lnurlp/".to_string())
    );
    assert_eq!(LnurlClient::lightning_address_to_url("alice"), Err(LnurlError::InvalidAddress));
    assert_eq!(LnurlClient::lightning_address_to_url("a@b@c"), Err(LnurlError::InvalidAddress));
}

#[test]
fn only_success_statuses_pass() {
    assert_eq!(LnurlClient::check_status(200), Ok(()));
    assert_eq!(LnurlClient::check_status(299), Ok(()));
    assert_eq!(LnurlClient::check_status(199), Err(LnurlError::HttpStatus { status: 199 }));
    assert_eq!(LnurlClient::check_status(300), Err(LnurlError::HttpStatus { status: 300 }));
    assert_eq!(LnurlClient::check_status(404), Err(LnurlError::HttpStatus { status: 404 }));
}

#[test]
fn pay_params_need_the_pay_request_tag() {
    assert!(LnurlClient::check_pay_params(params(1, 2, "https://x.y/cb")).is_ok());
    let mut wrong = params(1, 2, "https://x.y/cb");
    wrong.tag = "withdrawRequest".to_string();
    assert!(matches!(LnurlClient::check_pay_params(wrong), Err(LnurlError::WrongTag)));
}

#[test]
fn amounts_are_held_to_the_sendable_range() {
    let p = params(1_000, 505_000, "https://x.y/cb");
    assert_eq!(LnurlClient::amount_msats(&p, 505), Ok(505_000));
    assert_eq!(LnurlClient::amount_msats(&p, 1), Ok(1_000));
    assert_eq!(LnurlClient::amount_msats(&p, 0), Err(LnurlError::BelowMinimum));
    assert_eq!(LnurlClient::amount_msats(&p, 506), Err(LnurlError::AboveMaximum));
    assert_eq!(LnurlClient::amount_msats(&p, u64::MAX), Err(LnurlError::AboveMaximum));
    let wide = params(0, u64::MAX, "https://x.y/cb");
    assert_eq!(LnurlClient::amount_msats(&wide, u64::MAX / 1000), Ok(u64::MAX / 1000 * 1000));
    assert_eq!(
        LnurlClient::amount_msats(&wide, u64::MAX / 1000 + 1),
        Err(LnurlError::AboveMaximum)
    );
}

#[test]
fn the_amount_is_appended_to_the_callback() {
    assert_eq!(
        LnurlClient::invoice_url("https://pay.example.com/lnurlp/alice/callback", 505_000),
        Ok("https://pay.example.com/lnurlp/alice/callback?amount=505000".to_string())
    );
    assert_eq!(
        LnurlClient::invoice_url("https://pay.example.com/cb?key=1", 0),
        Ok("https://pay.example.com/cb?key=1&amount=0".to_string())
    );
    assert_eq!(
        LnurlClient::invoice_url("https://pay.example.com/cb", u64::MAX),
        Ok("https://pay.example.com/cb?amount=18446744073709551615".to_string())
    );
    assert_eq!(LnurlClient::invoice_url("not a url", 1), Err(LnurlError::InvalidCallback));
    assert_eq!(LnurlClient::invoice_url("", 1), Err(LnurlError::InvalidCallback));
    let long = format!("https://pay.example.com/{}", "a".repeat(0x10_0000));
    assert_eq!(LnurlClient::invoice_url(&long, 1), Err(LnurlError::InvalidCallback));
}

#[test]
fn an_invoice_request_checks_the_amount_first() {
    let p = params(1_000, 1_000_000, "https://pay.example.com/cb");
    assert_eq!(
        LnurlClient::invoice_request(&p, 707),
        Ok("https://pay.example.com/cb?amount=707000".to_string())
    );
    assert_eq!(LnurlClient::invoice_request(&p, 0), Err(LnurlError::BelowMinimum));
    assert_eq!(LnurlClient::invoice_request(&p, 1001), Err(LnurlError::AboveMaximum));
    let broken = params(1_000, 1_000_000, "::");
    assert_eq!(LnurlClient::invoice_request(&broken, 0), Err(LnurlError::BelowMinimum));
    assert_eq!(LnurlClient::invoice_request(&broken, 5), Err(LnurlError::InvalidCallback));
}

#[test]
fn a_wallet_connect_uri_gives_key_relay_and_secret() {
    let uri = NwcUri::parse(
        "nostr+walletconnect://b889ff?relay=wss%3A%2F%2Frelay.example.com%2Fv1&secret=71a8c1",
    )
    .unwrap();
    assert_eq!(uri.wallet_pubkey, "b889ff");
    assert_eq!(uri.relay_url, "wss://relay.example.com/v1");
    assert_eq!(uri.secret, "71a8c1");
}

#[test]
fn a_wallet_connect_uri_takes_the_last_of_repeated_parameters() {
    let uri = NwcUri::parse(
        "nostr+walletconnect://key?secret=one&x&lud16=a@b.c&relay=wss://first&relay=wss://second&secret=two=2&",
    )
    .unwrap();
    assert_eq!(uri.wallet_pubkey, "key");
    assert_eq!(uri.relay_url, "wss://second");
    assert_eq!(uri.secret, "two=2");
    let empty = NwcUri::parse("nostr+walletconnect://?relay=&secret=").unwrap();
    assert_eq!(empty.wallet_pubkey, "");
    assert_eq!(empty.relay_url, "");
    assert_eq!(empty.secret, "");
    let marks = NwcUri::parse("nostr+walletconnect://k?relay=a?b&secret=%41").unwrap();
    assert_eq!(marks.relay_url, "a?b");
    assert_eq!(marks.secret, "%41");
}

#[test]
fn a_broken_wallet_connect_uri_says_what_is_wrong() {
    let error = |uri: &str| NwcUri::parse(uri).err();
    assert_eq!(error("nostr://key?relay=a&secret=b"), Some(NwcUriError::InvalidFormat));
    assert_eq!(error(""), Some(NwcUriError::InvalidFormat));
    assert_eq!(error("nostr+walletconnect:/"), Some(NwcUriError::InvalidFormat));
    assert_eq!(error("nostr+walletconnect://key"), Some(NwcUriError::MissingQuery));
    assert_eq!(error("nostr+walletconnect://key&relay=a"), Some(NwcUriError::MissingQuery));
    assert_eq!(error("nostr+walletconnect://key?secret=b"), Some(NwcUriError::MissingRelay));
    assert_eq!(error("nostr+walletconnect://key?"), Some(NwcUriError::MissingRelay));
    assert_eq!(error("nostr+walletconnect://key?relay&secret=b"), Some(NwcUriError::MissingRelay));
    assert_eq!(error("nostr+walletconnect://key?relay=a"), Some(NwcUriError::MissingSecret));
    assert_eq!(error("nostr+walletconnect://key?relay=a&Secret=b"), Some(NwcUriError::MissingSecret));
    assert_eq!(
        error("nostr+walletconnect://key?relay=%ff&secret=b"),
        Some(NwcUriError::InvalidRelayEncoding)
    );
    assert_eq!(
        error("nostr+walletconnect://key?relay=%ff&relay=ok"),
        Some(NwcUriError::InvalidRelayEncoding)
    );
}

#[test]
fn the_request_names_the_method_and_the_invoice() {
    let request = pay_invoice_request("lnbc5050n1example");
    assert_eq!(request.method, "pay_invoice");
    assert_eq!(request.params.invoice, "lnbc5050n1example");
}

#[test]
fn hex_goes_both_ways() {
    assert_eq!(hex_decode(""), Some(vec![]));
    assert_eq!(hex_decode("00ff10aB"), Some(vec![0x00, 0xff, 0x10, 0xab]));
    assert_eq!(hex_decode("0"), None);
    assert_eq!(hex_decode("0g"), None);
    assert_eq!(hex_decode("g0"), None);
    assert_eq!(hex_decode(" 00"), None);
    assert_eq!(hex_encode(&vec![]), "");
    assert_eq!(hex_encode(&vec![0x00, 0xff, 0x10, 0xab, 0x09, 0x9a]), "00ff10ab099a");
    let all: Vec<u8> = (0..=255u8).collect();
    assert_eq!(hex_decode(&hex_encode(&all)), Some(all));
}

#[test]
fn a_preimage_opens_its_hash_only() {
    let zeros = "0000000000000000000000000000000000000000000000000000000000000000";
    let hash = "66687aadf862bd776c8fc18b8e9f8e20089714856ee233b3902a591d0d5f2925";
    assert!(verify_preimage(zeros, hash));
    assert!(verify_preimage(zeros, &hash.to_uppercase()));
    assert!(!verify_preimage(zeros, zeros));
    assert!(!verify_preimage(hash, hash));
    assert!(!verify_preimage(zeros, &hash[2..]));
    assert!(!verify_preimage(&zeros[2..], hash));
    assert!(!verify_preimage("", ""));
    assert!(!verify_preimage("xyz", hash));
    assert!(!verify_preimage(zeros, "xyz"));
    assert_eq!(payment_hash_of(zeros), Some(hash.to_string()));
    assert_eq!(
        payment_hash_of("0102030405060708090A0B0C0D0E0F101112131415161718191A1B1C1D1E1F20"),
        Some("ae216c2ef5247a3782c135efa279a3e4cdc61094270f5d2be58c6204b7a612c9".to_string())
    );
    assert_eq!(payment_hash_of("00"), None);
    assert_eq!(payment_hash_of("nothex"), None);
    assert_eq!(payment_hash_of(&format!("{}00", zeros)), None);
}

fn response(preimage: Option<&str>, error: Option<(&str, &str)>) -> Nip47Response {
    Nip47Response {
        result_type: Some("pay_invoice".to_string()),
        result: preimage.map(|p| Nip47PayInvoiceResult { preimage: p.to_string() }),
        error: error.map(|(code, message)| Nip47Error {
            code: code.to_string(),
            message: message.to_string(),
        }),
    }
}

const ZEROS: &str = "0000000000000000000000000000000000000000000000000000000000000000";
const HASH_OF_ZEROS: &str = "66687aadf862bd776c8fc18b8e9f8e20089714856ee233b3902a591d0d5f2925";
const OTHER_HASH: &str = "ae216c2ef5247a3782c135efa279a3e4cdc61094270f5d2be58c6204b7a612c9";
/// `HASH_OF_ZEROS` as the data of a payment hash field.
const HASH_OF_ZEROS_DATA: &str = "ve584t0cv27hwmy0cx9ca8uwyqyfw9y9dm3r8vus9fv36r2l9yjs";

/// An invoice with the tagged fields `fields` between its timestamp and
/// its signature.
fn invoice_with(fields: &str) -> String {
    format!("lnbc1pvjluez{}{}", fields, "q".repeat(110))
}

#[test]
fn a_response_is_read_error_first() {
    match read_response(response(Some(ZEROS), None), HASH_OF_ZEROS) {
        Reading::Paid(paid) => {
            assert_eq!(paid.preimage, ZEROS);
            assert_eq!(paid.payment_hash, HASH_OF_ZEROS);
        }
        other => panic!("{:?}", other),
    }
    match read_response(
        response(Some(ZEROS), Some(("INSUFFICIENT_BALANCE", "no funds"))),
        HASH_OF_ZEROS,
    ) {
        Reading::Failed(PaymentError::Wallet { code, message }) => {
            assert_eq!(code, "INSUFFICIENT_BALANCE");
            assert_eq!(message, "no funds");
        }
        other => panic!("{:?}", other),
    }
    assert!(matches!(
        read_response(response(Some("beef"), None), HASH_OF_ZEROS),
        Reading::Failed(PaymentError::InvalidPreimage)
    ));
    assert!(matches!(read_response(response(None, None), HASH_OF_ZEROS), Reading::Undecided));
}

#[test]
fn a_preimage_that_does_not_open_the_invoice_is_no_payment() {
    // A well-formed preimage, but the invoice names another hash.
    assert!(matches!(
        read_response(response(Some(ZEROS), None), OTHER_HASH),
        Reading::Failed(PaymentError::InvalidPreimage)
    ));
    assert!(matches!(
        PayPoll::new().after_look(PollEvent::Response(response(Some(ZEROS), None)), OTHER_HASH),
        PollStep::Done(Err(PaymentError::InvalidPreimage))
    ));
    // The hash of the invoice is not taken from the preimage.
    assert!(matches!(
        read_response(response(Some(ZEROS), None), ZEROS),
        Reading::Failed(PaymentError::InvalidPreimage)
    ));
    assert!(matches!(
        read_response(response(Some(ZEROS), None), ""),
        Reading::Failed(PaymentError::InvalidPreimage)
    ));
    // Through the invoice itself.
    let other = invoice_with("pp54cskcth4y3ar0qkpxhh6y7drunxuvyy5yu8462l9333qfdaxztys");
    let start = start_payment(&other).unwrap();
    assert_eq!(start.payment_hash, OTHER_HASH);
    assert!(matches!(
        start.poll.after_look(PollEvent::Response(response(Some(ZEROS), None)), &start.payment_hash),
        PollStep::Done(Err(PaymentError::InvalidPreimage))
    ));
    let right = invoice_with(&format!("pp5{}", HASH_OF_ZEROS_DATA));
    let start = start_payment(&right).unwrap();
    match start.poll.after_look(PollEvent::Response(response(Some(ZEROS), None)), &start.payment_hash)
    {
        PollStep::Done(Ok(paid)) => {
            assert_eq!(paid.preimage, ZEROS);
            assert_eq!(paid.payment_hash, HASH_OF_ZEROS);
        }
        other => panic!("{:?}", other),
    }
}

#[test]
fn an_invoice_names_its_payment_hash() {
    // The payment hash field alone.
    assert_eq!(
        invoice_payment_hash(&invoice_with(
            "pp5qqqsyqcyq5rqwzqfqqqsyqcyq5rqwzqfqqqsyqcyq5rqwzqfqypq"
        )),
        Some("0001020304050607080900010203040506070809000102030405060708090102".to_string())
    );
    assert_eq!(
        invoice_payment_hash(&invoice_with(&format!("pp5{}", HASH_OF_ZEROS_DATA))),
        Some(HASH_OF_ZEROS.to_string())
    );
    assert_eq!(
        payment_hash_bytes(&invoice_with(&format!("pp5{}", "l".repeat(52)))),
        Some(vec![0xff; 32])
    );
    // After other fields: a description of 5 characters, a secret of 52.
    let fields = format!("dq9xqcrzsp5{}pp5{}", "z".repeat(52), HASH_OF_ZEROS_DATA);
    assert_eq!(invoice_payment_hash(&invoice_with(&fields)), Some(HASH_OF_ZEROS.to_string()));
    // Before other fields, and the first of two.
    let fields = format!("pp5{}dq9xqcrzpp5{}", HASH_OF_ZEROS_DATA, "l".repeat(52));
    assert_eq!(invoice_payment_hash(&invoice_with(&fields)), Some(HASH_OF_ZEROS.to_string()));
    // A field of the type with another length is passed over.
    let fields = format!("pqz{}pp5{}", "qq", HASH_OF_ZEROS_DATA);
    assert_eq!(invoice_payment_hash(&invoice_with(&fields)), Some(HASH_OF_ZEROS.to_string()));
    // In upper case, and with an amount in the human-readable part.
    let upper = invoice_with(&format!("pp5{}", HASH_OF_ZEROS_DATA)).to_uppercase();
    assert_eq!(invoice_payment_hash(&upper), Some(HASH_OF_ZEROS.to_string()));
    let amount = format!("lnbc2500u1pvjluezpp5{}{}", HASH_OF_ZEROS_DATA, "q".repeat(110));
    assert_eq!(invoice_payment_hash(&amount), Some(HASH_OF_ZEROS.to_string()));
    // With an amount that holds the separator's digit: the last `1` parts.
    let ones = format!("lntb11m1pvjluezpp5{}{}", HASH_OF_ZEROS_DATA, "q".repeat(110));
    assert_eq!(invoice_payment_hash(&ones), Some(HASH_OF_ZEROS.to_string()));
}

#[test]
fn text_that_is_no_invoice_names_no_payment_hash() {
    let field = format!("pp5{}", HASH_OF_ZEROS_DATA);
    // No payment hash field.
    assert_eq!(invoice_payment_hash(&invoice_with("")), None);
    assert_eq!(invoice_payment_hash(&invoice_with("dq9xqcrz")), None);
    assert_eq!(invoice_payment_hash(&invoice_with(&format!("pqz{}", "qq"))), None);
    // A field that runs into the signature.
    assert_eq!(invoice_payment_hash(&invoice_with(&format!("dlq{}", field))), None);
    assert_eq!(
        invoice_payment_hash(&invoice_with(&format!("{}d", field))),
        Some(HASH_OF_ZEROS.to_string())
    );
    assert_eq!(invoice_payment_hash(&invoice_with(&format!("d{}", field))), None);
    // The hash may not stand where the signature is due.
    let short = format!("lnbc1pvjluez{}{}", field, "q".repeat(109));
    assert_eq!(invoice_payment_hash(&short), None);
    // No separator, no human-readable part, another one.
    assert_eq!(invoice_payment_hash(""), None);
    assert_eq!(invoice_payment_hash("lnbc"), None);
    assert_eq!(invoice_payment_hash(&format!("1pvjluez{}{}", field, "q".repeat(110))), None);
    assert_eq!(invoice_payment_hash(&format!("l1pvjluez{}{}", field, "q".repeat(110))), None);
    assert_eq!(invoice_payment_hash(&format!("bc1pvjluez{}{}", field, "q".repeat(110))), None);
    // A character that stands for no bits.
    assert_eq!(invoice_payment_hash(&invoice_with(&format!("{}b", field))), None);
    assert_eq!(invoice_payment_hash(&invoice_with(&format!("{} ", field))), None);
    assert_eq!(invoice_payment_hash(&format!("lnbc1pvjluez{}{}i", field, "q".repeat(110))), None);
    // Too short for a timestamp and a signature.
    assert_eq!(invoice_payment_hash(&format!("lnbc1{}", "q".repeat(116))), None);
    assert!(matches!(start_payment("lnbc1"), Err(PaymentError::InvalidInvoice)));
    assert!(matches!(start_payment(""), Err(PaymentError::InvalidInvoice)));
}

#[test]
fn the_payer_looks_five_times_and_then_gives_up() {
    assert_eq!(MAX_POLL_ATTEMPTS, 5);
    let mut state = PayPoll::new();
    for made in 1..MAX_POLL_ATTEMPTS {
        match state.after_look(PollEvent::Nothing, HASH_OF_ZEROS) {
            PollStep::Wait(next) => {
                assert_eq!(next.attempts_made, made);
                state = next;
            }
            other => panic!("{:?}", other),
        }
    }
    assert!(matches!(
        state.after_look(PollEvent::Nothing, HASH_OF_ZEROS),
        PollStep::Done(Err(PaymentError::NoResponse))
    ));
    assert!(matches!(
        state.after_look(PollEvent::Response(response(None, None)), HASH_OF_ZEROS),
        PollStep::Done(Err(PaymentError::NoResponse))
    ));
}

#[test]
fn the_payer_stops_at_the_first_decision() {
    let state = PayPoll { attempts_made: 2 };
    assert!(matches!(
        state.after_look(PollEvent::Unreadable, HASH_OF_ZEROS),
        PollStep::Done(Err(PaymentError::UnreadableResponse))
    ));
    assert!(matches!(
        state.after_look(PollEvent::Response(response(None, Some(("OTHER", "x")))), HASH_OF_ZEROS),
        PollStep::Done(Err(PaymentError::Wallet { .. }))
    ));
    assert!(matches!(
        state.after_look(PollEvent::Response(response(Some(ZEROS), None)), HASH_OF_ZEROS),
        PollStep::Done(Ok(_))
    ));
    assert!(matches!(
        state.after_look(PollEvent::Response(response(Some("00"), None)), HASH_OF_ZEROS),
        PollStep::Done(Err(PaymentError::InvalidPreimage))
    ));
    assert!(matches!(
        state.after_look(PollEvent::Response(response(None, None)), HASH_OF_ZEROS),
        PollStep::Wait(PayPoll { attempts_made: 3 })
    ));
    let last = PayPoll { attempts_made: 4 };
    assert!(matches!(
        last.after_look(PollEvent::Response(response(Some(ZEROS), None)), HASH_OF_ZEROS),
        PollStep::Done(Ok(_))
    ));
}
