use challenge_bypass_ristretto::voprf::SigningKey;
use challenge_bypass_ristretto::voprf::TokenPreimage;
use hmac::Hmac;
use rand::Rng;
use sha2::Sha512;

use redemption_batch::codec::escape_credential_field;
use redemption_batch::keytable::IssuerKeyTable;
use redemption_batch::outcome::OutcomeKind;
use redemption_batch::outcome::RejectReason;
use redemption_batch::pipeline::process_batch;
use redemption_batch::pipeline::process_record;
use redemption_batch::pipeline::run_batch;
use redemption_batch::record::RecordFormatError;
use redemption_batch::record::decode_record;

type HmacSha512 = Hmac<Sha512>;

/// A signed redemption: the issuer key, and the base64 preimage and
/// signature a client would present for `payload`.
struct SignedRedemption {
    issuer_key: SigningKey,
    public_key_b64: String,
    t_b64: String,
    signature_b64: String,
}

fn sign_payload(payload: &[u8]) -> SignedRedemption {
    // a redeemed token as the issuer accepts it: for an honestly signed
    // token the client's unblinded verification key equals the one the
    // issuer rederives from the preimage, so derive it on the issuer side
    let mut rng = rand::rngs::OsRng;
    let issuer_key = SigningKey::random(&mut rng);
    let mut seed = [0u8; 64];
    rng.fill(&mut seed[..]);
    let preimage = TokenPreimage::from_bytes(&seed).unwrap();
    let unblinded = issuer_key.rederive_unblinded_token(&preimage);
    let verification_key = unblinded.derive_verification_key::<Sha512>();
    let signature = verification_key.sign::<HmacSha512>(payload);
    SignedRedemption {
        public_key_b64: issuer_key.public_key.encode_base64(),
        t_b64: unblinded.t.encode_base64(),
        signature_b64: signature.encode_base64(),
        issuer_key,
    }
}

fn credential_json(public_key: &str, t: &str, payload: &str, signature: &str) -> String {
    format!(
        "{{\"publicKey\":\"{}\",\"credential\":{{\"t\":\"{}\",\"payload\":\"{}\",\"signature\":\"{}\"}},\"value\":0.25}}",
        public_key, t, payload, signature
    )
}

fn row(id: &str, payment_id: &str, json: &str, timestamp: &str) -> Vec<Vec<u8>> {
    let escaped = escape_credential_field(&json.as_bytes().to_vec());
    vec![
        id.as_bytes().to_vec(),
        payment_id.as_bytes().to_vec(),
        escaped,
        timestamp.as_bytes().to_vec(),
    ]
}

fn corr(entry: &redemption_batch::outcome::Correlation) -> (Vec<u8>, Vec<u8>, Vec<u8>) {
    (
        entry.id.clone(),
        entry.payment_id.clone(),
        entry.timestamp.clone(),
    )
}

#[test]
fn end_to_end_three_records() {
    let redemption = sign_payload(b"good payload");
    let stranger = sign_payload(b"good payload");
    let table =
        IssuerKeyTable::build(&vec![redemption.issuer_key.encode_base64().into_bytes()]).unwrap();

    let valid = credential_json(
        &redemption.public_key_b64,
        &redemption.t_b64,
        "good payload",
        &redemption.signature_b64,
    );
    let tampered = credential_json(
        &redemption.public_key_b64,
        &redemption.t_b64,
        "evil payload",
        &redemption.signature_b64,
    );
    let unknown = credential_json(
        &stranger.public_key_b64,
        &stranger.t_b64,
        "good payload",
        &stranger.signature_b64,
    );

    let rows = vec![
        row("r1", "pm1", &valid, "2021-01-01"),
        row("r2", "pm2", &tampered, "2021-01-02"),
        row("r3", "pm3", &unknown, "2021-01-03"),
    ];
    let ledgers = run_batch(&table, rows).unwrap();

    assert_eq!(ledgers.success.len(), 1);
    assert_eq!(ledgers.failure.len(), 2);
    assert_eq!(ledgers.success[0].id, b"r1".to_vec());
    let mut failed: Vec<Vec<u8>> = ledgers.failure.iter().map(|c| c.id.clone()).collect();
    failed.sort();
    assert_eq!(failed, vec![b"r2".to_vec(), b"r3".to_vec()]);
}

#[test]
fn every_record_lands_in_exactly_one_ledger() {
    let redemption = sign_payload(b"pay");
    let table =
        IssuerKeyTable::build(&vec![redemption.issuer_key.encode_base64().into_bytes()]).unwrap();
    let valid = credential_json(
        &redemption.public_key_b64,
        &redemption.t_b64,
        "pay",
        &redemption.signature_b64,
    );
    let bad = credential_json(
        &redemption.public_key_b64,
        &redemption.t_b64,
        "other",
        &redemption.signature_b64,
    );
    let rows = vec![
        row("a", "pa", &valid, "t1"),
        row("b", "pb", &bad, "t2"),
        row("c", "pc", &valid, "t3"),
        row("d", "pd", &bad, "t4"),
    ];
    let ledgers = run_batch(&table, rows).unwrap();
    assert_eq!(ledgers.success.len() + ledgers.failure.len(), 4);
    let mut all: Vec<(Vec<u8>, Vec<u8>, Vec<u8>)> = Vec::new();
    for entry in ledgers.success.iter().chain(ledgers.failure.iter()) {
        all.push(corr(entry));
    }
    all.sort();
    let mut expected = vec![
        (b"a".to_vec(), b"pa".to_vec(), b"t1".to_vec()),
        (b"b".to_vec(), b"pb".to_vec(), b"t2".to_vec()),
        (b"c".to_vec(), b"pc".to_vec(), b"t3".to_vec()),
        (b"d".to_vec(), b"pd".to_vec(), b"t4".to_vec()),
    ];
    expected.sort();
    assert_eq!(all, expected);
}

#[test]
fn ledger_membership_is_order_independent() {
    let redemption = sign_payload(b"pay");
    let table =
        IssuerKeyTable::build(&vec![redemption.issuer_key.encode_base64().into_bytes()]).unwrap();
    let valid = credential_json(
        &redemption.public_key_b64,
        &redemption.t_b64,
        "pay",
        &redemption.signature_b64,
    );
    let bad = credential_json(
        &redemption.public_key_b64,
        &redemption.t_b64,
        "other",
        &redemption.signature_b64,
    );
    let rows = vec![
        row("a", "pa", &valid, "t1"),
        row("b", "pb", &bad, "t2"),
        row("c", "pc", &valid, "t3"),
    ];
    let mut reversed = rows.clone();
    reversed.reverse();
    let one = run_batch(&table, rows).unwrap();
    let other = run_batch(&table, reversed).unwrap();
    let sorted = |v: &Vec<redemption_batch::outcome::Correlation>| {
        let mut out: Vec<(Vec<u8>, Vec<u8>, Vec<u8>)> = v.iter().map(|c| corr(c)).collect();
        out.sort();
        out
    };
    assert_eq!(sorted(&one.success), sorted(&other.success));
    assert_eq!(sorted(&one.failure), sorted(&other.failure));
}

#[test]
fn unknown_issuer_always_fails() {
    let redemption = sign_payload(b"pay");
    let stranger = sign_payload(b"pay");
    let table =
        IssuerKeyTable::build(&vec![redemption.issuer_key.encode_base64().into_bytes()]).unwrap();
    let json = credential_json(
        &stranger.public_key_b64,
        &stranger.t_b64,
        "pay",
        &stranger.signature_b64,
    );
    let record = decode_record(row("x", "px", &json, "tx")).unwrap();
    let outcome = process_record(&table, record);
    assert_eq!(
        outcome.kind,
        OutcomeKind::Rejected(RejectReason::UnknownIssuer)
    );
    assert_eq!(outcome.corr.id, b"x".to_vec());
}

#[test]
fn verification_pass_succeeds_and_fail_rejects() {
    let redemption = sign_payload(b"pay");
    let table =
        IssuerKeyTable::build(&vec![redemption.issuer_key.encode_base64().into_bytes()]).unwrap();
    let valid = credential_json(
        &redemption.public_key_b64,
        &redemption.t_b64,
        "pay",
        &redemption.signature_b64,
    );
    let tampered = credential_json(
        &redemption.public_key_b64,
        &redemption.t_b64,
        "tampered",
        &redemption.signature_b64,
    );
    let good = decode_record(row("g", "pg", &valid, "tg")).unwrap();
    let bad = decode_record(row("b", "pb", &tampered, "tb")).unwrap();
    assert_eq!(process_record(&table, good).kind, OutcomeKind::Verified);
    assert_eq!(
        process_record(&table, bad).kind,
        OutcomeKind::Rejected(RejectReason::SignatureMismatch)
    );
}

#[test]
fn process_batch_partitions_decoded_records() {
    let redemption = sign_payload(b"pay");
    let table =
        IssuerKeyTable::build(&vec![redemption.issuer_key.encode_base64().into_bytes()]).unwrap();
    let valid = credential_json(
        &redemption.public_key_b64,
        &redemption.t_b64,
        "pay",
        &redemption.signature_b64,
    );
    let records = vec![
        decode_record(row("a", "pa", &valid, "t1")).unwrap(),
        decode_record(row("b", "pb", &valid, "t2")).unwrap(),
    ];
    let ledgers = process_batch(&table, records);
    assert_eq!(ledgers.success.len(), 2);
    assert_eq!(ledgers.failure.len(), 0);
}

#[test]
fn empty_batch_yields_empty_ledgers() {
    let redemption = sign_payload(b"pay");
    let table =
        IssuerKeyTable::build(&vec![redemption.issuer_key.encode_base64().into_bytes()]).unwrap();
    let ledgers = run_batch(&table, Vec::new()).unwrap();
    assert!(ledgers.success.is_empty());
    assert!(ledgers.failure.is_empty());
}

#[test]
fn malformed_rows_abort_the_batch() {
    let redemption = sign_payload(b"pay");
    let table =
        IssuerKeyTable::build(&vec![redemption.issuer_key.encode_base64().into_bytes()]).unwrap();

    let short_row = vec![b"only".to_vec(), b"three".to_vec(), b"columns".to_vec()];
    let err = run_batch(&table, vec![short_row]).unwrap_err();
    assert_eq!(err.row, 0);
    assert_eq!(err.error, RecordFormatError::WrongColumnCount);

    let valid = credential_json(
        &redemption.public_key_b64,
        &redemption.t_b64,
        "pay",
        &redemption.signature_b64,
    );
    let bad_json = row("b", "pb", "{\"not\":\"a credential\"}", "t2");
    let err = run_batch(&table, vec![row("a", "pa", &valid, "t1"), bad_json]).unwrap_err();
    assert_eq!(err.row, 1);
    assert_eq!(err.error, RecordFormatError::MalformedCredential);
}

#[test]
fn bad_base64_preimage_is_a_format_error() {
    let redemption = sign_payload(b"pay");
    let json = credential_json(
        &redemption.public_key_b64,
        "@@not base64@@",
        "pay",
        &redemption.signature_b64,
    );
    let err = decode_record(row("x", "px", &json, "tx")).unwrap_err();
    assert_eq!(err, RecordFormatError::MalformedCredential);
}

#[test]
fn bad_base64_signature_is_a_format_error() {
    let redemption = sign_payload(b"pay");
    let json = credential_json(
        &redemption.public_key_b64,
        &redemption.t_b64,
        "pay",
        "!!!not base64!!!",
    );
    let err = decode_record(row("x", "px", &json, "tx")).unwrap_err();
    assert_eq!(err, RecordFormatError::MalformedCredential);
}

#[test]
fn decode_record_extracts_all_fields() {
    // the claimed public key is not validated at decode time, only looked up
    // later; the preimage and signature must be well-formed base64
    let redemption = sign_payload(b"pay,load");
    let json = credential_json(
        "PKPKPK",
        &redemption.t_b64,
        "pay,load",
        &redemption.signature_b64,
    );
    let record = decode_record(row("id9", "pay9", &json, "ts9")).unwrap();
    assert_eq!(record.id, b"id9".to_vec());
    assert_eq!(record.payment_id, b"pay9".to_vec());
    assert_eq!(record.timestamp, b"ts9".to_vec());
    assert_eq!(record.credential.issuer_public_key, b"PKPKPK".to_vec());
    assert_eq!(
        record.credential.token_preimage,
        redemption.t_b64.as_bytes().to_vec()
    );
    assert_eq!(record.credential.payload, b"pay,load".to_vec());
    assert_eq!(
        record.credential.signature,
        redemption.signature_b64.as_bytes().to_vec()
    );
    assert_eq!(record.credential.value, b"0.25".to_vec());
}
