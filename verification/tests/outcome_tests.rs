use redemption_batch::outcome::Correlation;
use redemption_batch::outcome::OutcomeKind;
use redemption_batch::outcome::RejectReason;
use redemption_batch::outcome::VerificationOutcome;
use redemption_batch::outcome::classify_verification;
use redemption_batch::outcome::collect_outcomes;
use redemption_batch::outcome::confirm_delivery;
use redemption_batch::outcome::ledger_line;

fn outcome(kind: OutcomeKind, id: &str) -> VerificationOutcome {
    VerificationOutcome {
        kind,
        corr: Correlation {
            id: id.as_bytes().to_vec(),
            payment_id: format!("p-{}", id).into_bytes(),
            timestamp: b"2021-06-01".to_vec(),
        },
    }
}

#[test]
fn classification_maps_pass_and_fail() {
    assert_eq!(classify_verification(true), OutcomeKind::Verified);
    assert_eq!(
        classify_verification(false),
        OutcomeKind::Rejected(RejectReason::SignatureMismatch)
    );
}

#[test]
fn collector_partitions_by_outcome_kind() {
    let outcomes = vec![
        outcome(OutcomeKind::Verified, "a"),
        outcome(OutcomeKind::Rejected(RejectReason::UnknownIssuer), "b"),
        outcome(OutcomeKind::Verified, "c"),
        outcome(OutcomeKind::Rejected(RejectReason::SignatureMismatch), "d"),
    ];
    let ledgers = collect_outcomes(outcomes);
    let success_ids: Vec<Vec<u8>> = ledgers.success.iter().map(|c| c.id.clone()).collect();
    let failure_ids: Vec<Vec<u8>> = ledgers.failure.iter().map(|c| c.id.clone()).collect();
    assert_eq!(success_ids, vec![b"a".to_vec(), b"c".to_vec()]);
    assert_eq!(failure_ids, vec![b"b".to_vec(), b"d".to_vec()]);
}

#[test]
fn delivery_shortfall_is_fatal() {
    assert!(confirm_delivery(3, 3).is_ok());
    let err = confirm_delivery(3, 2).unwrap_err();
    assert_eq!(err.expected, 3);
    assert_eq!(err.received, 2);
}

#[test]
fn ledger_line_joins_correlation_fields() {
    let entry = Correlation {
        id: b"id1".to_vec(),
        payment_id: b"pay1".to_vec(),
        timestamp: b"ts1".to_vec(),
    };
    assert_eq!(ledger_line(&entry), b"id1,pay1,ts1\n".to_vec());
}
