//! The batch verification pipeline: per-record classification, the dispatch
//! loop over a whole batch, and the end-to-end run from raw rows to ledgers.
//!
//! Each record is classified independently against the shared read-only key
//! table, so outcomes may be computed in any order; the ledgers a batch ends
//! with depend only on which outcomes were produced, not on that order.

use vstd::prelude::*;

use crate::keytable::IssuerKeyTable;
use crate::outcome;
use crate::outcome::Correlation;
use crate::outcome::Ledgers;
use crate::outcome::OutcomeKind;
use crate::outcome::RejectReason;
use crate::outcome::VerificationOutcome;
use crate::outcome::collect_outcomes;
use crate::outcome::corr_of;
use crate::outcome::entries;
use crate::record::RecordFormatError;
use crate::record::RedemptionRecord;
use crate::record::decode_record;
use crate::record::row_claimed_issuer;
use crate::record::row_corr;
use crate::record::row_credential;
use crate::record::row_decodes;
use crate::service;

verus! {

/// Whether the token verification service passes this record against the
/// key the table stores under the record's claimed issuer identifier.
pub open spec fn record_passes(table: &IssuerKeyTable, record: &RedemptionRecord) -> bool {
    service::verification_passes(
        table.spec_raw_for(record.credential.issuer_public_key@),
        record.credential.token_preimage@,
        record.credential.payload@,
        record.credential.signature@,
    )
}

/// Whether a record's token preimage and signature fields are well-formed
/// base64, so that the verification service can be consulted at all.
pub open spec fn record_well_encoded(record: &RedemptionRecord) -> bool {
    service::token_preimage_decodes(record.credential.token_preimage@)
        && service::verification_signature_decodes(record.credential.signature@)
}

/// Classify one redemption record against the key table: an unknown issuer
/// is rejected outright; otherwise the token verification service decides,
/// and its answer alone decides between `Verified` and `SignatureMismatch`.
pub fn process_record(table: &IssuerKeyTable, record: RedemptionRecord) -> (o:
    VerificationOutcome)
    requires
        table.wf(),
    ensures
        corr_of(o) == record.corr_spec(),
        o.kind == OutcomeKind::Rejected(RejectReason::UnknownIssuer) <==> !table.contains_id(
            record.credential.issuer_public_key@,
        ),
        table.contains_id(record.credential.issuer_public_key@) ==> o.kind
            == OutcomeKind::Verified || o.kind == OutcomeKind::Rejected(
            RejectReason::SignatureMismatch,
        ),
        table.contains_id(record.credential.issuer_public_key@) && !record_well_encoded(&record)
            ==> o.kind == OutcomeKind::Rejected(RejectReason::SignatureMismatch),
        table.contains_id(record.credential.issuer_public_key@) && record_well_encoded(&record)
            ==> (o.kind == OutcomeKind::Verified <==> record_passes(table, &record)),
{
    let ghost rec = record;
    let corr = Correlation {
        id: record.id,
        payment_id: record.payment_id,
        timestamp: record.timestamp,
    };
    let credential = record.credential;
    let kind = match table.get_raw(&credential.issuer_public_key) {
        None => OutcomeKind::Rejected(RejectReason::UnknownIssuer),
        Some(raw) => {
            match service::verify_redemption(
                raw,
                &credential.token_preimage,
                &credential.payload,
                &credential.signature,
            ) {
                None => OutcomeKind::Rejected(RejectReason::SignatureMismatch),
                Some(pass) => outcome::classify_verification(pass),
            }
        },
    };
    VerificationOutcome { kind, corr }
}

/// The dispatch loop: turn every record of the batch into exactly one
/// outcome, in submission order.
pub fn process_records(table: &IssuerKeyTable, records: Vec<RedemptionRecord>) -> (os: Vec<
    VerificationOutcome,
>)
    requires
        table.wf(),
    ensures
        os@.len() == records@.len(),
        forall|i: int|
            0 <= i < records@.len() ==> corr_of(os@[i]) == records@[i].corr_spec(),
        forall|i: int|
            0 <= i < records@.len() ==> (os@[i].kind == OutcomeKind::Rejected(
                RejectReason::UnknownIssuer,
            ) <==> !table.contains_id(records@[i].credential.issuer_public_key@)),
        forall|i: int|
            0 <= i < records@.len() ==> (table.contains_id(
                records@[i].credential.issuer_public_key@,
            ) ==> os@[i].kind == OutcomeKind::Verified || os@[i].kind == OutcomeKind::Rejected(
                RejectReason::SignatureMismatch,
            )),
        forall|i: int|
            0 <= i < records@.len() ==> (table.contains_id(
                records@[i].credential.issuer_public_key@,
            ) && record_well_encoded(&records@[i]) ==> (os@[i].kind == OutcomeKind::Verified
                <==> record_passes(table, &records@[i]))),
{
    let ghost all = records@;
    let mut rest = records;
    let mut os: Vec<VerificationOutcome> = Vec::new();
    while rest.len() > 0
        invariant
            table.wf(),
            os@.len() + rest@.len() == all.len(),
            rest@ == all.skip(os@.len() as int),
            forall|i: int| 0 <= i < os@.len() ==> corr_of(os@[i]) == all[i].corr_spec(),
            forall|i: int|
                0 <= i < os@.len() ==> (os@[i].kind == OutcomeKind::Rejected(
                    RejectReason::UnknownIssuer,
                ) <==> !table.contains_id(all[i].credential.issuer_public_key@)),
            forall|i: int|
                0 <= i < os@.len() ==> (table.contains_id(all[i].credential.issuer_public_key@)
                    ==> os@[i].kind == OutcomeKind::Verified || os@[i].kind
                    == OutcomeKind::Rejected(RejectReason::SignatureMismatch)),
            forall|i: int|
                0 <= i < os@.len() ==> (table.contains_id(all[i].credential.issuer_public_key@)
                    && record_well_encoded(&all[i]) ==> (os@[i].kind == OutcomeKind::Verified
                    <==> record_passes(table, &all[i]))),
        decreases rest@.len(),
    {
        let ghost k = os@.len();
        proof {
            assert(rest@[0] == all[k as int]);
        }
        let record = rest.remove(0);
        let o = process_record(table, record);
        os.push(o);
        proof {
            assert(rest@ =~= all.skip(k as int + 1));
        }
    }
    proof {
        assert(all.skip(os@.len() as int).len() == 0);
    }
    os
}

/// Process a batch of already decoded records: every record yields exactly
/// one outcome, and the collector partitions the outcomes into the two
/// ledgers.  No record is dropped or duplicated; an unknown issuer lands in
/// the failure ledger, and for a well-encoded record with a known issuer
/// the verification service's answer alone picks the ledger.
pub fn process_batch(table: &IssuerKeyTable, records: Vec<RedemptionRecord>) -> (l: Ledgers)
    requires
        table.wf(),
    ensures
        entries(l.success@).len() + entries(l.failure@).len() == records@.len(),
        entries(l.success@).to_multiset().add(entries(l.failure@).to_multiset())
            == records@.map_values(|rec: RedemptionRecord| rec.corr_spec()).to_multiset(),
        forall|i: int|
            0 <= i < records@.len() && !table.contains_id(
                records@[i].credential.issuer_public_key@,
            ) ==> entries(l.failure@).contains(records@[i].corr_spec()),
        forall|i: int|
            0 <= i < records@.len() && table.contains_id(
                records@[i].credential.issuer_public_key@,
            ) && record_well_encoded(&records@[i]) && record_passes(table, &records@[i])
                ==> entries(l.success@).contains(records@[i].corr_spec()),
        forall|i: int|
            0 <= i < records@.len() && table.contains_id(
                records@[i].credential.issuer_public_key@,
            ) && record_well_encoded(&records@[i]) && !record_passes(table, &records@[i])
                ==> entries(l.failure@).contains(records@[i].corr_spec()),
{
    let os = process_records(table, records);
    let ghost osv = os@;
    let l = collect_outcomes(os);
    proof {
        outcome::lemma_ledger_partition(osv);
        assert(osv.map_values(|o: VerificationOutcome| corr_of(o)) =~= records@.map_values(
            |rec: RedemptionRecord| rec.corr_spec(),
        ));
        assert forall|i: int|
            0 <= i < records@.len() && !table.contains_id(
                records@[i].credential.issuer_public_key@,
            ) implies entries(l.failure@).contains(records@[i].corr_spec()) by {
            outcome::lemma_rejected_lands_in_failure(osv, i);
        }
        assert forall|i: int|
            0 <= i < records@.len() && table.contains_id(
                records@[i].credential.issuer_public_key@,
            ) && record_well_encoded(&records@[i]) && record_passes(
                table,
                &records@[i],
            ) implies entries(l.success@).contains(records@[i].corr_spec()) by {
            assert(osv[i].kind == OutcomeKind::Verified);
            outcome::lemma_verified_lands_in_success(osv, i);
        }
        assert forall|i: int|
            0 <= i < records@.len() && table.contains_id(
                records@[i].credential.issuer_public_key@,
            ) && record_well_encoded(&records@[i]) && !record_passes(
                table,
                &records@[i],
            ) implies entries(l.failure@).contains(records@[i].corr_spec()) by {
            assert(osv[i].kind != OutcomeKind::Verified);
            outcome::lemma_rejected_lands_in_failure(osv, i);
        }
    }
    l
}

/// One row of the batch could not be decoded.
#[derive(PartialEq, Eq, Structural, Clone, Copy, Debug)]
pub struct RowDecodeError {
    pub row: usize,
    pub error: RecordFormatError,
}

/// Whether the verification service passes a raw row against the key the
/// table stores under the row's claimed issuer identifier.
pub open spec fn row_passes(table: &IssuerKeyTable, row: Seq<Vec<u8>>) -> bool {
    service::verification_passes(
        table.spec_raw_for(row_claimed_issuer(row)),
        row_credential(row).1,
        row_credential(row).2,
        row_credential(row).3,
    )
}

/// Run a whole batch from raw rows to ledgers.  A malformed row is fatal to
/// the run, naming the first offending row; otherwise every row lands in
/// exactly one ledger: rows with an unknown issuer or a failing verification
/// in the failure ledger, rows the verification service passes in the
/// success ledger.
pub fn run_batch(table: &IssuerKeyTable, rows: Vec<Vec<Vec<u8>>>) -> (r: Result<
    Ledgers,
    RowDecodeError,
>)
    requires
        table.wf(),
    ensures
        r is Ok <==> (forall|i: int| 0 <= i < rows@.len() ==> row_decodes(rows@[i]@)),
        r matches Err(e) ==> e.row < rows@.len() && !row_decodes(rows@[e.row as int]@) && (
        forall|j: int| 0 <= j < e.row ==> row_decodes(rows@[j]@)) && (e.error
            == RecordFormatError::WrongColumnCount <==> rows@[e.row as int]@.len() != 4),
        r matches Ok(l) ==> entries(l.success@).len() + entries(l.failure@).len()
            == rows@.len() && entries(l.success@).to_multiset().add(
            entries(l.failure@).to_multiset(),
        ) == rows@.map_values(|row: Vec<Vec<u8>>| row_corr(row@)).to_multiset() && (forall|
            i: int,
        |
            0 <= i < rows@.len() && !table.contains_id(row_claimed_issuer(rows@[i]@))
                ==> entries(l.failure@).contains(row_corr(rows@[i]@))) && (forall|i: int|
            0 <= i < rows@.len() && table.contains_id(row_claimed_issuer(rows@[i]@))
                && row_passes(table, rows@[i]@) ==> entries(l.success@).contains(
                row_corr(rows@[i]@),
            )) && (forall|i: int|
            0 <= i < rows@.len() && table.contains_id(row_claimed_issuer(rows@[i]@))
                && !row_passes(table, rows@[i]@) ==> entries(l.failure@).contains(
                row_corr(rows@[i]@),
            )),
{
    let ghost all = rows@;
    let mut rest = rows;
    let mut records: Vec<RedemptionRecord> = Vec::new();
    let mut row_index: usize = 0;
    while rest.len() > 0
        invariant
            all == rows@,
            table.wf(),
            records@.len() == row_index,
            row_index + rest@.len() == all.len(),
            rest@ == all.skip(row_index as int),
            forall|j: int| 0 <= j < row_index ==> row_decodes(all[j]@),
            forall|j: int|
                0 <= j < row_index ==> records@[j].corr_spec() == row_corr(all[j]@)
                    && records@[j].credential.issuer_public_key@ == row_claimed_issuer(all[j]@),
            forall|j: int|
                0 <= j < row_index ==> records@[j].credential.token_preimage@ == row_credential(
                    all[j]@,
                ).1 && records@[j].credential.payload@ == row_credential(all[j]@).2
                    && records@[j].credential.signature@ == row_credential(all[j]@).3,
        decreases rest@.len(),
    {
        proof {
            assert(rest@[0] == all[row_index as int]);
        }
        let row = rest.remove(0);
        match decode_record(row) {
            Ok(rec) => {
                records.push(rec);
            },
            Err(error) => {
                proof {
                    assert(row@ == all[row_index as int]@);
                    assert(!row_decodes(all[row_index as int]@));
                }
                return Err(RowDecodeError { row: row_index, error });
            },
        }
        proof {
            assert(rest@ =~= all.skip(row_index as int + 1));
        }
        row_index = records.len();
    }
    proof {
        assert(all.skip(row_index as int).len() == 0);
    }
    let ghost recs = records@;
    let l = process_batch(table, records);
    proof {
        assert(recs.map_values(|rec: RedemptionRecord| rec.corr_spec()) =~= all.map_values(
            |row: Vec<Vec<u8>>| row_corr(row@),
        ));
        assert forall|i: int|
            0 <= i < all.len() && !table.contains_id(row_claimed_issuer(all[i]@)) implies entries(
            l.failure@,
        ).contains(row_corr(all[i]@)) by {
            assert(recs[i].credential.issuer_public_key@ == row_claimed_issuer(all[i]@));
            assert(recs[i].corr_spec() == row_corr(all[i]@));
            assert(!table.contains_id(recs[i].credential.issuer_public_key@));
        }
        assert forall|i: int|
            0 <= i < all.len() && table.contains_id(row_claimed_issuer(all[i]@)) && row_passes(
                table,
                all[i]@,
            ) implies entries(l.success@).contains(row_corr(all[i]@)) by {
            assert(record_well_encoded(&recs[i]));
            assert(record_passes(table, &recs[i]));
        }
        assert forall|i: int|
            0 <= i < all.len() && table.contains_id(row_claimed_issuer(all[i]@)) && !row_passes(
                table,
                all[i]@,
            ) implies entries(l.failure@).contains(row_corr(all[i]@)) by {
            assert(record_well_encoded(&recs[i]));
            assert(!record_passes(table, &recs[i]));
        }
    }
    Ok(l)
}

} // verus!
