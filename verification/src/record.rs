//! The redemption record model and the record decoder.
//!
//! One input row is a flat delimited line of four columns: id, payment id,
//! escaped credential column, timestamp.  The credential column nests a
//! structured field that was serialized with the outer delimiter, so it is
//! unescaped first and then parsed as structured data.

use vstd::prelude::*;

use crate::codec;
use crate::service;

verus! {

/// The embedded credential of one redemption record, as plain byte strings.
/// The token preimage and the signature stay in their base64 text form until
/// the verification step decodes them.
#[derive(Debug)]
pub struct Credential {
    pub issuer_public_key: Vec<u8>,
    pub token_preimage: Vec<u8>,
    pub payload: Vec<u8>,
    pub signature: Vec<u8>,
    /// An accounting field carried through unchanged; the verification
    /// decision never reads it.
    pub value: Vec<u8>,
}

/// One decoded redemption record: correlation fields plus the credential.
#[derive(Debug)]
pub struct RedemptionRecord {
    pub id: Vec<u8>,
    pub payment_id: Vec<u8>,
    pub timestamp: Vec<u8>,
    pub credential: Credential,
}

impl RedemptionRecord {
    /// The correlation fields this record contributes to a ledger.
    pub open spec fn corr_spec(&self) -> crate::outcome::LedgerEntry {
        (self.id@, self.payment_id@, self.timestamp@)
    }
}

/// Why one input row could not be decoded.
#[derive(PartialEq, Eq, Structural, Clone, Copy, Debug)]
pub enum RecordFormatError {
    /// The row does not have exactly the four expected columns.
    WrongColumnCount,
    /// The credential column, once unescaped, is not a well-formed
    /// credential object.
    MalformedCredential,
}

/// Whether one row decodes into a redemption record: four columns, a
/// credential column that unescapes and parses, and token preimage and
/// signature fields in well-formed base64.
pub open spec fn row_decodes(row: Seq<Vec<u8>>) -> bool {
    &&& row.len() == 4
    &&& service::credential_column_parse(codec::spec_unescape(row[2]@)) matches Some(p)
        && service::token_preimage_decodes(p.1) && service::verification_signature_decodes(p.3)
}

/// The correlation fields of one raw row.
pub open spec fn row_corr(row: Seq<Vec<u8>>) -> crate::outcome::LedgerEntry {
    (row[0]@, row[1]@, row[3]@)
}

/// The credential fields a raw row claims, assuming its credential column
/// parses: `(issuer public key, token preimage, payload, signature, value)`.
pub open spec fn row_credential(row: Seq<Vec<u8>>) -> (Seq<u8>, Seq<u8>, Seq<u8>, Seq<u8>, Seq<
    u8,
>) {
    service::credential_column_parse(codec::spec_unescape(row[2]@))->Some_0
}

/// The issuer public key a raw row claims, assuming its credential column
/// parses.
pub open spec fn row_claimed_issuer(row: Seq<Vec<u8>>) -> Seq<u8> {
    row_credential(row).0
}

/// Decode one input row into a redemption record.  Decoding is pure: a
/// failure names this row and leaves everything else untouched.
pub fn decode_record(row: Vec<Vec<u8>>) -> (r: Result<RedemptionRecord, RecordFormatError>)
    ensures
        r is Ok <==> row_decodes(row@),
        r == Err::<RedemptionRecord, _>(RecordFormatError::WrongColumnCount) <==> row@.len()
            != 4,
        r matches Ok(rec) ==> rec.id@ == row@[0]@ && rec.payment_id@ == row@[1]@
            && rec.timestamp@ == row@[3]@ && (service::credential_column_parse(
            codec::spec_unescape(row@[2]@),
        ) matches Some(p) && rec.credential.issuer_public_key@ == p.0
            && rec.credential.token_preimage@ == p.1 && rec.credential.payload@ == p.2
            && rec.credential.signature@ == p.3 && rec.credential.value@ == p.4),
{
    if row.len() != 4 {
        return Err(RecordFormatError::WrongColumnCount);
    }
    let mut row = row;
    let id = row.remove(0);
    let payment_id = row.remove(0);
    let raw_credential = row.remove(0);
    let timestamp = row.remove(0);
    let unescaped = codec::unescape_credential_field(&raw_credential);
    match service::parse_credential_column(&unescaped) {
        Some(credential) => {
            if service::decode_token_preimage(&credential.token_preimage).is_none() {
                return Err(RecordFormatError::MalformedCredential);
            }
            if service::decode_verification_signature(&credential.signature).is_none() {
                return Err(RecordFormatError::MalformedCredential);
            }
            Ok(RedemptionRecord { id, payment_id, timestamp, credential })
        },
        None => Err(RecordFormatError::MalformedCredential),
    }
}

} // verus!
