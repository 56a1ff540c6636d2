use challenge_bypass_ristretto::voprf::SigningKey;

use redemption_batch::keytable::IssuerKeyTable;
use redemption_batch::keytable::augment_key_record;
use redemption_batch::keytable::bytes_eq;

fn random_key_base64() -> String {
    let mut rng = rand::rngs::OsRng;
    SigningKey::random(&mut rng).encode_base64()
}

fn derived_public_id(raw: &str) -> Vec<u8> {
    SigningKey::decode_base64(raw)
        .unwrap()
        .public_key
        .encode_base64()
        .into_bytes()
}

#[test]
fn build_and_lookup_by_derived_id() {
    let raw = random_key_base64();
    let table = IssuerKeyTable::build(&vec![raw.clone().into_bytes()]).unwrap();
    assert!(table.get(&derived_public_id(&raw)).is_some());
    assert!(table.get(&b"bm90IGEga2V5".to_vec()).is_none());
}

#[test]
fn build_with_one_malformed_key_fails_whole() {
    // a 3-key list with the 2nd malformed yields no table at all
    let good_a = random_key_base64().into_bytes();
    let good_b = random_key_base64().into_bytes();
    let raw_keys = vec![good_a, b"not base64!".to_vec(), good_b];
    let err = IssuerKeyTable::build(&raw_keys).unwrap_err();
    assert_eq!(err.index, 1);
}

#[test]
fn build_accepts_every_well_formed_key() {
    let raw_keys = vec![
        random_key_base64().into_bytes(),
        random_key_base64().into_bytes(),
        random_key_base64().into_bytes(),
    ];
    let table = IssuerKeyTable::build(&raw_keys).unwrap();
    for raw in &raw_keys {
        let id = derived_public_id(std::str::from_utf8(raw).unwrap());
        assert!(table.get(&id).is_some());
    }
}

#[test]
fn duplicate_key_material_keeps_one_entry_per_identifier() {
    let raw = random_key_base64();
    let raw_keys = vec![raw.clone().into_bytes(), raw.clone().into_bytes()];
    let table = IssuerKeyTable::build(&raw_keys).unwrap();
    assert!(table.get(&derived_public_id(&raw)).is_some());
}

#[test]
fn augment_appends_derived_public_key() {
    let raw = random_key_base64();
    let row = vec![b"issuer-1".to_vec(), raw.clone().into_bytes()];
    let out = augment_key_record(row.clone()).unwrap();
    assert_eq!(out.len(), 3);
    assert_eq!(out[0], row[0]);
    assert_eq!(out[1], row[1]);
    assert_eq!(out[2], derived_public_id(&raw));
}

#[test]
fn augment_rejects_malformed_key() {
    let row = vec![b"issuer-1".to_vec(), b"###".to_vec()];
    let err = augment_key_record(row).unwrap_err();
    assert_eq!(err.index, 1);
}

#[test]
fn bytes_eq_compares_contents() {
    assert!(bytes_eq(&b"abc".to_vec(), &b"abc".to_vec()));
    assert!(!bytes_eq(&b"abc".to_vec(), &b"abd".to_vec()));
    assert!(!bytes_eq(&b"abc".to_vec(), &b"ab".to_vec()));
}

#[test]
fn lookup_returns_the_stored_raw_key_material() {
    let raw = random_key_base64();
    let table = IssuerKeyTable::build(&vec![raw.clone().into_bytes()]).unwrap();
    let got = table.get_raw(&derived_public_id(&raw)).unwrap();
    assert_eq!(got, &raw.into_bytes());
}
