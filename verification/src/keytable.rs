//! The issuer key table: an immutable mapping from derived public-key
//! identifiers to issuer signing keys.
//!
//! The table is built once from raw base64 key material and then only read.
//! Construction is atomic: one malformed key fails the whole build and no
//! table is produced.  The table is keyed by the identifier derived from each
//! key, never by an externally asserted one, and it keeps the raw material
//! each entry was decoded from, so that what a lookup returns is pinned to
//! the key material the table was built over.

use vstd::prelude::*;

use challenge_bypass_ristretto::voprf::SigningKey;

use crate::service;

verus! {

/// Construction failed: the raw key at `index` is malformed.
#[derive(PartialEq, Eq, Structural, Clone, Copy, Debug)]
pub struct KeyDecodeError {
    pub index: usize,
}

/// Byte-string equality.
pub fn bytes_eq(a: &Vec<u8>, b: &Vec<u8>) -> (r: bool)
    ensures
        r == (a@ == b@),
{
    if a.len() != b.len() {
        return false;
    }
    let mut i: usize = 0;
    while i < a.len()
        invariant
            a@.len() == b@.len(),
            i <= a@.len(),
            forall|j: int| 0 <= j < i ==> a@[j] == b@[j],
        decreases a@.len() - i,
    {
        if a[i] != b[i] {
            return false;
        }
        i = i + 1;
    }
    proof {
        assert(a@ =~= b@);
    }
    true
}

/// A copy of a byte string.
fn copy_bytes(src: &Vec<u8>) -> (r: Vec<u8>)
    ensures
        r@ == src@,
{
    let mut r: Vec<u8> = Vec::new();
    let mut i: usize = 0;
    while i < src.len()
        invariant
            i <= src@.len(),
            r@ == src@.take(i as int),
        decreases src@.len() - i,
    {
        r.push(src[i]);
        proof {
            assert(src@.take(i as int).push(src@[i as int]) =~= src@.take(i as int + 1));
        }
        i = i + 1;
    }
    proof {
        assert(src@.take(src@.len() as int) =~= src@);
    }
    r
}

/// The immutable issuer key table.  Each entry holds the derived identifier,
/// the raw key material it came from, and the decoded signing key.
#[derive(Debug)]
pub struct IssuerKeyTable {
    ids: Vec<Vec<u8>>,
    raws: Vec<Vec<u8>>,
    keys: Vec<SigningKey>,
}

impl IssuerKeyTable {
    /// The derived public-key identifiers, in table order.
    pub closed spec fn spec_ids(&self) -> Seq<Seq<u8>> {
        self.ids@.map_values(|v: Vec<u8>| v@)
    }

    /// The raw key material, in table order.
    pub closed spec fn spec_raws(&self) -> Seq<Seq<u8>> {
        self.raws@.map_values(|v: Vec<u8>| v@)
    }

    /// Well-formed: one key per identifier, identifiers unique, and every
    /// identifier is the one derived from that entry's raw key material,
    /// which decodes.
    pub closed spec fn wf(&self) -> bool {
        &&& self.ids@.len() == self.keys@.len()
        &&& self.ids@.len() == self.raws@.len()
        &&& forall|i: int, j: int|
            0 <= i < j < self.spec_ids().len() ==> self.spec_ids()[i] != self.spec_ids()[j]
        &&& forall|i: int|
            0 <= i < self.spec_ids().len() ==> self.spec_ids()[i] == service::derived_key_id(
                #[trigger] self.spec_raws()[i],
            )
        &&& forall|i: int|
            0 <= i < self.spec_ids().len() ==> service::signing_key_decodes(
                #[trigger] self.spec_raws()[i],
            )
    }

    /// Whether an identifier has a key in the table.
    pub open spec fn contains_id(&self, id: Seq<u8>) -> bool {
        self.spec_ids().contains(id)
    }

    /// How many issuer keys the table holds.
    pub closed spec fn spec_len(&self) -> nat {
        self.ids@.len()
    }

    /// The key stored under an identifier that is in the table.
    pub closed spec fn spec_key_for(&self, id: Seq<u8>) -> SigningKey {
        self.keys@[choose|k: int| 0 <= k < self.spec_ids().len() && self.spec_ids()[k] == id]
    }

    /// The raw key material of the entry stored under an identifier that is
    /// in the table.
    pub closed spec fn spec_raw_for(&self, id: Seq<u8>) -> Seq<u8> {
        self.spec_raws()[choose|k: int|
            0 <= k < self.spec_ids().len() && self.spec_ids()[k] == id]
    }

    /// Insert one key under its derived identifier.  A key with an already
    /// present identifier replaces the earlier entry, so identifiers stay
    /// unique.
    fn insert(&mut self, raw: Vec<u8>, id: Vec<u8>, key: SigningKey)
        requires
            old(self).wf(),
            id@ == service::derived_key_id(raw@),
            service::signing_key_decodes(raw@),
        ensures
            final(self).wf(),
            final(self).contains_id(id@),
            final(self).spec_len() <= old(self).spec_len() + 1,
            forall|x: Seq<u8>|
                final(self).contains_id(x) <==> (old(self).contains_id(x) || x == id@),
            final(self).spec_key_for(id@) == key,
            final(self).spec_raw_for(id@) == raw@,
    {
        let ghost pre = *self;
        let ghost rawv = raw@;
        let ghost idv = id@;
        let mut i: usize = 0;
        while i < self.ids.len()
            invariant
                pre == *old(self),
                rawv == raw@,
                idv == id@,
                idv == service::derived_key_id(rawv),
                service::signing_key_decodes(rawv),
                *self == pre,
                pre.wf(),
                i <= pre.spec_ids().len(),
                forall|j: int| 0 <= j < i ==> pre.spec_ids()[j] != id@,
            decreases pre.spec_ids().len() - i,
        {
            if bytes_eq(&self.ids[i], &id) {
                self.raws[i] = raw;
                self.keys[i] = key;
                proof {
                    assert(self.ids@ == pre.ids@);
                    assert(self.spec_ids() =~= pre.spec_ids());
                    assert(self.raws@[i as int]@ == rawv);
                    assert(self.spec_raws() =~= pre.spec_raws().update(i as int, rawv));
                    assert(pre.spec_ids()[i as int] == idv);
                    assert(self.keys@.len() == pre.keys@.len());
                    assert(self.raws@.len() == pre.raws@.len());
                    assert forall|j: int| 0 <= j < self.spec_ids().len() implies self.spec_ids()[j]
                        == service::derived_key_id(#[trigger] self.spec_raws()[j])
                        && service::signing_key_decodes(self.spec_raws()[j]) by {
                        if j == i as int {
                            assert(self.spec_raws()[j] == rawv);
                            assert(self.spec_ids()[j] == idv);
                        } else {
                            assert(self.spec_raws()[j] == pre.spec_raws()[j]);
                        }
                    }
                    assert(forall|x: Seq<u8>|
                        self.contains_id(x) <==> (pre.contains_id(x) || x == id@));
                    let k = choose|k: int|
                        0 <= k < self.spec_ids().len() && self.spec_ids()[k] == id@;
                    if k < i as int {
                        assert(self.spec_ids()[k] != self.spec_ids()[i as int]);
                    } else if (i as int) < k {
                        assert(self.spec_ids()[i as int] != self.spec_ids()[k]);
                    }
                    assert(k == i as int);
                }
                return;
            }
            i = i + 1;
        }
        let ghost old_len = self.ids@.len() as int;
        let ghost old_ids = self.spec_ids();
        self.ids.push(id);
        self.raws.push(raw);
        self.keys.push(key);
        proof {
            assert(self.spec_ids() =~= old_ids.push(id@));
            assert(self.spec_raws() =~= pre.spec_raws().push(raw@));
            assert(self.spec_ids()[old_len] == id@);
            assert forall|x: Seq<u8>|
                self.contains_id(x) <==> (pre.contains_id(x) || x == id@) by {
                if self.contains_id(x) {
                    let k = choose|k: int|
                        0 <= k < self.spec_ids().len() && self.spec_ids()[k] == x;
                    if k < old_len {
                        assert(pre.spec_ids()[k] == x);
                    }
                }
                if pre.contains_id(x) {
                    let k = choose|k: int| 0 <= k < old_ids.len() && old_ids[k] == x;
                    assert(self.spec_ids()[k] == x);
                }
            }
            let k = choose|k: int| 0 <= k < self.spec_ids().len() && self.spec_ids()[k] == id@;
            if k < old_len {
                assert(pre.spec_ids()[k] == id@);
            }
            assert(k == old_len);
        }
    }

    /// Build the table from a list of raw base64 issuer keys.  Atomic: the
    /// first malformed key aborts the whole construction, naming the
    /// offending entry, and no partial table is produced.  On success the
    /// table holds exactly the identifiers derived from the given keys.
    pub fn build(raw_keys: &Vec<Vec<u8>>) -> (r: Result<IssuerKeyTable, KeyDecodeError>)
        ensures
            r is Ok <==> (forall|i: int|
                0 <= i < raw_keys@.len() ==> service::signing_key_decodes(raw_keys@[i]@)),
            r matches Ok(t) ==> t.wf() && t.spec_len() <= raw_keys@.len() && (forall|i: int|
                0 <= i < raw_keys@.len() ==> t.contains_id(
                    service::derived_key_id(raw_keys@[i]@),
                )) && (forall|id: Seq<u8>|
                t.contains_id(id) ==> (exists|i: int|
                    0 <= i < raw_keys@.len() && id == service::derived_key_id(raw_keys@[i]@))),
            r matches Err(e) ==> e.index < raw_keys@.len() && !service::signing_key_decodes(
                raw_keys@[e.index as int]@,
            ) && (forall|j: int|
                0 <= j < e.index ==> service::signing_key_decodes(raw_keys@[j]@)),
    {
        let mut table = IssuerKeyTable { ids: Vec::new(), raws: Vec::new(), keys: Vec::new() };
        proof {
            assert(table.spec_ids() =~= Seq::<Seq<u8>>::empty());
            assert(table.spec_raws() =~= Seq::<Seq<u8>>::empty());
        }
        let mut i: usize = 0;
        while i < raw_keys.len()
            invariant
                table.wf(),
                table.spec_len() <= i,
                i <= raw_keys@.len(),
                forall|j: int| 0 <= j < i ==> service::signing_key_decodes(raw_keys@[j]@),
                forall|j: int|
                    0 <= j < i ==> table.contains_id(
                        service::derived_key_id(#[trigger] raw_keys@[j]@),
                    ),
                forall|id: Seq<u8>|
                    #[trigger] table.contains_id(id) ==> (exists|j: int|
                        0 <= j < i && id == service::derived_key_id(raw_keys@[j]@)),
            decreases raw_keys@.len() - i,
        {
            let raw = copy_bytes(&raw_keys[i]);
            match service::decode_key_and_id(&raw) {
                Some((key, id)) => {
                    let ghost pre = table;
                    table.insert(raw, id, key);
                    proof {
                        assert forall|id2: Seq<u8>| #[trigger]
                            table.contains_id(id2) implies (exists|j: int|
                            0 <= j < i + 1 && id2 == service::derived_key_id(
                                raw_keys@[j]@,
                            )) by {
                            if pre.contains_id(id2) {
                                let j = choose|j: int|
                                    0 <= j < i && id2 == service::derived_key_id(
                                        raw_keys@[j]@,
                                    );
                                assert(0 <= j < i + 1 && id2 == service::derived_key_id(
                                    raw_keys@[j]@,
                                ));
                            } else {
                                assert(id2 == service::derived_key_id(raw_keys@[i as int]@));
                            }
                        }
                    }
                },
                None => {
                    return Err(KeyDecodeError { index: i });
                },
            }
            i = i + 1;
        }
        Ok(table)
    }

    /// Look one identifier up.  A pure read: the table is never changed
    /// after construction, so lookups are safe to share.  What comes back is
    /// the key of the unique entry stored under that identifier.
    pub fn get(&self, id: &Vec<u8>) -> (r: Option<&SigningKey>)
        requires
            self.wf(),
        ensures
            r is Some <==> self.contains_id(id@),
            r matches Some(key) ==> *key == self.spec_key_for(id@),
    {
        match self.find(id) {
            Some(i) => Some(&self.keys[i]),
            None => None,
        }
    }

    /// The raw key material of the entry stored under an identifier: the
    /// identifier derives from it and it decodes, so the verification
    /// service's named answer applies to it.
    pub fn get_raw(&self, id: &Vec<u8>) -> (r: Option<&Vec<u8>>)
        requires
            self.wf(),
        ensures
            r is Some <==> self.contains_id(id@),
            r matches Some(raw) ==> raw@ == self.spec_raw_for(id@) && service::derived_key_id(
                raw@,
            ) == id@ && service::signing_key_decodes(raw@),
    {
        match self.find(id) {
            Some(i) => Some(&self.raws[i]),
            None => None,
        }
    }

    /// The index of the entry stored under an identifier.
    fn find(&self, id: &Vec<u8>) -> (r: Option<usize>)
        requires
            self.wf(),
        ensures
            r is Some <==> self.contains_id(id@),
            r matches Some(i) ==> i < self.spec_ids().len() && self.spec_ids()[i as int] == id@
                && self.keys@[i as int] == self.spec_key_for(id@) && self.spec_raws()[i as int]
                == self.spec_raw_for(id@),
    {
        let mut i: usize = 0;
        while i < self.ids.len()
            invariant
                self.wf(),
                i <= self.spec_ids().len(),
                forall|j: int| 0 <= j < i ==> self.spec_ids()[j] != id@,
            decreases self.spec_ids().len() - i,
        {
            if bytes_eq(&self.ids[i], id) {
                proof {
                    assert(self.spec_ids()[i as int] == id@);
                    let k = choose|k: int|
                        0 <= k < self.spec_ids().len() && self.spec_ids()[k] == id@;
                    if k < i as int {
                        assert(self.spec_ids()[k] != self.spec_ids()[i as int]);
                    } else if (i as int) < k {
                        assert(self.spec_ids()[i as int] != self.spec_ids()[k]);
                    }
                    assert(k == i as int);
                }
                return Some(i);
            }
            i = i + 1;
        }
        proof {
            if self.contains_id(id@) {
                let k = choose|k: int|
                    0 <= k < self.spec_ids().len() && self.spec_ids()[k] == id@;
                assert(self.spec_ids()[k] != id@);
            }
        }
        None
    }
}

/// Augment one row of an issuer key export with the derived public key: the
/// raw signing key in the second column is decoded and its derived public
/// identifier is appended as a new last column.  A malformed key fails the
/// row, naming the column it sat in; nothing else of the row changes.
pub fn augment_key_record(fields: Vec<Vec<u8>>) -> (r: Result<Vec<Vec<u8>>, KeyDecodeError>)
    requires
        fields@.len() >= 2,
    ensures
        r is Ok <==> service::signing_key_decodes(fields@[1]@),
        r matches Ok(out) ==> out@.len() == fields@.len() + 1 && out@.subrange(
            0,
            fields@.len() as int,
        ) == fields@ && out@[fields@.len() as int]@ == service::derived_key_id(fields@[1]@),
        r matches Err(e) ==> e.index == 1,
{
    let ghost orig = fields@;
    match service::decode_key_and_id(&fields[1]) {
        Some((_key, id)) => {
            let mut out = fields;
            out.push(id);
            proof {
                assert(out@.subrange(0, orig.len() as int) =~= orig);
            }
            Ok(out)
        },
        None => Err(KeyDecodeError { index: 1 }),
    }
}

} // verus!
