//! Verification outcomes and the result collector.
//!
//! A worker turns one redemption record into one `VerificationOutcome`; the
//! collector partitions outcomes into the success and failure ledgers.  The
//! partition keeps every outcome exactly once, and its ledger membership
//! depends only on the multiset of outcomes, not on their arrival order.

use vstd::multiset::Multiset;
use vstd::prelude::*;

verus! {

/// Why a record was rejected.
#[derive(PartialEq, Eq, Structural, Clone, Copy, Debug)]
pub enum RejectReason {
    /// The record's claimed issuer public key is not in the key table.
    UnknownIssuer,
    /// The token verification primitives reported a mismatch.
    SignatureMismatch,
}

/// The two-state result of verifying one record.
#[derive(PartialEq, Eq, Structural, Clone, Copy, Debug)]
pub enum OutcomeKind {
    Verified,
    Rejected(RejectReason),
}

/// The correlation fields carried from a record into a ledger entry.
#[derive(Debug)]
pub struct Correlation {
    pub id: Vec<u8>,
    pub payment_id: Vec<u8>,
    pub timestamp: Vec<u8>,
}

/// The mathematical value of one ledger entry.
pub type LedgerEntry = (Seq<u8>, Seq<u8>, Seq<u8>);

impl View for Correlation {
    type V = LedgerEntry;

    open spec fn view(&self) -> LedgerEntry {
        (self.id@, self.payment_id@, self.timestamp@)
    }
}

/// One record's verification result together with its correlation fields.
#[derive(Debug)]
pub struct VerificationOutcome {
    pub kind: OutcomeKind,
    pub corr: Correlation,
}

/// The ledger entry an outcome carries.
pub open spec fn corr_of(o: VerificationOutcome) -> LedgerEntry {
    o.corr@
}

/// The entries that a sequence of outcomes contributes to the success ledger.
pub open spec fn successes(os: Seq<VerificationOutcome>) -> Seq<LedgerEntry> {
    os.filter(|o: VerificationOutcome| o.kind is Verified).map_values(
        |o: VerificationOutcome| corr_of(o),
    )
}

/// The entries that a sequence of outcomes contributes to the failure ledger.
pub open spec fn failures(os: Seq<VerificationOutcome>) -> Seq<LedgerEntry> {
    os.filter(|o: VerificationOutcome| !(o.kind is Verified)).map_values(
        |o: VerificationOutcome| corr_of(o),
    )
}

/// The two append-only output ledgers of one batch run.
#[derive(Debug)]
pub struct Ledgers {
    pub success: Vec<Correlation>,
    pub failure: Vec<Correlation>,
}

/// The ledger entries of one output stream.
pub open spec fn entries(v: Seq<Correlation>) -> Seq<LedgerEntry> {
    v.map_values(|c: Correlation| c@)
}

/// Map the token verification service's answer to an outcome kind: a pass is
/// `Verified`, a fail is a rejection for `SignatureMismatch`.
pub fn classify_verification(pass: bool) -> (k: OutcomeKind)
    ensures
        k == (if pass {
            OutcomeKind::Verified
        } else {
            OutcomeKind::Rejected(RejectReason::SignatureMismatch)
        }),
{
    if pass {
        OutcomeKind::Verified
    } else {
        OutcomeKind::Rejected(RejectReason::SignatureMismatch)
    }
}

/// Drain a finished batch's outcomes, in the order they arrived, into the
/// success and failure ledgers.
pub fn collect_outcomes(outcomes: Vec<VerificationOutcome>) -> (r: Ledgers)
    ensures
        entries(r.success@) == successes(outcomes@),
        entries(r.failure@) == failures(outcomes@),
{
    let mut rest = outcomes;
    let mut success: Vec<Correlation> = Vec::new();
    let mut failure: Vec<Correlation> = Vec::new();
    let ghost all = rest@;
    let ghost done = Seq::<VerificationOutcome>::empty();
    proof {
        reveal(Seq::filter);
        assert(entries(success@) =~= successes(done));
        assert(entries(failure@) =~= failures(done));
        assert(done + rest@ =~= all);
    }
    while rest.len() > 0
        invariant
            done + rest@ == all,
            entries(success@) == successes(done),
            entries(failure@) == failures(done),
        decreases rest@.len(),
    {
        let ghost pre_done = done;
        let ghost pre_success = success@;
        let ghost pre_failure = failure@;
        let o = rest.remove(0);
        proof {
            done = pre_done.push(o);
            assert(done + rest@ =~= all);
        }
        let verified = match o.kind {
            OutcomeKind::Verified => true,
            OutcomeKind::Rejected(_) => false,
        };
        if verified {
            success.push(o.corr);
        } else {
            failure.push(o.corr);
        }
        proof {
            lemma_partition_push(pre_done, o);
            if o.kind is Verified {
                assert(entries(success@) =~= entries(pre_success).push(corr_of(o)));
                assert(entries(failure@) =~= failures(done));
            } else {
                assert(entries(failure@) =~= entries(pre_failure).push(corr_of(o)));
                assert(entries(success@) =~= successes(done));
            }
        }
    }
    proof {
        assert(done =~= all);
    }
    Ledgers { success, failure }
}

/// Appending one outcome appends its entry to exactly one of the two ledger
/// contributions and leaves the other unchanged.
proof fn lemma_partition_push(os: Seq<VerificationOutcome>, o: VerificationOutcome)
    ensures
        o.kind is Verified ==> successes(os.push(o)) == successes(os).push(corr_of(o))
            && failures(os.push(o)) == failures(os),
        !(o.kind is Verified) ==> failures(os.push(o)) == failures(os).push(corr_of(o))
            && successes(os.push(o)) == successes(os),
{
    reveal(Seq::filter);
    let pv = |x: VerificationOutcome| x.kind is Verified;
    let pr = |x: VerificationOutcome| !(x.kind is Verified);
    let f = |x: VerificationOutcome| corr_of(x);
    let w = os.push(o);
    assert(w.drop_last() =~= os);
    assert(w.last() == o);
    if o.kind is Verified {
        assert(w.filter(pv) == os.filter(pv).push(o));
        assert(w.filter(pr) == os.filter(pr));
        assert(w.filter(pv).map_values(f) =~= os.filter(pv).map_values(f).push(corr_of(o)));
    } else {
        assert(w.filter(pr) == os.filter(pr).push(o));
        assert(w.filter(pv) == os.filter(pv));
        assert(w.filter(pr).map_values(f) =~= os.filter(pr).map_values(f).push(corr_of(o)));
    }
}

/// Law: the two ledgers partition the batch.  Their lengths sum to the number
/// of outcomes, and together they hold exactly the multiset of correlation
/// entries that the outcomes carry: no outcome is dropped or duplicated.
pub proof fn lemma_ledger_partition(os: Seq<VerificationOutcome>)
    ensures
        successes(os).len() + failures(os).len() == os.len(),
        successes(os).to_multiset().add(failures(os).to_multiset()) == os.map_values(
            |o: VerificationOutcome| corr_of(o),
        ).to_multiset(),
    decreases os.len(),
{
    broadcast use vstd::seq_lib::group_to_multiset_ensures;

    reveal(Seq::filter);
    let f = |o: VerificationOutcome| corr_of(o);
    if os.len() == 0 {
        assert(os =~= Seq::<VerificationOutcome>::empty());
        assert(successes(os) =~= Seq::<LedgerEntry>::empty());
        assert(failures(os) =~= Seq::<LedgerEntry>::empty());
        assert(os.map_values(f) =~= Seq::<LedgerEntry>::empty());
        assert(successes(os).to_multiset().add(failures(os).to_multiset()) =~= os.map_values(
            f,
        ).to_multiset());
    } else {
        let dl = os.drop_last();
        let x = os.last();
        lemma_ledger_partition(dl);
        assert(dl.push(x) =~= os);
        lemma_partition_push(dl, x);
        assert(os.map_values(f) =~= dl.map_values(f).push(corr_of(x)));
        if x.kind is Verified {
            assert(successes(os).to_multiset() =~= successes(dl).to_multiset().insert(
                corr_of(x),
            ));
        } else {
            assert(failures(os).to_multiset() =~= failures(dl).to_multiset().insert(corr_of(x)));
        }
        assert(successes(os).to_multiset().add(failures(os).to_multiset()) =~= os.map_values(
            f,
        ).to_multiset());
    }
}

/// Law: an outcome that was verified lands in the success ledger.
pub proof fn lemma_verified_lands_in_success(os: Seq<VerificationOutcome>, i: int)
    requires
        0 <= i < os.len(),
        os[i].kind is Verified,
    ensures
        successes(os).contains(corr_of(os[i])),
{
    let pv = |x: VerificationOutcome| x.kind is Verified;
    let f = |x: VerificationOutcome| corr_of(x);
    os.lemma_filter_contains(pv, i);
    let k = choose|k: int| 0 <= k < os.filter(pv).len() && os.filter(pv)[k] == os[i];
    assert(successes(os)[k] == corr_of(os[i]));
}

/// Law: an outcome that was rejected, for whatever reason, lands in the
/// failure ledger.
pub proof fn lemma_rejected_lands_in_failure(os: Seq<VerificationOutcome>, i: int)
    requires
        0 <= i < os.len(),
        !(os[i].kind is Verified),
    ensures
        failures(os).contains(corr_of(os[i])),
{
    let pr = |x: VerificationOutcome| !(x.kind is Verified);
    let f = |x: VerificationOutcome| corr_of(x);
    os.lemma_filter_contains(pr, i);
    let k = choose|k: int| 0 <= k < os.filter(pr).len() && os.filter(pr)[k] == os[i];
    assert(failures(os)[k] == corr_of(os[i]));
}

/// A single outcome contributes its entry to exactly one ledger.
proof fn lemma_partition_singleton(x: VerificationOutcome)
    ensures
        x.kind is Verified ==> successes(seq![x]) == seq![corr_of(x)] && failures(seq![x])
            == Seq::<LedgerEntry>::empty(),
        !(x.kind is Verified) ==> failures(seq![x]) == seq![corr_of(x)] && successes(seq![x])
            == Seq::<LedgerEntry>::empty(),
{
    reveal(Seq::filter);
    let pv = |o: VerificationOutcome| o.kind is Verified;
    let pr = |o: VerificationOutcome| !(o.kind is Verified);
    let s = seq![x];
    assert(s.drop_last() =~= Seq::<VerificationOutcome>::empty());
    assert(s.last() == x);
    assert(Seq::<VerificationOutcome>::empty().filter(pv) =~= Seq::<VerificationOutcome>::empty());
    assert(Seq::<VerificationOutcome>::empty().filter(pr) =~= Seq::<VerificationOutcome>::empty());
    if x.kind is Verified {
        assert(s.filter(pv) =~= seq![x]);
        assert(s.filter(pr) =~= Seq::<VerificationOutcome>::empty());
        assert(successes(s) =~= seq![corr_of(x)]);
        assert(failures(s) =~= Seq::<LedgerEntry>::empty());
    } else {
        assert(s.filter(pr) =~= seq![x]);
        assert(s.filter(pv) =~= Seq::<VerificationOutcome>::empty());
        assert(failures(s) =~= seq![corr_of(x)]);
        assert(successes(s) =~= Seq::<LedgerEntry>::empty());
    }
}

/// The ledger contributions distribute over concatenation of outcome
/// sequences.
proof fn lemma_partition_concat(a: Seq<VerificationOutcome>, b: Seq<VerificationOutcome>)
    ensures
        successes(a + b) == successes(a) + successes(b),
        failures(a + b) == failures(a) + failures(b),
{
    let pv = |o: VerificationOutcome| o.kind is Verified;
    let pr = |o: VerificationOutcome| !(o.kind is Verified);
    let f = |o: VerificationOutcome| corr_of(o);
    Seq::<VerificationOutcome>::filter_distributes_over_add(a, b, pv);
    Seq::<VerificationOutcome>::filter_distributes_over_add(a, b, pr);
    assert((a.filter(pv) + b.filter(pv)).map_values(f) =~= a.filter(pv).map_values(f)
        + b.filter(pv).map_values(f));
    assert((a.filter(pr) + b.filter(pr)).map_values(f) =~= a.filter(pr).map_values(f)
        + b.filter(pr).map_values(f));
}

/// Removing one outcome removes exactly its contribution from the ledger
/// multisets.
proof fn lemma_partition_multiset_remove(b: Seq<VerificationOutcome>, j: int)
    requires
        0 <= j < b.len(),
    ensures
        b[j].kind is Verified ==> successes(b).to_multiset() == successes(
            b.remove(j),
        ).to_multiset().insert(corr_of(b[j])) && failures(b).to_multiset() == failures(
            b.remove(j),
        ).to_multiset(),
        !(b[j].kind is Verified) ==> failures(b).to_multiset() == failures(
            b.remove(j),
        ).to_multiset().insert(corr_of(b[j])) && successes(b).to_multiset() == successes(
            b.remove(j),
        ).to_multiset(),
{
    broadcast use vstd::seq_lib::group_to_multiset_ensures;

    let x = b[j];
    let left = b.take(j);
    let right = b.skip(j + 1);
    assert(b =~= (left + seq![x]) + right);
    assert(b.remove(j) =~= left + right);
    lemma_partition_concat(left + seq![x], right);
    lemma_partition_concat(left, seq![x]);
    lemma_partition_concat(left, right);
    lemma_partition_singleton(x);
    vstd::seq_lib::lemma_multiset_commutative(successes(left) + successes(seq![x]), successes(right));
    vstd::seq_lib::lemma_multiset_commutative(successes(left), successes(seq![x]));
    vstd::seq_lib::lemma_multiset_commutative(successes(left), successes(right));
    vstd::seq_lib::lemma_multiset_commutative(failures(left) + failures(seq![x]), failures(right));
    vstd::seq_lib::lemma_multiset_commutative(failures(left), failures(seq![x]));
    vstd::seq_lib::lemma_multiset_commutative(failures(left), failures(right));
    assert(successes(b) == (successes(left) + successes(seq![x])) + successes(right));
    assert(failures(b) == (failures(left) + failures(seq![x])) + failures(right));
    if x.kind is Verified {
        assert(seq![corr_of(x)].to_multiset() =~= Multiset::<LedgerEntry>::empty().insert(
            corr_of(x),
        )) by {
            assert(seq![corr_of(x)] =~= Seq::<LedgerEntry>::empty().push(corr_of(x)));
        }
        assert(successes(b).to_multiset() =~= successes(b.remove(j)).to_multiset().insert(
            corr_of(x),
        ));
        assert(failures(b).to_multiset() =~= failures(b.remove(j)).to_multiset());
    } else {
        assert(seq![corr_of(x)].to_multiset() =~= Multiset::<LedgerEntry>::empty().insert(
            corr_of(x),
        )) by {
            assert(seq![corr_of(x)] =~= Seq::<LedgerEntry>::empty().push(corr_of(x)));
        }
        assert(failures(b).to_multiset() =~= failures(b.remove(j)).to_multiset().insert(
            corr_of(x),
        ));
        assert(successes(b).to_multiset() =~= successes(b.remove(j)).to_multiset());
    }
}

/// Law: ledger membership does not depend on the order outcomes arrive in.
/// Two runs of the same batch that produce the same multiset of outcomes --
/// for instance one worker against many workers, finishing in any order --
/// fill the two ledgers with the same multisets of entries.
pub proof fn lemma_ledger_order_independent(
    a: Seq<VerificationOutcome>,
    b: Seq<VerificationOutcome>,
)
    requires
        a.to_multiset() == b.to_multiset(),
    ensures
        successes(a).to_multiset() == successes(b).to_multiset(),
        failures(a).to_multiset() == failures(b).to_multiset(),
    decreases a.len(),
{
    broadcast use vstd::seq_lib::group_to_multiset_ensures;

    if a.len() == 0 {
        assert(a.to_multiset().len() == a.len());
        assert(b.to_multiset().len() == b.len());
        assert(a =~= b);
    } else {
        let x = a.last();
        let a1 = a.drop_last();
        assert(a1.push(x) =~= a);
        assert(a1.push(x).to_multiset() == a1.to_multiset().insert(x));
        assert(a.contains(x));
        assert(b.to_multiset().count(x) > 0);
        assert(b.contains(x));
        let j = choose|j: int| 0 <= j < b.len() && b[j] == x;
        let b1 = b.remove(j);
        assert(b.remove(j).to_multiset() =~= b.to_multiset().remove(x));
        assert(a.remove(a.len() - 1) =~= a1);
        assert(a.remove(a.len() - 1).to_multiset() =~= a.to_multiset().remove(x));
        assert(a1.to_multiset() == b1.to_multiset());
        lemma_ledger_order_independent(a1, b1);
        lemma_partition_multiset_remove(a, a.len() - 1);
        lemma_partition_multiset_remove(b, j);
    }
}

/// Fewer outcomes arrived than records were submitted: the batch must not
/// finalize on a short count.
#[derive(PartialEq, Eq, Structural, Clone, Copy, Debug)]
pub struct DeliveryShortfall {
    pub expected: usize,
    pub received: usize,
}

/// Gate finalization on completeness: the collector knows the batch size up
/// front and refuses to finalize unless every submitted record delivered an
/// outcome.
pub fn confirm_delivery(expected: usize, received: usize) -> (r: Result<(), DeliveryShortfall>)
    ensures
        r is Ok <==> received == expected,
        r matches Err(e) ==> e.expected == expected && e.received == received,
{
    if received == expected {
        Ok(())
    } else {
        Err(DeliveryShortfall { expected, received })
    }
}

/// Render one ledger entry as an output line: the three correlation fields
/// joined by commas, with a trailing newline.
pub fn ledger_line(entry: &Correlation) -> (r: Vec<u8>)
    ensures
        r@ == entry.id@ + seq![44u8] + entry.payment_id@ + seq![44u8] + entry.timestamp@
            + seq![10u8],
{
    let mut line: Vec<u8> = Vec::new();
    push_all(&mut line, &entry.id);
    line.push(44);
    push_all(&mut line, &entry.payment_id);
    line.push(44);
    push_all(&mut line, &entry.timestamp);
    line.push(10);
    proof {
        assert(line@ =~= entry.id@ + seq![44u8] + entry.payment_id@ + seq![44u8]
            + entry.timestamp@ + seq![10u8]);
    }
    line
}

/// Append a byte string to an output buffer.
fn push_all(dst: &mut Vec<u8>, src: &Vec<u8>)
    ensures
        final(dst)@ == old(dst)@ + src@,
{
    let ghost pre = dst@;
    let mut i: usize = 0;
    while i < src.len()
        invariant
            i <= src@.len(),
            dst@ == pre + src@.take(i as int),
        decreases src@.len() - i,
    {
        dst.push(src[i]);
        proof {
            assert(pre + src@.take(i as int) + seq![src@[i as int]] =~= pre + src@.take(
                i as int + 1,
            ));
        }
        i = i + 1;
    }
    proof {
        assert(pre + src@.take(src@.len() as int) =~= pre + src@);
    }
}

} // verus!
