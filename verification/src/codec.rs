//! Escape codec for nesting a structured credential column inside the flat
//! delimited record format.
//!
//! The nested column was serialized with the same delimiter as the outer
//! format, so every delimiter byte and every escape byte inside it is
//! preceded by an escape byte.  Decoding removes the escapes in two passes,
//! first the escaped delimiters, then the doubled escape bytes.

use vstd::prelude::*;

verus! {

/// The escape byte, `\`.
pub const ESCAPE_BYTE: u8 = 92;

/// The delimiter byte that must be escaped inside a nested column, `,`.
pub const DELIMITER_BYTE: u8 = 44;

/// Escape a byte string for embedding as one column of the flat format:
/// each delimiter byte and each escape byte gets an escape byte before it.
pub open spec fn spec_escape(s: Seq<u8>) -> Seq<u8>
    decreases s.len(),
{
    if s.len() == 0 {
        Seq::empty()
    } else if s[0] == ESCAPE_BYTE || s[0] == DELIMITER_BYTE {
        seq![ESCAPE_BYTE, s[0]] + spec_escape(s.drop_first())
    } else {
        seq![s[0]] + spec_escape(s.drop_first())
    }
}

/// First decoding pass: every escape byte directly followed by a delimiter
/// byte is dropped, keeping the delimiter.
pub open spec fn spec_unescape_delimiters(s: Seq<u8>) -> Seq<u8>
    decreases s.len(),
{
    if s.len() == 0 {
        Seq::empty()
    } else if s.len() >= 2 && s[0] == ESCAPE_BYTE && s[1] == DELIMITER_BYTE {
        seq![DELIMITER_BYTE] + spec_unescape_delimiters(s.skip(2))
    } else {
        seq![s[0]] + spec_unescape_delimiters(s.drop_first())
    }
}

/// Second decoding pass: every pair of escape bytes becomes a single one.
pub open spec fn spec_unescape_escapes(s: Seq<u8>) -> Seq<u8>
    decreases s.len(),
{
    if s.len() == 0 {
        Seq::empty()
    } else if s.len() >= 2 && s[0] == ESCAPE_BYTE && s[1] == ESCAPE_BYTE {
        seq![ESCAPE_BYTE] + spec_unescape_escapes(s.skip(2))
    } else {
        seq![s[0]] + spec_unescape_escapes(s.drop_first())
    }
}

/// Full decoding of an escaped column: both passes, in order.
pub open spec fn spec_unescape(s: Seq<u8>) -> Seq<u8> {
    spec_unescape_escapes(spec_unescape_delimiters(s))
}

/// Escape one column for embedding in the flat format.
pub fn escape_credential_field(s: &Vec<u8>) -> (r: Vec<u8>)
    ensures
        r@ == spec_escape(s@),
{
    let mut r: Vec<u8> = Vec::new();
    let mut i: usize = 0;
    proof {
        assert(s@.skip(0) =~= s@);
        assert(r@ + spec_escape(s@) =~= spec_escape(s@));
    }
    while i < s.len()
        invariant
            i <= s@.len(),
            spec_escape(s@) == r@ + spec_escape(s@.skip(i as int)),
        decreases s@.len() - i,
    {
        let ghost pre = r@;
        let ghost tail = s@.skip(i as int);
        proof {
            assert(tail.len() > 0);
            assert(tail[0] == s@[i as int]);
            assert(tail.drop_first() =~= s@.skip(i as int + 1));
        }
        let c = s[i];
        if c == ESCAPE_BYTE || c == DELIMITER_BYTE {
            r.push(ESCAPE_BYTE);
            r.push(c);
            proof {
                assert(r@ =~= pre + seq![ESCAPE_BYTE, c]);
                assert(pre + spec_escape(tail) =~= r@ + spec_escape(s@.skip(i as int + 1)));
            }
        } else {
            r.push(c);
            proof {
                assert(r@ =~= pre + seq![c]);
                assert(pre + spec_escape(tail) =~= r@ + spec_escape(s@.skip(i as int + 1)));
            }
        }
        i = i + 1;
    }
    proof {
        assert(s@.skip(s@.len() as int) =~= Seq::<u8>::empty());
        assert(spec_escape(s@) =~= r@);
    }
    r
}

/// First decoding pass over one escaped column.
fn unescape_delimiters(s: &Vec<u8>) -> (r: Vec<u8>)
    ensures
        r@ == spec_unescape_delimiters(s@),
{
    let mut r: Vec<u8> = Vec::new();
    let mut i: usize = 0;
    proof {
        assert(s@.skip(0) =~= s@);
        assert(r@ + spec_unescape_delimiters(s@) =~= spec_unescape_delimiters(s@));
    }
    while i < s.len()
        invariant
            i <= s@.len(),
            spec_unescape_delimiters(s@) == r@ + spec_unescape_delimiters(s@.skip(i as int)),
        decreases s@.len() - i,
    {
        let ghost pre = r@;
        let ghost tail = s@.skip(i as int);
        proof {
            assert(tail.len() > 0);
            assert(tail[0] == s@[i as int]);
            assert(tail.drop_first() =~= s@.skip(i as int + 1));
        }
        let c = s[i];
        if c == ESCAPE_BYTE && i + 1 < s.len() && s[i + 1] == DELIMITER_BYTE {
            proof {
                assert(tail.len() >= 2);
                assert(tail[1] == s@[i as int + 1]);
                assert(tail.skip(2) =~= s@.skip(i as int + 2));
            }
            r.push(DELIMITER_BYTE);
            proof {
                assert(r@ =~= pre + seq![DELIMITER_BYTE]);
                assert(pre + spec_unescape_delimiters(tail) =~= r@ + spec_unescape_delimiters(
                    s@.skip(i as int + 2),
                ));
            }
            i = i + 2;
        } else {
            r.push(c);
            proof {
                assert(r@ =~= pre + seq![c]);
                assert(pre + spec_unescape_delimiters(tail) =~= r@ + spec_unescape_delimiters(
                    s@.skip(i as int + 1),
                ));
            }
            i = i + 1;
        }
    }
    proof {
        assert(s@.skip(s@.len() as int) =~= Seq::<u8>::empty());
        assert(spec_unescape_delimiters(s@) =~= r@);
    }
    r
}

/// Second decoding pass over one escaped column.
fn unescape_escapes(s: &Vec<u8>) -> (r: Vec<u8>)
    ensures
        r@ == spec_unescape_escapes(s@),
{
    let mut r: Vec<u8> = Vec::new();
    let mut i: usize = 0;
    proof {
        assert(s@.skip(0) =~= s@);
        assert(r@ + spec_unescape_escapes(s@) =~= spec_unescape_escapes(s@));
    }
    while i < s.len()
        invariant
            i <= s@.len(),
            spec_unescape_escapes(s@) == r@ + spec_unescape_escapes(s@.skip(i as int)),
        decreases s@.len() - i,
    {
        let ghost pre = r@;
        let ghost tail = s@.skip(i as int);
        proof {
            assert(tail.len() > 0);
            assert(tail[0] == s@[i as int]);
            assert(tail.drop_first() =~= s@.skip(i as int + 1));
        }
        let c = s[i];
        if c == ESCAPE_BYTE && i + 1 < s.len() && s[i + 1] == ESCAPE_BYTE {
            proof {
                assert(tail.len() >= 2);
                assert(tail[1] == s@[i as int + 1]);
                assert(tail.skip(2) =~= s@.skip(i as int + 2));
            }
            r.push(ESCAPE_BYTE);
            proof {
                assert(r@ =~= pre + seq![ESCAPE_BYTE]);
                assert(pre + spec_unescape_escapes(tail) =~= r@ + spec_unescape_escapes(
                    s@.skip(i as int + 2),
                ));
            }
            i = i + 2;
        } else {
            r.push(c);
            proof {
                assert(r@ =~= pre + seq![c]);
                assert(pre + spec_unescape_escapes(tail) =~= r@ + spec_unescape_escapes(
                    s@.skip(i as int + 1),
                ));
            }
            i = i + 1;
        }
    }
    proof {
        assert(s@.skip(s@.len() as int) =~= Seq::<u8>::empty());
        assert(spec_unescape_escapes(s@) =~= r@);
    }
    r
}

/// Decode one escaped column back to the bytes it was built from.
pub fn unescape_credential_field(s: &Vec<u8>) -> (r: Vec<u8>)
    ensures
        r@ == spec_unescape(s@),
{
    let first = unescape_delimiters(s);
    unescape_escapes(&first)
}

/// Helper for the round-trip proof: the encoding with only the escape bytes
/// doubled, which is what the first decoding pass leaves of a full encoding.
spec fn spec_escape_escapes_only(s: Seq<u8>) -> Seq<u8>
    decreases s.len(),
{
    if s.len() == 0 {
        Seq::empty()
    } else if s[0] == ESCAPE_BYTE {
        seq![ESCAPE_BYTE, ESCAPE_BYTE] + spec_escape_escapes_only(s.drop_first())
    } else {
        seq![s[0]] + spec_escape_escapes_only(s.drop_first())
    }
}

/// An encoded column never starts with a bare delimiter byte.
proof fn lemma_escape_head_not_delimiter(s: Seq<u8>)
    ensures
        s.len() > 0 ==> spec_escape(s).len() > 0 && spec_escape(s)[0] != DELIMITER_BYTE,
{
    if s.len() > 0 {
        if s[0] == ESCAPE_BYTE || s[0] == DELIMITER_BYTE {
            assert(spec_escape(s)[0] == ESCAPE_BYTE);
        } else {
            assert(spec_escape(s)[0] == s[0]);
        }
    }
}

/// The first decoding pass undoes exactly the delimiter escapes of a full
/// encoding, leaving the doubled escape bytes.
proof fn lemma_first_pass_of_escape(s: Seq<u8>)
    ensures
        spec_unescape_delimiters(spec_escape(s)) == spec_escape_escapes_only(s),
    decreases s.len(),
{
    if s.len() == 0 {
        assert(spec_unescape_delimiters(spec_escape(s)) =~= spec_escape_escapes_only(s));
    } else {
        let rest = s.drop_first();
        lemma_first_pass_of_escape(rest);
        let e = spec_escape(rest);
        if s[0] == DELIMITER_BYTE {
            let w = seq![ESCAPE_BYTE, DELIMITER_BYTE] + e;
            assert(spec_escape(s) == w);
            assert(w.len() >= 2 && w[0] == ESCAPE_BYTE && w[1] == DELIMITER_BYTE);
            assert(w.skip(2) =~= e);
            assert(spec_unescape_delimiters(w) == seq![DELIMITER_BYTE]
                + spec_unescape_delimiters(e));
            assert(spec_unescape_delimiters(spec_escape(s)) =~= spec_escape_escapes_only(s));
        } else if s[0] == ESCAPE_BYTE {
            let w = seq![ESCAPE_BYTE, ESCAPE_BYTE] + e;
            assert(spec_escape(s) == w);
            assert(w[1] != DELIMITER_BYTE);
            assert(w.drop_first() =~= seq![ESCAPE_BYTE] + e);
            assert(spec_unescape_delimiters(w) == seq![ESCAPE_BYTE] + spec_unescape_delimiters(
                seq![ESCAPE_BYTE] + e,
            ));
            let v = seq![ESCAPE_BYTE] + e;
            lemma_escape_head_not_delimiter(rest);
            if e.len() == 0 {
                assert(spec_unescape_delimiters(v) == seq![ESCAPE_BYTE]
                    + spec_unescape_delimiters(v.drop_first()));
                assert(v.drop_first() =~= e);
            } else {
                assert(v.len() >= 2 && v[1] == e[0] && e[0] != DELIMITER_BYTE);
                assert(spec_unescape_delimiters(v) == seq![ESCAPE_BYTE]
                    + spec_unescape_delimiters(v.drop_first()));
                assert(v.drop_first() =~= e);
            }
            assert(spec_unescape_delimiters(spec_escape(s)) =~= spec_escape_escapes_only(s));
        } else {
            let w = seq![s[0]] + e;
            assert(spec_escape(s) == w);
            assert(w[0] != ESCAPE_BYTE);
            assert(spec_unescape_delimiters(w) == seq![s[0]] + spec_unescape_delimiters(
                w.drop_first(),
            ));
            assert(w.drop_first() =~= e);
            assert(spec_unescape_delimiters(spec_escape(s)) =~= spec_escape_escapes_only(s));
        }
    }
}

/// The second decoding pass undoes the doubled escape bytes exactly.
proof fn lemma_second_pass_of_escapes_only(s: Seq<u8>)
    ensures
        spec_unescape_escapes(spec_escape_escapes_only(s)) == s,
    decreases s.len(),
{
    if s.len() == 0 {
        assert(spec_unescape_escapes(spec_escape_escapes_only(s)) =~= s);
    } else {
        let rest = s.drop_first();
        lemma_second_pass_of_escapes_only(rest);
        let e = spec_escape_escapes_only(rest);
        if s[0] == ESCAPE_BYTE {
            let w = seq![ESCAPE_BYTE, ESCAPE_BYTE] + e;
            assert(spec_escape_escapes_only(s) == w);
            assert(w.len() >= 2 && w[0] == ESCAPE_BYTE && w[1] == ESCAPE_BYTE);
            assert(w.skip(2) =~= e);
            assert(spec_unescape_escapes(w) == seq![ESCAPE_BYTE] + spec_unescape_escapes(e));
            assert(spec_unescape_escapes(spec_escape_escapes_only(s)) =~= s);
        } else {
            let w = seq![s[0]] + e;
            assert(spec_escape_escapes_only(s) == w);
            assert(w[0] != ESCAPE_BYTE);
            assert(spec_unescape_escapes(w) == seq![s[0]] + spec_unescape_escapes(
                w.drop_first(),
            ));
            assert(w.drop_first() =~= e);
            assert(spec_unescape_escapes(spec_escape_escapes_only(s)) =~= s);
        }
    }
}

/// Round trip of the escape codec: decoding an encoded column reproduces
/// exactly the bytes that were encoded, including bytes equal to the outer
/// delimiter and to the escape character itself.
pub proof fn lemma_escape_round_trip(s: Seq<u8>)
    ensures
        spec_unescape(spec_escape(s)) == s,
{
    lemma_first_pass_of_escape(s);
    lemma_second_pass_of_escapes_only(s);
}

} // verus!
