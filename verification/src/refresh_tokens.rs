//! Refresh-token lookup rules.
//!
//! A refresh token is found by the SHA-256 of its plaintext (the indexed
//! path). Rows stored before that column existed have no hash; for them
//! the sealed plaintext is opened and compared in constant time. The
//! startup backfill gives such rows their hash.

use vstd::prelude::*;
use vstd::utf8::{encode_utf8, valid_utf8};

use crate::forgot_password::{sha256, sha256_digest};
use crate::tar::str_from_utf8;

verus! {

/// The lookup key of a refresh token: SHA-256 of its UTF-8 bytes.
pub open spec fn refresh_hash(plaintext: Seq<char>) -> Seq<u8> {
    sha256(encode_utf8(plaintext))
}

/// SHA-256 of the token's UTF-8 bytes, the indexed lookup key.
pub fn token_hash_bytes(plaintext: &str) -> (r: Vec<u8>)
    ensures
        r@ == refresh_hash(plaintext@),
{
    sha256_digest(plaintext.as_bytes())
}

/// Calls `subtle::ConstantTimeEq::ct_eq` on two byte slices and converts
/// the `Choice` to `bool`. Claimed: true exactly when the slices have the
/// same length and the same bytes.
#[verifier::external_body]
fn ct_eq_bytes(a: &[u8], b: &[u8]) -> (r: bool)
    ensures
        r == (a@ == b@),
{
    subtle::ConstantTimeEq::ct_eq(a, b).into()
}

/// One row of the fallback scan: its sealed plaintext after opening, or
/// `None` when it did not open under the current key.
pub open spec fn opens_to(opened: Option<Vec<u8>>, pt: Seq<u8>) -> bool {
    match opened {
        Some(p) => p@ == pt,
        None => false,
    }
}

/// The first candidate of the fallback scan whose opened plaintext equals
/// the presented token's bytes.
pub fn first_opened_match(opened: &Vec<Option<Vec<u8>>>, plaintext: &str) -> (r: Option<usize>)
    ensures
        r matches Some(i) ==> i < opened@.len() && opens_to(opened@[i as int], encode_utf8(plaintext@))
            && forall|j: int| 0 <= j < i ==> !opens_to(#[trigger] opened@[j], encode_utf8(plaintext@)),
        r is None ==> forall|j: int| 0 <= j < opened@.len() ==> !opens_to(#[trigger] opened@[j], encode_utf8(plaintext@)),
{
    let pt = plaintext.as_bytes();
    let mut i: usize = 0;
    while i < opened.len()
        invariant
            i <= opened@.len(),
            pt@ == encode_utf8(plaintext@),
            forall|j: int| 0 <= j < i ==> !opens_to(#[trigger] opened@[j], encode_utf8(plaintext@)),
        decreases opened@.len() - i,
    {
        match &opened[i] {
            Some(p) => {
                if ct_eq_bytes(p.as_slice(), pt) {
                    return Some(i);
                }
            },
            None => {},
        }
        i = i + 1;
    }
    None
}

/// Why a lookup failed.
#[derive(Debug, Clone, Copy, PartialEq, Eq, Structural)]
pub enum LookupError {
    NotFound,
}

/// The result of a lookup: the indexed hit if there is one, otherwise the
/// first fallback match, otherwise `NotFound`.
pub fn lookup_result<T>(fast: Option<T>, fallback: Option<T>) -> (r: Result<T, LookupError>)
    ensures
        fast matches Some(t) ==> r == Ok::<T, LookupError>(t),
        fast is None ==> (fallback matches Some(t) ==> r == Ok::<T, LookupError>(t)),
        fast is None && fallback is None ==> r == Err::<T, LookupError>(LookupError::NotFound),
{
    match fast {
        Some(t) => Ok(t),
        None => match fallback {
            Some(t) => Ok(t),
            None => Err(LookupError::NotFound),
        },
    }
}

/// What the backfill writes for a row whose plaintext opened: its hash,
/// when the plaintext is UTF-8; rows that do not open or are not UTF-8
/// are skipped.
pub open spec fn backfill_entry(opened: Option<Seq<u8>>) -> Option<Seq<u8>> {
    match opened {
        Some(p) => if valid_utf8(p) {
            Some(sha256(p))
        } else {
            None
        },
        None => None,
    }
}

pub open spec fn opened_view(o: Option<Vec<u8>>) -> Option<Seq<u8>> {
    match o {
        Some(p) => Some(p@),
        None => None,
    }
}

/// The backfill's writes, in row order: for each row the id and the hash
/// to store, skipping rows `backfill_entry` leaves out.
pub open spec fn backfill_writes(rows: Seq<(String, Option<Vec<u8>>)>) -> Seq<(Seq<char>, Seq<u8>)>
    decreases rows.len(),
{
    if rows.len() == 0 {
        Seq::empty()
    } else {
        let last = rows.last();
        let head = backfill_writes(rows.drop_last());
        match backfill_entry(opened_view(last.1)) {
            Some(h) => head.push((last.0@, h)),
            None => head,
        }
    }
}

pub open spec fn writes_view(v: Seq<(String, Vec<u8>)>) -> Seq<(Seq<char>, Seq<u8>)> {
    v.map_values(|w: (String, Vec<u8>)| (w.0@, w.1@))
}

/// Plan the hash backfill for rows without a hash: each row comes with
/// its id and its sealed plaintext once opened (`None` if it did not
/// open).
pub fn plan_backfill(rows: &Vec<(String, Option<Vec<u8>>)>) -> (r: Vec<(String, Vec<u8>)>)
    ensures
        writes_view(r@) == backfill_writes(rows@),
{
    let mut out: Vec<(String, Vec<u8>)> = Vec::new();
    let mut i: usize = 0;
    while i < rows.len()
        invariant
            i <= rows@.len(),
            writes_view(out@) == backfill_writes(rows@.take(i as int)),
        decreases rows@.len() - i,
    {
        let ghost before = writes_view(out@);
        proof {
            assert(rows@.take(i + 1).drop_last() =~= rows@.take(i as int));
            assert(rows@.take(i + 1).last() == rows@[i as int]);
        }
        let (id, opened) = &rows[i];
        match opened {
            Some(p) => {
                match str_from_utf8(p.as_slice()) {
                    Ok(s) => {
                        let h = token_hash_bytes(s);
                        out.push((id.clone(), h));
                        proof {
                            assert(encode_utf8(s@) == p@);
                            assert(writes_view(out@) =~= before.push((id@, sha256(p@))));
                        }
                    },
                    Err(_) => {},
                }
            },
            None => {},
        }
        i = i + 1;
    }
    assert(rows@.take(rows@.len() as int) =~= rows@);
    out
}

} // verus!
