//! Comparing a container's live image digest with the registry's digest.

use vstd::prelude::*;
use crate::text::{first_index, lemma_first_index, scan_char};

verus! {

/// What the comparison of a live image ID with the remote digest decides.
#[derive(Clone, Copy, Debug, PartialEq, Eq, Structural)]
pub enum Verdict {
    /// The live digest equals the remote one.
    Fresh,
    /// The live digest differs from the remote one: the pod should be evicted.
    Stale,
    /// The image ID carries no "@digest" part, so nothing can be compared.
    Anomalous,
    /// The remote digest could not be had: nothing is decided.
    Unknown,
}

/// The digest part of an image ID `<repo>@<digest>`: what stands after the
/// first "@", up to a further "@" if there is one.
pub open spec fn live_digest_spec(image_id: Seq<char>) -> Option<Seq<char>> {
    let i = first_index(image_id, '@');
    if i < 0 {
        None
    } else {
        let rest = image_id.skip(i + 1);
        let j = first_index(rest, '@');
        Some(if j < 0 { rest } else { rest.take(j) })
    }
}

/// The verdict on a live image ID given the remote digest, if one was had.
pub open spec fn verdict_spec(image_id: Seq<char>, remote: Option<Seq<char>>) -> Verdict {
    match remote {
        None => Verdict::Unknown,
        Some(d) => match live_digest_spec(image_id) {
            None => Verdict::Anomalous,
            Some(live) => if live == d { Verdict::Fresh } else { Verdict::Stale },
        },
    }
}

/// The digest that a container status's image ID records, if any.
pub fn live_digest(image_id: &str) -> (r: Option<String>)
    ensures
        match r {
            Some(d) => live_digest_spec(image_id@) == Some(d@),
            None => live_digest_spec(image_id@) is None,
        },
{
    let (_, at, _) = scan_char(image_id, '@');
    proof {
        lemma_first_index(image_id@, '@');
    }
    let at = match at {
        Some(a) => a,
        None => return None,
    };
    let n = image_id.unicode_len();
    let rest = image_id.substring_char(at + 1, n);
    assert(rest@ =~= image_id@.skip(at + 1));
    let (_, next_at, _) = scan_char(rest, '@');
    proof {
        lemma_first_index(rest@, '@');
    }
    match next_at {
        None => Some(String::from_str(rest)),
        Some(j) => {
            let d = rest.substring_char(0, j);
            assert(d@ =~= rest@.take(j as int));
            Some(String::from_str(d))
        },
    }
}

/// Decides whether a container runs a stale image. An unknown remote digest
/// decides nothing; an image ID without a digest is anomalous; otherwise the
/// two digests are compared as exact strings.
pub fn detect_drift(image_id: &str, remote: &Option<String>) -> (r: Verdict)
    ensures
        r == verdict_spec(image_id@, match remote {
            Some(d) => Some(d@),
            None => None,
        }),
{
    match remote {
        None => Verdict::Unknown,
        Some(d) => match live_digest(image_id) {
            None => Verdict::Anomalous,
            Some(live) => if live == *d {
                Verdict::Fresh
            } else {
                Verdict::Stale
            },
        },
    }
}

/// Equal digests are never stale, different ones always are, an unknown
/// remote digest never is, and an image ID without "@" is anomalous.
pub proof fn lemma_drift_rules(image_id: Seq<char>, remote: Option<Seq<char>>)
    ensures
        remote is None ==> verdict_spec(image_id, remote) == Verdict::Unknown,
        remote is Some && !image_id.contains('@') ==> verdict_spec(image_id, remote)
            == Verdict::Anomalous,
        remote is Some && live_digest_spec(image_id) == remote ==> verdict_spec(image_id, remote)
            == Verdict::Fresh,
        remote is Some && live_digest_spec(image_id) is Some && live_digest_spec(image_id)
            != remote ==> verdict_spec(image_id, remote) == Verdict::Stale,
        verdict_spec(image_id, remote) == Verdict::Stale ==> image_id.contains('@'),
{
    lemma_first_index(image_id, '@');
}

} // verus!
