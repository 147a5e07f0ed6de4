//! Key derivation for the settings store and selection of persisted
//! session snapshots.

use vstd::prelude::*;

use crate::session::{HistoryItem, HistoryType, SessionData};
use crate::text::{str_eq};

verus! {

broadcast use vstd::string::group_string_axioms;

/// The SHA-256 digest of a byte sequence; the digest depends on the
/// bytes alone.
pub uninterp spec fn sha256_of(data: Seq<u8>) -> Seq<u8>;

/// Relies on `sha2::Sha256::digest`: the 32-byte SHA-256 digest of the
/// input.
#[verifier::external_body]
fn sha256_bytes(data: &[u8]) -> (r: Vec<u8>)
    ensures
        r@ == sha256_of(data@),
        r@.len() == 32,
{
    <sha2::Sha256 as sha2::Digest>::digest(data).to_vec()
}

/// The lowercase hexadecimal spelling of a byte sequence; two digits per
/// byte.
pub uninterp spec fn hex_of(data: Seq<u8>) -> Seq<char>;

/// Relies on `hex::encode`: lowercase hexadecimal, two digits per byte.
#[verifier::external_body]
fn hex_encode(data: &[u8]) -> (r: String)
    ensures
        r@ == hex_of(data@),
        r@.len() == 2 * data@.len(),
{
    hex::encode(data)
}

/// The short key a token is stored under: the first 16 hexadecimal
/// digits (8 bytes) of the token's SHA-256 digest.
pub open spec fn spec_token_hash(token: Seq<char>) -> Seq<char> {
    hex_of(sha256_of(vstd::utf8::encode_utf8(token)).take(8))
}

/// Compute the settings key for a bot token.
pub fn token_hash(token: &str) -> (r: String)
    ensures
        r@ == spec_token_hash(token@),
        r@.len() == 16,
{
    let digest = sha256_bytes(token.as_bytes());
    let mut prefix: Vec<u8> = Vec::new();
    let mut i: usize = 0;
    while i < 8
        invariant
            i <= 8,
            digest@.len() == 32,
            prefix@ == digest@.take(i as int),
        decreases 8 - i,
    {
        prefix.push(digest[i]);
        proof {
            assert(prefix@ =~= digest@.take(i + 1 as int));
        }
        i = i + 1;
    }
    hex_encode(prefix.as_slice())
}

/// Fold step for choosing the session snapshot to restore: a candidate
/// replaces the current choice when its stored path matches the wanted
/// one and it is more recently modified than the current choice.
pub open spec fn spec_select_session(
    current: Option<(SessionData, u64)>,
    candidate: SessionData,
    modified: u64,
    wanted_path: Seq<char>,
) -> Option<(SessionData, u64)> {
    if candidate.current_path@ != wanted_path {
        current
    } else {
        match current {
            None => Some((candidate, modified)),
            Some((best, best_time)) => if modified > best_time {
                Some((candidate, modified))
            } else {
                Some((best, best_time))
            },
        }
    }
}

/// Consider one stored snapshot while scanning the session directory,
/// keeping the most recently modified snapshot whose path matches.
pub fn select_session(
    current: Option<(SessionData, u64)>,
    candidate: SessionData,
    modified: u64,
    wanted_path: &str,
) -> (r: Option<(SessionData, u64)>)
    ensures
        r == spec_select_session(current, candidate, modified, wanted_path@),
{
    if !str_eq(candidate.current_path.as_str(), wanted_path) {
        current
    } else {
        match current {
            None => Some((candidate, modified)),
            Some((best, best_time)) => {
                if modified > best_time {
                    Some((candidate, modified))
                } else {
                    Some((best, best_time))
                }
            }
        }
    }
}

/// The entries of a history that are persisted: everything but system
/// notices.
pub open spec fn spec_saveable_history(h: Seq<HistoryItem>) -> Seq<HistoryItem>
    decreases h.len(),
{
    if h.len() == 0 {
        Seq::empty()
    } else {
        (if h[0].item_type is System {
            Seq::empty()
        } else {
            seq![h[0]]
        }) + spec_saveable_history(h.drop_first())
    }
}

proof fn lemma_saveable_snoc(h: Seq<HistoryItem>, it: HistoryItem)
    ensures
        spec_saveable_history(h.push(it)) == spec_saveable_history(h) + (if it.item_type
            is System {
            Seq::<HistoryItem>::empty()
        } else {
            seq![it]
        }),
    decreases h.len(),
{
    if h.len() == 0 {
        assert(h.push(it)[0] == it);
        assert(h.push(it).drop_first() =~= Seq::<HistoryItem>::empty());
        assert(spec_saveable_history(Seq::<HistoryItem>::empty()) =~= Seq::<HistoryItem>::empty());
        assert(spec_saveable_history(h.push(it)) =~= spec_saveable_history(h) + (if it.item_type
            is System {
            Seq::<HistoryItem>::empty()
        } else {
            seq![it]
        }));
    } else {
        assert(h.push(it)[0] == h[0]);
        assert(h.push(it).drop_first() =~= h.drop_first().push(it));
        lemma_saveable_snoc(h.drop_first(), it);
        assert(spec_saveable_history(h.push(it)) =~= spec_saveable_history(h) + (if it.item_type
            is System {
            Seq::<HistoryItem>::empty()
        } else {
            seq![it]
        }));
    }
}

/// The history entries worth persisting: system notices are dropped,
/// everything else is kept in order.
pub fn saveable_history(history: &Vec<HistoryItem>) -> (r: Vec<HistoryItem>)
    ensures
        r@ == spec_saveable_history(history@),
{
    let mut r: Vec<HistoryItem> = Vec::new();
    let mut i: usize = 0;
    proof {
        assert(history@.take(0) =~= Seq::<HistoryItem>::empty());
        assert(r@ =~= spec_saveable_history(history@.take(0)));
    }
    while i < history.len()
        invariant
            i <= history@.len(),
            r@ == spec_saveable_history(history@.take(i as int)),
        decreases history@.len() - i,
    {
        proof {
            lemma_saveable_snoc(history@.take(i as int), history@[i as int]);
            assert(history@.take(i + 1 as int) =~= history@.take(i as int).push(
                history@[i as int],
            ));
        }
        let keep = match history[i].item_type {
            HistoryType::System => false,
            _ => true,
        };
        if keep {
            let item = HistoryItem {
                item_type: history[i].item_type,
                content: history[i].content.clone(),
            };
            proof {
                assert(item == history@[i as int]);
            }
            r.push(item);
            proof {
                assert(r@ =~= spec_saveable_history(history@.take(i + 1 as int)));
            }
        }
        i = i + 1;
    }
    proof {
        assert(history@.take(history@.len() as int) =~= history@);
    }
    r
}

} // verus!
