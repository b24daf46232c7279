//! The evidence data types and their construction rules.

use p2p_supervisor::evidence::{
    ConflictingHeadersEvidence, Data, Duration, DuplicateVoteEvidence, Error, Evidence, Params,
    SignedHeader, Vote,
};

fn vote(height: u64, round: u32, validator_index: u32) -> Vote {
    Vote { height, round, validator_index }
}

#[test]
fn duplicate_vote_same_height_is_accepted() {
    let a = vote(42, 0, 3);
    let b = vote(42, 1, 3);
    let ev = DuplicateVoteEvidence::new(a, b).expect("same height must be accepted");
    let (va, vb) = ev.votes();
    assert_eq!(*va, a);
    assert_eq!(*vb, b);
}

#[test]
fn duplicate_vote_height_mismatch_is_rejected() {
    let a = vote(42, 0, 3);
    let b = vote(43, 0, 3);
    assert_eq!(DuplicateVoteEvidence::new(a, b), Err(Error::InvalidEvidence));
}

#[test]
fn conflicting_headers_carry_both() {
    let h1 = SignedHeader { height: 7, header_hash: 100 };
    let h2 = SignedHeader { height: 7, header_hash: 200 };
    let ev = ConflictingHeadersEvidence::new(h1, h2);
    assert_eq!(ev.h1, h1);
    assert_eq!(ev.h2, h2);
}

#[test]
fn data_round_trips_through_vec() {
    let a = vote(5, 0, 1);
    let b = vote(5, 1, 1);
    let dup = DuplicateVoteEvidence::new(a, b).unwrap();
    let items = vec![Evidence::DuplicateVote(dup), Evidence::LightClientAttackEvidence];
    let data = Data::new(items.clone());
    assert_eq!(data.into_vec(), items);
}

#[test]
fn data_iter_preserves_order() {
    let h = SignedHeader { height: 1, header_hash: 9 };
    let items = vec![
        Evidence::ConflictingHeaders(ConflictingHeadersEvidence::new(h, h)),
        Evidence::LightClientAttackEvidence,
    ];
    let data = Data::new(items.clone());
    assert_eq!(data.iter(), items);
    // Iterating does not consume: the data still converts to the same vector.
    assert_eq!(data.into_vec(), items);
}

#[test]
fn default_data_is_empty() {
    let data = Data::default();
    assert_eq!(data.iter(), Vec::new());
    assert_eq!(data.into_vec(), Vec::new());
}

#[test]
fn params_hold_their_fields() {
    let p = Params {
        max_age_num_blocks: 100000,
        max_age_duration: Duration { secs: 172800, nanos: 0 },
    };
    assert_eq!(p.max_age_num_blocks, 100000);
    assert_eq!(p.max_age_duration, Duration { secs: 172800, nanos: 0 });
}
