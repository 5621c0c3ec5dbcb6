use lumina_core::sampler::{
    evaluate_samples, finish_round, plan_sampling, sample_coordinates, SampleOutcome, SamplerAction,
    SamplerConfig, SamplingVerdict,
};
use lumina_core::store::{InMemoryStore, StoreError};
use lumina_core::syncer::{extend_with_batch, TrustAnchor};
use lumina_core::types::{Cid, Commit, Digest, Header, ValidatorSet};

fn digest(n: u64) -> Digest {
    Digest(n, 11, 22, 33)
}

fn header(height: u64) -> Header {
    Header {
        height,
        hash: digest(height),
        previous_hash: digest(height - 1),
        timestamp: height,
        data_root: digest(900 + height),
        commit: Commit { validator_set: digest(0), signed_power: 3 },
    }
}

fn anchor() -> TrustAnchor {
    TrustAnchor {
        genesis_hash: None,
        validators: ValidatorSet { hash: digest(0), total_power: 4 },
        now: 100,
        max_drift: 0,
    }
}

fn store_to(n: u64) -> InMemoryStore {
    let mut s = InMemoryStore::new(1);
    extend_with_batch(&mut s, &(1..=n).map(header).collect(), &anchor()).unwrap();
    s
}

fn cfg() -> SamplerConfig {
    SamplerConfig { max_attempts: 2, backoff_base: 50, backoff_cap: 400 }
}

#[test]
fn coordinates_are_reproducible_and_in_range() {
    let root = digest(42);
    let a = sample_coordinates(root, 8, 16, &vec![]);
    let b = sample_coordinates(root, 8, 16, &vec![]);
    assert_eq!(a, b);
    assert!(!a.is_empty());
    for c in &a {
        assert!(c.row < 8 && c.col < 8);
        assert_eq!(c.data_root, root);
    }
    for i in 0..a.len() {
        for j in i + 1..a.len() {
            assert_ne!(a[i], a[j]);
        }
    }
}

#[test]
fn first_coordinate_exact() {
    let root = Digest(0, 0, 0, 0);
    let a = sample_coordinates(root, 1000, 1, &vec![]);
    let s = 1442695040888963407u64;
    assert_eq!(a, vec![Cid { data_root: root, row: s % 1000, col: (s / 1000) % 1000 }]);
}

#[test]
fn already_attempted_coordinates_are_skipped() {
    let root = digest(7);
    let all = sample_coordinates(root, 16, 6, &vec![]);
    let rest = sample_coordinates(root, 16, 6, &vec![all[0], all[2]]);
    let expected: Vec<Cid> = all.iter().copied().filter(|c| *c != all[0] && *c != all[2]).collect();
    assert_eq!(rest, expected);
    assert_eq!(sample_coordinates(root, 16, 6, &all), vec![]);
}

#[test]
fn verdicts() {
    let ok = SampleOutcome::Verified;
    let bad = SampleOutcome::ProofInvalid;
    let lost = SampleOutcome::FetchFailed;
    assert_eq!(evaluate_samples(&vec![ok, ok]), SamplingVerdict::Accepted);
    assert_eq!(evaluate_samples(&vec![]), SamplingVerdict::Accepted);
    assert_eq!(evaluate_samples(&vec![ok, lost, bad]), SamplingVerdict::Rejected);
    assert_eq!(evaluate_samples(&vec![ok, lost]), SamplingVerdict::Errored);
}

#[test]
fn rejected_height_does_not_block_sync() {
    let mut s = store_to(5);
    let ids = plan_sampling(&s, 3, 4, 3).unwrap();
    let mut outcomes = vec![SampleOutcome::Verified; ids.len()];
    outcomes[0] = SampleOutcome::ProofInvalid;
    let r = finish_round(&mut s, 3, ids.clone(), &outcomes, 0, &cfg()).unwrap();
    assert_eq!(r, SamplerAction::Recorded { accepted: false, next: Some(1) });
    let m = s.get_sampling_metadata(3).unwrap().unwrap();
    assert!(!m.accepted);
    assert_eq!(m.cids, ids);
    assert_eq!(extend_with_batch(&mut s, &vec![header(6)], &anchor()), Ok(()));
    assert_eq!(s.head_height(), Ok(6));
}

#[test]
fn accepted_round_records_and_advances() {
    let mut s = store_to(2);
    let ids = plan_sampling(&s, 1, 4, 2).unwrap();
    let outcomes = vec![SampleOutcome::Verified; ids.len()];
    let r = finish_round(&mut s, 1, ids, &outcomes, 0, &cfg()).unwrap();
    assert_eq!(r, SamplerAction::Recorded { accepted: true, next: Some(2) });
}

#[test]
fn errored_round_retries_then_gives_up() {
    let mut s = store_to(2);
    let ids = plan_sampling(&s, 2, 4, 2).unwrap();
    let outcomes = vec![SampleOutcome::FetchFailed; ids.len()];
    let r = finish_round(&mut s, 2, ids.clone(), &outcomes, 0, &cfg()).unwrap();
    assert_eq!(r, SamplerAction::Retry { delay: 50 });
    assert!(s.get_sampling_metadata(2).unwrap().is_none());
    let r = finish_round(&mut s, 2, ids, &outcomes, 1, &cfg()).unwrap();
    assert_eq!(r, SamplerAction::GaveUp { next: Some(1) });
    assert!(!s.get_sampling_metadata(2).unwrap().unwrap().accepted);
}

#[test]
fn later_round_plans_only_new_shares() {
    let mut s = store_to(2);
    let first = plan_sampling(&s, 2, 8, 2).unwrap();
    s.update_sampling_metadata(2, false, first.clone()).unwrap();
    let wider = plan_sampling(&s, 2, 8, 4).unwrap();
    for c in &wider {
        assert!(!first.contains(c));
    }
}

#[test]
fn sampling_unknown_height_is_not_found() {
    let mut s = store_to(2);
    assert_eq!(plan_sampling(&s, 9, 4, 2), Err(StoreError::NotFound));
    assert_eq!(finish_round(&mut s, 9, vec![], &vec![], 0, &cfg()), Err(StoreError::NotFound));
}
