use multi_proposer::election::MultiProposer;
use multi_proposer::hashing::hash;
use multi_proposer::types::Author;
use multi_proposer::types::Block;

fn author(id: u64) -> Author {
    Author { id }
}

fn four_authors() -> Vec<Author> {
    vec![author(1), author(2), author(3), author(4)]
}

fn block(round: u64, who: Option<Author>, payload: u64) -> Block<u64> {
    Block {
        round,
        author: who,
        payload,
    }
}

#[test]
fn hash_is_deterministic_and_not_identity() {
    assert_eq!(hash(7), hash(7));
    assert_eq!(hash(0), hash(0));
    assert_ne!(hash(7), 7);
    assert_ne!(hash(0), hash(1));
}

#[test]
fn candidates_deterministic_across_calls_and_instances() {
    let p1: MultiProposer<u64> = MultiProposer::new(four_authors(), 3);
    let p2: MultiProposer<u64> = MultiProposer::new(four_authors(), 3);
    for round in [0u64, 1, 7, 42, 1_000_000] {
        let a = p1.get_valid_proposers(round);
        let b = p1.get_valid_proposers(round);
        let c = p2.get_valid_proposers(round);
        assert_eq!(a, b);
        assert_eq!(a, c);
    }
}

#[test]
fn candidates_distinct_with_exact_length() {
    let p: MultiProposer<u64> = MultiProposer::new(four_authors(), 3);
    for round in 0u64..50 {
        let list = p.get_valid_proposers(round);
        assert_eq!(list.len(), 3);
        for i in 0..list.len() {
            for j in 0..list.len() {
                if i != j {
                    assert_ne!(list[i], list[j]);
                }
            }
        }
    }
}

#[test]
fn requested_count_is_clamped_to_proposer_count() {
    let p: MultiProposer<u64> = MultiProposer::new(vec![author(1), author(2)], 5);
    let list = p.get_valid_proposers(9);
    assert_eq!(list.len(), 2);
    assert_ne!(list[0], list[1]);
}

#[test]
fn single_proposer_is_always_primary() {
    let p: MultiProposer<u64> = MultiProposer::new(vec![author(8)], 1);
    for round in 0u64..10 {
        assert_eq!(p.get_valid_proposers(round), vec![author(8)]);
    }
}

#[test]
fn eligibility_covers_every_rank_and_nobody_else() {
    let p: MultiProposer<u64> = MultiProposer::new(four_authors(), 3);
    let round = 11u64;
    let list = p.get_valid_proposers(round);
    for cand in &list {
        assert_eq!(p.is_valid_proposer(*cand, round), Some(*cand));
    }
    let left_out = four_authors()
        .into_iter()
        .find(|a| !list.contains(a))
        .expect("three of four proposers are candidates");
    assert_eq!(p.is_valid_proposer(left_out, round), None);
    assert_eq!(p.is_valid_proposer(author(99), round), None);
}

#[test]
fn primary_proposal_is_returned_unchanged() {
    let mut p: MultiProposer<u64> = MultiProposer::new(four_authors(), 3);
    let round = 7u64;
    let primary = p.get_valid_proposers(round)[0];
    let got = p
        .process_proposal(block(round, Some(primary), 55))
        .expect("primary proposal is immediately actionable");
    assert_eq!(got.round, round);
    assert_eq!(got.author, Some(primary));
    assert_eq!(got.payload, 55);
    // nothing was retained for the primary path
    assert!(p.take_backup_proposal(round).is_none());
}

#[test]
fn backup_preference_keeps_the_lower_rank() {
    let mut p: MultiProposer<u64> = MultiProposer::new(four_authors(), 3);
    let round = 7u64;
    let list = p.get_valid_proposers(round);
    assert!(p.process_proposal(block(round, Some(list[2]), 100)).is_none());
    assert!(p.process_proposal(block(round, Some(list[1]), 200)).is_none());
    let kept = p.take_backup_proposal(round).expect("a backup was retained");
    assert_eq!(kept.payload, 200);
    assert_eq!(kept.author, Some(list[1]));
}

#[test]
fn backup_preference_ignores_a_worse_rank() {
    let mut p: MultiProposer<u64> = MultiProposer::new(four_authors(), 3);
    let round = 3u64;
    let list = p.get_valid_proposers(round);
    assert!(p.process_proposal(block(round, Some(list[1]), 10)).is_none());
    assert!(p.process_proposal(block(round, Some(list[2]), 20)).is_none());
    let kept = p.take_backup_proposal(round).expect("a backup was retained");
    assert_eq!(kept.payload, 10);
}

#[test]
fn rank_tie_keeps_the_first_seen() {
    let mut p: MultiProposer<u64> = MultiProposer::new(four_authors(), 3);
    let round = 5u64;
    let list = p.get_valid_proposers(round);
    assert!(p.process_proposal(block(round, Some(list[1]), 1)).is_none());
    assert!(p.process_proposal(block(round, Some(list[1]), 2)).is_none());
    let kept = p.take_backup_proposal(round).expect("a backup was retained");
    assert_eq!(kept.payload, 1);
}

#[test]
fn newer_round_supersedes_retained_backup() {
    let mut p: MultiProposer<u64> = MultiProposer::new(four_authors(), 3);
    let old_backup = p.get_valid_proposers(5)[1];
    assert!(p.process_proposal(block(5, Some(old_backup), 50)).is_none());
    let new_backup = p.get_valid_proposers(6)[1];
    assert!(p.process_proposal(block(6, Some(new_backup), 60)).is_none());
    assert!(p.take_backup_proposal(5).is_none());
    let kept = p.take_backup_proposal(6).expect("the round-6 backup is retained");
    assert_eq!(kept.payload, 60);
}

#[test]
fn stale_round_is_discarded() {
    let mut p: MultiProposer<u64> = MultiProposer::new(four_authors(), 3);
    let backup6 = p.get_valid_proposers(6)[1];
    assert!(p.process_proposal(block(6, Some(backup6), 60)).is_none());
    let backup5 = p.get_valid_proposers(5)[1];
    assert!(p.process_proposal(block(5, Some(backup5), 50)).is_none());
    assert!(p.take_backup_proposal(5).is_none());
    let kept = p.take_backup_proposal(6).expect("the round-6 backup stays");
    assert_eq!(kept.payload, 60);
}

#[test]
fn backup_is_consumed_only_once() {
    let mut p: MultiProposer<u64> = MultiProposer::new(four_authors(), 3);
    let round = 9u64;
    let backup = p.get_valid_proposers(round)[1];
    assert!(p.process_proposal(block(round, Some(backup), 90)).is_none());
    let first = p.take_backup_proposal(round).expect("the backup comes out once");
    assert_eq!(first.payload, 90);
    assert!(p.take_backup_proposal(round).is_none());
}

#[test]
fn unauthorized_proposal_is_never_retrievable() {
    let mut p: MultiProposer<u64> = MultiProposer::new(four_authors(), 3);
    let round = 4u64;
    let list = p.get_valid_proposers(round);
    let outsider = author(99);
    assert!(!list.contains(&outsider));
    assert!(p.process_proposal(block(round, Some(outsider), 40)).is_none());
    assert!(p.take_backup_proposal(round).is_none());
}

#[test]
fn authorless_proposal_is_ignored() {
    let mut p: MultiProposer<u64> = MultiProposer::new(four_authors(), 3);
    assert!(p.process_proposal(block(2, None, 20)).is_none());
    assert!(p.take_backup_proposal(2).is_none());
}

#[test]
fn example_round_seven_walkthrough() {
    let mut p: MultiProposer<u64> = MultiProposer::new(four_authors(), 3);
    let list = p.get_valid_proposers(7);

    let primary_reply = p
        .process_proposal(block(7, Some(list[0]), 70))
        .expect("the primary proposal is immediately actionable");
    assert_eq!(primary_reply.payload, 70);

    assert!(p.process_proposal(block(7, Some(list[2]), 72)).is_none());
    assert!(p.process_proposal(block(7, Some(list[1]), 71)).is_none());

    let kept = p.take_backup_proposal(7).expect("rank 1 beats rank 2");
    assert_eq!(kept.payload, 71);
    assert_eq!(kept.author, Some(list[1]));
    assert!(p.take_backup_proposal(7).is_none());
}
