//! The proposer election state machine.
//!
//! `MultiProposer` maps a round to an ordered list of authors: the primary
//! proposer stands at rank 0, the backup proposers follow in rank order. The
//! instance also tracks, across the proposals submitted for the current
//! round, the best-ranked backup proposal seen so far, so the protocol can
//! fall back to it if the primary fails to produce a usable block.

use vstd::prelude::*;

use crate::hashing::hash;
use crate::hashing::sip_hash_of;
use crate::selection::lemma_rank_in_props;
use crate::selection::lemma_select_candidates_props;
use crate::selection::rank_in;
use crate::selection::select_candidates;
use crate::selection::swap_removed;
use crate::types::Author;
use crate::types::Block;

verus! {

/// Maps a round to an ordered list of authors and retains the best-ranked
/// backup proposal of the highest round seen. All honest replicas must agree
/// on the proposer ordering, so the candidate list is a pure function of the
/// configuration and the round.
pub struct MultiProposer<T> {
    /// Ordering of proposers to rotate through; fixed at construction.
    pub proposers: Vec<Author>,
    /// Number of proposers per round; fixed at construction.
    pub num_proposers_per_round: usize,
    /// The round of the retained backup proposal. Proposals of lower rounds
    /// are stale and never retained.
    pub backup_proposal_round: u64,
    /// The best (lowest-rank) non-primary proposal seen for
    /// `backup_proposal_round`, kept as (rank, block).
    pub backup_proposal: Option<(usize, Block<T>)>,
}

impl<T> MultiProposer<T> {
    /// The configuration invariant: at least one proposer, no duplicate
    /// identities, and a per-round count between one and the proposer count.
    pub open spec fn wf(self) -> bool {
        &&& 0 < self.num_proposers_per_round <= self.proposers@.len()
        &&& self.proposers@.no_duplicates()
    }

    /// The ranked candidate list for `round`: a pure function of the
    /// configured proposers, the per-round count, and the round.
    pub open spec fn spec_candidates(self, round: u64) -> Seq<Author> {
        select_candidates(self.proposers@, round, self.num_proposers_per_round as nat)
    }

    /// Builds an instance for one epoch. A request for more proposers per
    /// round than are configured is clamped down to the proposer count.
    pub fn new(proposers: Vec<Author>, num_proposers_per_round: usize) -> (r: Self)
        requires
            proposers@.len() > 0,
            proposers@.no_duplicates(),
            num_proposers_per_round > 0,
        ensures
            r.wf(),
            r.proposers@ == proposers@,
            num_proposers_per_round <= proposers@.len() ==> r.num_proposers_per_round
                == num_proposers_per_round,
            num_proposers_per_round > proposers@.len() ==> r.num_proposers_per_round
                == proposers@.len(),
            r.backup_proposal_round == 0,
            r.backup_proposal is None,
    {
        let k = if num_proposers_per_round > proposers.len() {
            proposers.len()
        } else {
            num_proposers_per_round
        };
        MultiProposer {
            proposers,
            num_proposers_per_round: k,
            backup_proposal_round: 0,
            backup_proposal: None,
        }
    }

    /// Computes the ranked candidate list for `round` by walking the hash
    /// chain, exactly as `spec_candidates` states it.
    fn get_candidates(&self, round: u64) -> (r: Vec<Author>)
        requires
            self.wf(),
        ensures
            r@ == self.spec_candidates(round),
    {
        let mut res: Vec<Author> = Vec::new();
        let mut candidates: Vec<Author> = copy_authors(&self.proposers);
        let mut cur_val: u64 = round;
        let k = self.num_proposers_per_round;
        let mut i: usize = 0;
        while i < k
            invariant
                i <= k,
                k == self.num_proposers_per_round,
                k <= self.proposers@.len(),
                res@.len() == i as int,
                candidates@.len() == self.proposers@.len() - i,
                self.spec_candidates(round) == res@ + select_candidates(
                    candidates@,
                    cur_val,
                    (k - i) as nat,
                ),
            decreases k - i,
        {
            let ghost pool0 = candidates@;
            let ghost h0 = cur_val;
            let ghost res0 = res@;
            cur_val = hash(cur_val);
            let idx = (cur_val % (candidates.len() as u64)) as usize;
            proof {
                assert(cur_val % (candidates.len() as u64) < candidates.len() as u64);
                assert(idx as int == (sip_hash_of(h0) as int) % (pool0.len() as int));
            }
            let picked = candidates.swap_remove(idx);
            res.push(picked);
            proof {
                let tail = select_candidates(swap_removed(pool0, idx as int), cur_val, (k - i
                    - 1) as nat);
                assert(select_candidates(pool0, h0, (k - i) as nat) == seq![pool0[idx as int]]
                    + tail);
                assert(candidates@ == swap_removed(pool0, idx as int));
                assert(res@ + tail =~= res0 + (seq![picked] + tail));
            }
            i = i + 1;
        }
        proof {
            assert(self.spec_candidates(round) =~= res@);
        }
        res
    }

    /// The state after classify-and-record of `b`, given the author `a` of
    /// `b` ranks at `rk` for `b.round`. A primary (rank 0) or unauthorized
    /// (negative rank) proposal changes nothing. A backup-rank proposal of a
    /// newer round always supersedes the retained backup; one of the tracked
    /// round is kept only when its rank beats the retained rank (first-seen
    /// wins on a tie); one of an older round is discarded.
    pub open spec fn recorded_backup(self, b: Block<T>, a: Author) -> Self {
        let rk = rank_in(self.spec_candidates(b.round), a);
        if rk <= 0 {
            self
        } else if b.round > self.backup_proposal_round {
            MultiProposer {
                proposers: self.proposers,
                num_proposers_per_round: self.num_proposers_per_round,
                backup_proposal_round: b.round,
                backup_proposal: Some((rk as usize, b)),
            }
        } else if b.round == self.backup_proposal_round {
            match self.backup_proposal {
                None => MultiProposer {
                    proposers: self.proposers,
                    num_proposers_per_round: self.num_proposers_per_round,
                    backup_proposal_round: self.backup_proposal_round,
                    backup_proposal: Some((rk as usize, b)),
                },
                Some((cur_rank, _)) => if rk < cur_rank {
                    MultiProposer {
                        proposers: self.proposers,
                        num_proposers_per_round: self.num_proposers_per_round,
                        backup_proposal_round: self.backup_proposal_round,
                        backup_proposal: Some((rk as usize, b)),
                    }
                } else {
                    self
                },
            }
        } else {
            self
        }
    }

    /// The state after classify-and-record of `b`: a block without an
    /// author changes nothing, otherwise `recorded_backup` decides.
    pub open spec fn after_process(self, b: Block<T>) -> Self {
        match b.author {
            None => self,
            Some(a) => self.recorded_backup(b, a),
        }
    }

    /// What classify-and-record returns: the block itself exactly when its
    /// author is the primary (rank 0) candidate of its round.
    pub open spec fn process_result(self, b: Block<T>) -> Option<Block<T>> {
        match b.author {
            None => None,
            Some(a) => if rank_in(self.spec_candidates(b.round), a) == 0 {
                Some(b)
            } else {
                None
            },
        }
    }

    /// The state after take-retained-backup for `round`: the block slot is
    /// cleared when the tracked round matches, and the tracked round itself
    /// is left unchanged either way.
    pub open spec fn after_take(self, round: u64) -> Self {
        if self.backup_proposal_round == round {
            MultiProposer {
                proposers: self.proposers,
                num_proposers_per_round: self.num_proposers_per_round,
                backup_proposal_round: self.backup_proposal_round,
                backup_proposal: None,
            }
        } else {
            self
        }
    }

    /// What take-retained-backup returns: the retained block, if the
    /// tracked round matches and the slot is full.
    pub open spec fn take_result(self, round: u64) -> Option<Block<T>> {
        if self.backup_proposal_round == round {
            match self.backup_proposal {
                None => None,
                Some((_, b)) => Some(b),
            }
        } else {
            None
        }
    }

    /// Echoes `author` back exactly when it is eligible at any rank for
    /// `round`.
    pub fn is_valid_proposer(&self, author: Author, round: u64) -> (r: Option<Author>)
        requires
            self.wf(),
        ensures
            r == (if self.spec_candidates(round).contains(author) {
                Some(author)
            } else {
                None::<Author>
            }),
    {
        let candidates = self.get_candidates(round);
        proof {
            lemma_rank_in_props(self.spec_candidates(round), author);
        }
        match rank_of_author(&candidates, author) {
            Some(_) => Some(author),
            None => None,
        }
    }

    /// The full ranked candidate list for `round`.
    pub fn get_valid_proposers(&self, round: u64) -> (r: Vec<Author>)
        requires
            self.wf(),
        ensures
            r@ == self.spec_candidates(round),
    {
        self.get_candidates(round)
    }

    /// Classifies `proposal` by rank for its round. A primary proposal is
    /// handed back for immediate processing; a backup-rank proposal is
    /// retained (or discarded) as `after_process` states; an unauthorized or
    /// authorless proposal is discarded.
    pub fn process_proposal(&mut self, proposal: Block<T>) -> (r: Option<Block<T>>)
        requires
            old(self).wf(),
        ensures
            final(self).wf(),
            *final(self) == old(self).after_process(proposal),
            r == old(self).process_result(proposal),
    {
        let author = match proposal.author {
            Some(a) => a,
            None => {
                return None;
            },
        };
        let round = proposal.round;
        let candidates = self.get_candidates(round);
        match rank_of_author(&candidates, author) {
            None => {
                // No candidate of this round matches: an unauthorized or
                // stale proposer, expected protocol noise.
                None
            },
            Some(rank) => {
                if rank == 0 {
                    // The primary proposal: hand it back for immediate
                    // processing; nothing is retained for it.
                    Some(proposal)
                } else {
                    // A valid non-primary proposal: retain it if it beats
                    // the current backup.
                    if round > self.backup_proposal_round {
                        self.backup_proposal = Some((rank, proposal));
                        self.backup_proposal_round = round;
                    } else if round == self.backup_proposal_round {
                        // Already have some backup slot for the given round:
                        // keep the best (lowest) rank.
                        let beats_current = match &self.backup_proposal {
                            Some((current_rank, _)) => rank < *current_rank,
                            None => true,
                        };
                        if beats_current {
                            self.backup_proposal = Some((rank, proposal));
                        }
                    }
                    None
                }
            },
        }
    }

    /// Removes and returns the retained backup block for `round`, if any.
    /// A second take for the same round finds the slot empty.
    pub fn take_backup_proposal(&mut self, round: u64) -> (r: Option<Block<T>>)
        ensures
            *final(self) == old(self).after_take(round),
            r == old(self).take_result(round),
    {
        if self.backup_proposal_round != round {
            return None;
        }
        let mut taken: Option<(usize, Block<T>)> = None;
        core::mem::swap(&mut self.backup_proposal, &mut taken);
        match taken {
            Some((_, block)) => Some(block),
            None => None,
        }
    }
}

/// Finds the rank of `author` in the candidate list: the first index that
/// holds it, if any.
fn rank_of_author(candidates: &Vec<Author>, author: Author) -> (r: Option<usize>)
    ensures
        (match r {
            Some(i) => rank_in(candidates@, author) == i as int,
            None => rank_in(candidates@, author) == -1,
        }),
{
    let mut i: usize = 0;
    while i < candidates.len()
        invariant
            i <= candidates@.len(),
            forall|j: int| 0 <= j < i ==> candidates@[j] != author,
        decreases candidates@.len() - i,
    {
        if candidates[i] == author {
            proof {
                lemma_rank_in_props(candidates@, author);
                assert(candidates@.contains(author));
                let rk = rank_in(candidates@, author);
                assert(candidates@[rk] == author);
                assert(rk == i as int);
            }
            return Some(i);
        }
        i = i + 1;
    }
    proof {
        lemma_rank_in_props(candidates@, author);
        if candidates@.contains(author) {
            let j = choose|j: int| 0 <= j < candidates@.len() && candidates@[j] == author;
            assert(false);
        }
    }
    None
}

/// Copies a list of authors element by element.
fn copy_authors(v: &Vec<Author>) -> (r: Vec<Author>)
    ensures
        r@ == v@,
{
    let mut r: Vec<Author> = Vec::new();
    let mut i: usize = 0;
    while i < v.len()
        invariant
            i <= v@.len(),
            r@ == v@.subrange(0, i as int),
        decreases v@.len() - i,
    {
        r.push(v[i]);
        proof {
            assert(r@ =~= v@.subrange(0, i as int + 1));
        }
        i = i + 1;
    }
    proof {
        assert(r@ =~= v@);
    }
    r
}

/// Determinism: two instances configured with the same proposer list and
/// the same per-round count compute the same candidate list for every
/// round, whatever their payload types or retained state.
pub proof fn lemma_candidates_deterministic<T, U>(
    p: MultiProposer<T>,
    q: MultiProposer<U>,
    round: u64,
)
    requires
        p.proposers@ == q.proposers@,
        p.num_proposers_per_round == q.num_proposers_per_round,
    ensures
        p.spec_candidates(round) == q.spec_candidates(round),
{
}

/// Distinctness: the candidate list of any round repeats no author, has
/// length exactly the per-round count, and draws every candidate from the
/// configured proposers.
pub proof fn lemma_candidates_distinct<T>(p: MultiProposer<T>, round: u64)
    requires
        p.wf(),
    ensures
        p.spec_candidates(round).no_duplicates(),
        p.spec_candidates(round).len() == p.num_proposers_per_round,
        forall|j: int|
            0 <= j < p.spec_candidates(round).len() ==> p.proposers@.contains(
                #[trigger] p.spec_candidates(round)[j],
            ),
{
    lemma_select_candidates_props(p.proposers@, round, p.num_proposers_per_round as nat);
}

/// Primary-path correctness: a proposal whose author is the rank-0
/// candidate of its round is handed straight back and changes no state.
pub proof fn lemma_primary_actionable<T>(p: MultiProposer<T>, b: Block<T>, a: Author)
    requires
        b.author == Some(a),
        p.spec_candidates(b.round).len() > 0,
        p.spec_candidates(b.round)[0] == a,
    ensures
        p.process_result(b) == Some(b),
        p.after_process(b) == p,
{
}

/// Backup preference: of two backup-rank proposals of the same round, with
/// the better-ranked one arriving second, the better-ranked one is
/// retained, and taking the backup for that round yields it.
pub proof fn lemma_backup_preference<T>(
    p: MultiProposer<T>,
    b1: Block<T>,
    b2: Block<T>,
    a1: Author,
    a2: Author,
)
    requires
        p.wf(),
        b1.author == Some(a1),
        b2.author == Some(a2),
        b1.round == b2.round,
        b1.round > p.backup_proposal_round,
        rank_in(p.spec_candidates(b1.round), a1) > 0,
        rank_in(p.spec_candidates(b2.round), a2) > 0,
        rank_in(p.spec_candidates(b2.round), a2) < rank_in(p.spec_candidates(b1.round), a1),
    ensures
        p.after_process(b1).after_process(b2).take_result(b1.round) == Some(b2),
{
    lemma_rank_in_props(p.spec_candidates(b1.round), a1);
    lemma_select_candidates_props(p.proposers@, b1.round, p.num_proposers_per_round as nat);
}

/// Round supersession: a backup-rank proposal of a newer round replaces the
/// retained backup outright; only its own round can then yield a backup,
/// and it yields the new block.
pub proof fn lemma_round_supersession<T>(p: MultiProposer<T>, b: Block<T>, a: Author)
    requires
        b.author == Some(a),
        rank_in(p.spec_candidates(b.round), a) > 0,
        b.round > p.backup_proposal_round,
    ensures
        p.after_process(b).take_result(b.round) == Some(b),
        forall|r0: u64| r0 != b.round ==> p.after_process(b).take_result(r0) is None,
{
}

/// Single consumption: whatever one take returns, an immediate second take
/// for the same round finds the slot empty.
pub proof fn lemma_single_consumption<T>(p: MultiProposer<T>, round: u64)
    ensures
        p.after_take(round).take_result(round) is None,
{
}

/// Unauthorized rejection: a proposal whose author is no candidate of its
/// round is not handed back and changes no state, so it can never be
/// retrieved through either return path.
pub proof fn lemma_unauthorized_rejected<T>(p: MultiProposer<T>, b: Block<T>, a: Author)
    requires
        b.author == Some(a),
        !p.spec_candidates(b.round).contains(a),
    ensures
        p.process_result(b) is None,
        p.after_process(b) == p,
{
    lemma_rank_in_props(p.spec_candidates(b.round), a);
}

} // verus!
