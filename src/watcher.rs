use crate::proposal::Proposal;
use vstd::prelude::*;

verus! {

/// Where a child stands in the tournament of its parent.
#[derive(Clone, Copy, Debug, PartialEq, Eq, Structural)]
pub enum MatchState {
    /// No earlier sibling disagrees with it.
    Uncontended,
    /// It disputes an earlier sibling and no proof is posted yet.
    ContestedUnproven,
    /// The match with its contender is already proven on chain.
    ContestedProven,
}

/// The state of a child from its contender and the on-chain proof status of
/// its match.
pub fn classify_match(contender: Option<u64>, proof_status: u8) -> (r: MatchState)
    ensures
        r == (if contender is None {
            MatchState::Uncontended
        } else if proof_status == 0 {
            MatchState::ContestedUnproven
        } else {
            MatchState::ContestedProven
        }),
{
    match contender {
        None => MatchState::Uncontended,
        Some(_) => {
            if proof_status == 0 {
                MatchState::ContestedUnproven
            } else {
                MatchState::ContestedProven
            }
        },
    }
}

/// A proof is requested exactly for a contested match that is not proven.
pub fn needs_proof(contender: Option<u64>, proof_status: u8) -> (r: bool)
    ensures
        r == (contender is Some && proof_status == 0),
{
    classify_match(contender, proof_status) == MatchState::ContestedUnproven
}

/// The ranks `(u, v)` of the contender and the proposal in their parent's
/// tournament.
pub fn match_indices(parent: &Proposal, contender: u64, proposal: u64) -> (r: Option<(u64, u64)>)
    ensures
        r is Some <==> parent.children@.contains(contender) && parent.children@.contains(
            proposal,
        ),
        r is Some ==> crate::proposal::first_occurrence(parent.children@, contender, r->Some_0.0 as int)
            && crate::proposal::first_occurrence(parent.children@, proposal, r->Some_0.1 as int),
{
    let u = parent.child_index(contender);
    let v = parent.child_index(proposal);
    match (u, v) {
        (Some(u), Some(v)) => Some((u, v)),
        _ => None,
    }
}

/// Why a proof could not be planned.
#[derive(Clone, Copy, Debug, PartialEq, Eq, Structural)]
pub enum PlanError {
    /// The two proposals do not disagree at any position they share.
    NoDivergence,
    /// The proposal has no contender.
    NoContender,
    /// The contender or the proposal is not a child of the parent.
    NotAChild,
    /// The claimed block does not lie within the proposal's span.
    BlockOutOfRange,
}

/// The blocks that a proof of a match starts from and ends at.
#[derive(Clone, Copy, Debug, PartialEq, Eq, Structural)]
pub struct RequestPlan {
    /// First position where contender and proposal disagree.
    pub challenge_point: u64,
    /// The last block both agree on.
    pub agreed_l2_head_number: u64,
    /// The block whose output is in dispute.
    pub claimed_l2_block_number: u64,
    /// Whether the proof must bind both sides' intermediate-output blobs.
    pub needs_precondition: bool,
}

/// Plans the proof of the match between `contender` and `proposal`: from
/// the first position where they disagree, the agreed block just before it
/// and the claimed block at it.
pub fn plan_proof_request(contender: &Proposal, proposal: &Proposal) -> (r: Result<
    RequestPlan,
    PlanError,
>)
    ensures
        r == Err::<RequestPlan, PlanError>(PlanError::NoDivergence) <==> contender.divergence(
            proposal,
        ) is None,
        r is Err ==> r->Err_0 == PlanError::NoDivergence || r->Err_0 == PlanError::BlockOutOfRange,
        r is Ok ==> ({
            let p = r->Ok_0;
            &&& contender.divergence(proposal) == Some(p.challenge_point as nat)
            &&& p.agreed_l2_head_number == proposal.output_block_number - proposal.io_len() - 1
                + p.challenge_point
            &&& p.claimed_l2_block_number == p.agreed_l2_head_number + 1
            &&& p.needs_precondition == (p.challenge_point > 0 && p.challenge_point
                < proposal.io_len())
        }),
        r is Err && contender.divergence(proposal) is Some ==> ({
            let k = contender.divergence(proposal)->Some_0;
            !(proposal.io_len() + 1 <= proposal.output_block_number && proposal.output_block_number
                - proposal.io_len() + k <= u64::MAX)
        }),
{
    let challenge_point = match contender.divergence_point(proposal) {
        Some(k) => k as u64,
        None => {
            return Err(PlanError::NoDivergence);
        },
    };
    let n = proposal.io_field_elements.len() as u64;
    if n >= proposal.output_block_number {
        return Err(PlanError::BlockOutOfRange);
    }
    let base = proposal.output_block_number - n - 1;
    if challenge_point > u64::MAX - 1 - base {
        return Err(PlanError::BlockOutOfRange);
    }
    let agreed_l2_head_number = base + challenge_point;
    Ok(
        RequestPlan {
            challenge_point,
            agreed_l2_head_number,
            claimed_l2_block_number: agreed_l2_head_number + 1,
            needs_precondition: proposal.has_precondition_for(challenge_point),
        },
    )
}

/// The block that holds a proposal's blob: the one after its L1 head.
pub fn blob_block_number(l1_head_number: u64) -> (r: Option<u64>)
    ensures
        r is Some <==> l1_head_number < u64::MAX,
        r is Some ==> r->Some_0 == l1_head_number + 1,
{
    if l1_head_number < u64::MAX {
        Some(l1_head_number + 1)
    } else {
        None
    }
}

} // verus!
