use crate::bytes::B256;
use crate::journal::ProofJournal;
use crate::proposal::{first_occurrence, Proposal};
use crate::watcher::PlanError;
use vstd::prelude::*;

verus! {

/// What the chain and the nodes reported about a proof before submission.
#[derive(Clone, Copy, Debug)]
pub struct ChainFacts {
    /// Whether the receipt verified against the tournament's image id.
    pub receipt_verified: bool,
    /// The rollup node's output root at the claimed block.
    pub live_output: B256,
    /// The tournament's current proof status for the match.
    pub proof_status: u8,
    /// The tournament's configuration hash.
    pub config_hash: B256,
    /// The claimed output root reduced to a field element.
    pub claimed_fe: B256,
    /// The digest binding the contender's and the proposal's blobs.
    pub precondition_hash: B256,
}

/// A discrepancy found while checking a proof; none of them stops the
/// submission, since the contract decides.
#[derive(Clone, Copy, Debug, PartialEq, Eq, Structural)]
pub enum ProofWarning {
    ReceiptNotVerified,
    ContenderOutputMismatch,
    ProposalOutputMismatch,
    LiveOutputMismatch,
    ContenderRootMismatch,
    ProposalRootMismatch,
    ParentOutputMismatch,
    PreconditionMismatch,
    ConfigHashMismatch,
    L1HeadMismatch,
    BlockNumberMismatch,
}

/// The arguments of a `prove` submission, less the seal and the KZG
/// material, with the openings it needs and the warnings raised.
#[derive(Debug)]
pub struct SubmissionPlan {
    /// Rank of the contender in the parent's tournament.
    pub u_index: u64,
    /// Rank of the proposal in the parent's tournament.
    pub v_index: u64,
    /// The disputed output position.
    pub challenge_position: u64,
    /// Position of the agreed output to open on both sides, if intermediate.
    pub lower_opening: Option<u64>,
    /// Position of the disputed output to open on both sides, if intermediate.
    pub upper_opening: Option<u64>,
    /// Whether the disputed output is the proposal's final output root.
    pub endpoint: bool,
    /// The contender's output at the disputed position.
    pub contender_output: B256,
    /// The proposal's output at the disputed position.
    pub proposal_output: B256,
    /// The agreed output root from the journal.
    pub agreed_output: B256,
    /// The claimed output root from the journal.
    pub claimed_output: B256,
    /// The discrepancies found, in the order they were checked.
    pub warnings: Vec<ProofWarning>,
}

/// `w` when `cond` holds, nothing otherwise.
pub open spec fn warn_if(cond: bool, w: ProofWarning) -> Seq<ProofWarning> {
    if cond {
        seq![w]
    } else {
        seq![]
    }
}

/// The disputed position that a journal's claimed block stands for.
pub open spec fn position_of(parent: &Proposal, j: &ProofJournal) -> int {
    j.claimed_l2_block_number - parent.output_block_number - 1
}

/// The warnings raised for a proof, in order.
pub open spec fn expected_warnings(
    parent: &Proposal,
    contender: &Proposal,
    proposal: &Proposal,
    j: &ProofJournal,
    facts: &ChainFacts,
) -> Seq<ProofWarning> {
    let pos = position_of(parent, j);
    let endpoint = j.claimed_l2_block_number == proposal.output_block_number;
    let both_openings = pos > 0 && j.claimed_l2_block_number < proposal.output_block_number;
    warn_if(!facts.receipt_verified, ProofWarning::ReceiptNotVerified) + warn_if(
        contender.spec_output_at(pos) != facts.claimed_fe@,
        ProofWarning::ContenderOutputMismatch,
    ) + warn_if(
        proposal.spec_output_at(pos) != facts.claimed_fe@,
        ProofWarning::ProposalOutputMismatch,
    ) + warn_if(facts.live_output@ != j.claimed_l2_output_root@, ProofWarning::LiveOutputMismatch)
        + warn_if(
        endpoint && contender.output_root@ != contender.spec_output_at(pos),
        ProofWarning::ContenderRootMismatch,
    ) + warn_if(
        endpoint && proposal.output_root@ != proposal.spec_output_at(pos),
        ProofWarning::ProposalRootMismatch,
    ) + warn_if(
        pos == 0 && parent.output_root@ != j.agreed_l2_output_root@,
        ProofWarning::ParentOutputMismatch,
    ) + warn_if(
        both_openings && facts.precondition_hash@ != j.precondition_output@,
        ProofWarning::PreconditionMismatch,
    ) + warn_if(facts.config_hash@ != j.config_hash@, ProofWarning::ConfigHashMismatch) + warn_if(
        proposal.l1_head@ != j.l1_head@,
        ProofWarning::L1HeadMismatch,
    ) + warn_if(
        parent.output_block_number + pos + 1 != j.claimed_l2_block_number,
        ProofWarning::BlockNumberMismatch,
    )
}

/// Whether a warning is raised for a proof.
pub open spec fn warning_raised(
    w: ProofWarning,
    parent: &Proposal,
    contender: &Proposal,
    proposal: &Proposal,
    j: &ProofJournal,
    facts: &ChainFacts,
) -> bool {
    let pos = position_of(parent, j);
    let endpoint = j.claimed_l2_block_number == proposal.output_block_number;
    let both_openings = pos > 0 && j.claimed_l2_block_number < proposal.output_block_number;
    match w {
        ProofWarning::ReceiptNotVerified => !facts.receipt_verified,
        ProofWarning::ContenderOutputMismatch => contender.spec_output_at(pos) != facts.claimed_fe@,
        ProofWarning::ProposalOutputMismatch => proposal.spec_output_at(pos) != facts.claimed_fe@,
        ProofWarning::LiveOutputMismatch => facts.live_output@ != j.claimed_l2_output_root@,
        ProofWarning::ContenderRootMismatch => endpoint && contender.output_root@
            != contender.spec_output_at(pos),
        ProofWarning::ProposalRootMismatch => endpoint && proposal.output_root@
            != proposal.spec_output_at(pos),
        ProofWarning::ParentOutputMismatch => pos == 0 && parent.output_root@
            != j.agreed_l2_output_root@,
        ProofWarning::PreconditionMismatch => both_openings && facts.precondition_hash@
            != j.precondition_output@,
        ProofWarning::ConfigHashMismatch => facts.config_hash@ != j.config_hash@,
        ProofWarning::L1HeadMismatch => proposal.l1_head@ != j.l1_head@,
        ProofWarning::BlockNumberMismatch => parent.output_block_number + pos + 1
            != j.claimed_l2_block_number,
    }
}

proof fn lemma_concat_contains(a: Seq<ProofWarning>, b: Seq<ProofWarning>, x: ProofWarning)
    ensures
        (a + b).contains(x) <==> a.contains(x) || b.contains(x),
{
    if (a + b).contains(x) {
        let i = choose|i: int| 0 <= i < (a + b).len() && (a + b)[i] == x;
        if i >= a.len() {
            assert(b[i - a.len()] == x);
        }
    }
    if a.contains(x) {
        let i = choose|i: int| 0 <= i < a.len() && a[i] == x;
        assert((a + b)[i] == x);
    }
    if b.contains(x) {
        let i = choose|i: int| 0 <= i < b.len() && b[i] == x;
        assert((a + b)[i + a.len()] == x);
    }
}

proof fn lemma_warn_if_contains(cond: bool, w: ProofWarning, x: ProofWarning)
    ensures
        warn_if(cond, w).contains(x) <==> cond && x == w,
{
    if cond {
        assert(warn_if(cond, w)[0] == w);
    }
}

/// Each warning is raised exactly when its check fails.
pub proof fn lemma_warnings_exact(
    parent: &Proposal,
    contender: &Proposal,
    proposal: &Proposal,
    j: &ProofJournal,
    facts: &ChainFacts,
)
    ensures
        forall|w: ProofWarning|
            #[trigger] expected_warnings(parent, contender, proposal, j, facts).contains(w)
                <==> warning_raised(w, parent, contender, proposal, j, facts),
{
    let pos = position_of(parent, j);
    let endpoint = j.claimed_l2_block_number == proposal.output_block_number;
    let both_openings = pos > 0 && j.claimed_l2_block_number < proposal.output_block_number;
    let s1 = warn_if(!facts.receipt_verified, ProofWarning::ReceiptNotVerified);
    let s2 = warn_if(
        contender.spec_output_at(pos) != facts.claimed_fe@,
        ProofWarning::ContenderOutputMismatch,
    );
    let s3 = warn_if(
        proposal.spec_output_at(pos) != facts.claimed_fe@,
        ProofWarning::ProposalOutputMismatch,
    );
    let s4 = warn_if(facts.live_output@ != j.claimed_l2_output_root@, ProofWarning::LiveOutputMismatch);
    let s5 = warn_if(
        endpoint && contender.output_root@ != contender.spec_output_at(pos),
        ProofWarning::ContenderRootMismatch,
    );
    let s6 = warn_if(
        endpoint && proposal.output_root@ != proposal.spec_output_at(pos),
        ProofWarning::ProposalRootMismatch,
    );
    let s7 = warn_if(
        pos == 0 && parent.output_root@ != j.agreed_l2_output_root@,
        ProofWarning::ParentOutputMismatch,
    );
    let s8 = warn_if(
        both_openings && facts.precondition_hash@ != j.precondition_output@,
        ProofWarning::PreconditionMismatch,
    );
    let s9 = warn_if(facts.config_hash@ != j.config_hash@, ProofWarning::ConfigHashMismatch);
    let s10 = warn_if(proposal.l1_head@ != j.l1_head@, ProofWarning::L1HeadMismatch);
    let s11 = warn_if(
        parent.output_block_number + pos + 1 != j.claimed_l2_block_number,
        ProofWarning::BlockNumberMismatch,
    );
    assert(expected_warnings(parent, contender, proposal, j, facts) == s1 + s2 + s3 + s4 + s5 + s6
        + s7 + s8 + s9 + s10 + s11);
    assert forall|w: ProofWarning|
        #[trigger] expected_warnings(parent, contender, proposal, j, facts).contains(w)
            <==> warning_raised(w, parent, contender, proposal, j, facts) by {
        lemma_concat_contains(s1, s2, w);
        lemma_concat_contains(s1 + s2, s3, w);
        lemma_concat_contains(s1 + s2 + s3, s4, w);
        lemma_concat_contains(s1 + s2 + s3 + s4, s5, w);
        lemma_concat_contains(s1 + s2 + s3 + s4 + s5, s6, w);
        lemma_concat_contains(s1 + s2 + s3 + s4 + s5 + s6, s7, w);
        lemma_concat_contains(s1 + s2 + s3 + s4 + s5 + s6 + s7, s8, w);
        lemma_concat_contains(s1 + s2 + s3 + s4 + s5 + s6 + s7 + s8, s9, w);
        lemma_concat_contains(s1 + s2 + s3 + s4 + s5 + s6 + s7 + s8 + s9, s10, w);
        lemma_concat_contains(s1 + s2 + s3 + s4 + s5 + s6 + s7 + s8 + s9 + s10, s11, w);
        lemma_warn_if_contains(!facts.receipt_verified, ProofWarning::ReceiptNotVerified, w);
        lemma_warn_if_contains(
            contender.spec_output_at(pos) != facts.claimed_fe@,
            ProofWarning::ContenderOutputMismatch,
            w,
        );
        lemma_warn_if_contains(
            proposal.spec_output_at(pos) != facts.claimed_fe@,
            ProofWarning::ProposalOutputMismatch,
            w,
        );
        lemma_warn_if_contains(
            facts.live_output@ != j.claimed_l2_output_root@,
            ProofWarning::LiveOutputMismatch,
            w,
        );
        lemma_warn_if_contains(
            endpoint && contender.output_root@ != contender.spec_output_at(pos),
            ProofWarning::ContenderRootMismatch,
            w,
        );
        lemma_warn_if_contains(
            endpoint && proposal.output_root@ != proposal.spec_output_at(pos),
            ProofWarning::ProposalRootMismatch,
            w,
        );
        lemma_warn_if_contains(
            pos == 0 && parent.output_root@ != j.agreed_l2_output_root@,
            ProofWarning::ParentOutputMismatch,
            w,
        );
        lemma_warn_if_contains(
            both_openings && facts.precondition_hash@ != j.precondition_output@,
            ProofWarning::PreconditionMismatch,
            w,
        );
        lemma_warn_if_contains(
            facts.config_hash@ != j.config_hash@,
            ProofWarning::ConfigHashMismatch,
            w,
        );
        lemma_warn_if_contains(proposal.l1_head@ != j.l1_head@, ProofWarning::L1HeadMismatch, w);
        lemma_warn_if_contains(
            parent.output_block_number + pos + 1 != j.claimed_l2_block_number,
            ProofWarning::BlockNumberMismatch,
            w,
        );
    }
}

/// Appends `w` when `cond` holds.
fn push_warning(ws: &mut Vec<ProofWarning>, cond: bool, w: ProofWarning)
    ensures
        final(ws)@ == old(ws)@ + warn_if(cond, w),
{
    if cond {
        ws.push(w);
    }
    assert(final(ws)@ =~= old(ws)@ + warn_if(cond, w));
}

/// Plans the submission of a proof of the match between the proposal's
/// contender and the proposal, from the proof's journal and what the chain
/// reported. `Ok(None)` when the match is already proven on chain.
pub fn plan_submission(
    parent: &Proposal,
    contender: &Proposal,
    proposal: &Proposal,
    journal: &ProofJournal,
    facts: &ChainFacts,
) -> (r: Result<Option<SubmissionPlan>, PlanError>)
    ensures
        r == Err::<Option<SubmissionPlan>, PlanError>(PlanError::NoContender) <==> proposal.contender
            != Some(contender.index),
        r == Err::<Option<SubmissionPlan>, PlanError>(PlanError::NotAChild) <==> (
        proposal.contender == Some(contender.index) && !(parent.children@.contains(
            contender.index,
        ) && parent.children@.contains(proposal.index))),
        r == Err::<Option<SubmissionPlan>, PlanError>(PlanError::BlockOutOfRange) <==> (
        proposal.contender == Some(contender.index) && parent.children@.contains(contender.index)
            && parent.children@.contains(proposal.index) && !(parent.output_block_number
            < journal.claimed_l2_block_number && position_of(parent, journal)
            <= contender.io_len() && position_of(parent, journal) <= proposal.io_len())),
        r is Err ==> r->Err_0 != PlanError::NoDivergence,
        r == Ok::<Option<SubmissionPlan>, PlanError>(None) <==> (r is Ok && facts.proof_status
            != 0),
        r is Ok && r->Ok_0 is Some ==> ({
            let p = r->Ok_0->Some_0;
            let pos = position_of(parent, journal);
            &&& first_occurrence(parent.children@, contender.index, p.u_index as int)
            &&& first_occurrence(parent.children@, proposal.index, p.v_index as int)
            &&& p.challenge_position == pos
            &&& p.lower_opening == (if pos > 0 {
                Some((pos - 1) as u64)
            } else {
                None
            })
            &&& p.upper_opening == (if journal.claimed_l2_block_number
                < proposal.output_block_number {
                Some(pos as u64)
            } else {
                None
            })
            &&& p.endpoint == (journal.claimed_l2_block_number == proposal.output_block_number)
            &&& p.contender_output@ == contender.spec_output_at(pos)
            &&& p.proposal_output@ == proposal.spec_output_at(pos)
            &&& p.agreed_output == journal.agreed_l2_output_root
            &&& p.claimed_output == journal.claimed_l2_output_root
            &&& p.warnings@ == expected_warnings(parent, contender, proposal, journal, facts)
            &&& forall|w: ProofWarning|
                p.warnings@.contains(w) <==> warning_raised(
                    w,
                    parent,
                    contender,
                    proposal,
                    journal,
                    facts,
                )
        }),
{
    match proposal.contender {
        Some(c) => {
            if c != contender.index {
                return Err(PlanError::NoContender);
            }
        },
        None => {
            return Err(PlanError::NoContender);
        },
    }
    let u_index = match parent.child_index(contender.index) {
        Some(u) => u,
        None => {
            return Err(PlanError::NotAChild);
        },
    };
    let v_index = match parent.child_index(proposal.index) {
        Some(v) => v,
        None => {
            return Err(PlanError::NotAChild);
        },
    };
    if journal.claimed_l2_block_number <= parent.output_block_number {
        return Err(PlanError::BlockOutOfRange);
    }
    let challenge_position = journal.claimed_l2_block_number - parent.output_block_number - 1;
    if challenge_position > contender.io_field_elements.len() as u64 || challenge_position
        > proposal.io_field_elements.len() as u64 {
        return Err(PlanError::BlockOutOfRange);
    }
    if facts.proof_status != 0 {
        return Ok(None);
    }
    let pos = challenge_position as usize;
    let contender_output = contender.output_at(pos);
    let proposal_output = proposal.output_at(pos);
    let lower_opening = if challenge_position > 0 {
        Some(challenge_position - 1)
    } else {
        None
    };
    let upper_opening = if journal.claimed_l2_block_number < proposal.output_block_number {
        Some(challenge_position)
    } else {
        None
    };
    let endpoint = journal.claimed_l2_block_number == proposal.output_block_number;
    let both_openings = lower_opening.is_some() && upper_opening.is_some();
    let mut warnings: Vec<ProofWarning> = Vec::new();
    push_warning(&mut warnings, !facts.receipt_verified, ProofWarning::ReceiptNotVerified);
    push_warning(
        &mut warnings,
        !contender_output.same(&facts.claimed_fe),
        ProofWarning::ContenderOutputMismatch,
    );
    push_warning(
        &mut warnings,
        !proposal_output.same(&facts.claimed_fe),
        ProofWarning::ProposalOutputMismatch,
    );
    push_warning(
        &mut warnings,
        !facts.live_output.same(&journal.claimed_l2_output_root),
        ProofWarning::LiveOutputMismatch,
    );
    push_warning(
        &mut warnings,
        endpoint && !contender.output_root.same(&contender_output),
        ProofWarning::ContenderRootMismatch,
    );
    push_warning(
        &mut warnings,
        endpoint && !proposal.output_root.same(&proposal_output),
        ProofWarning::ProposalRootMismatch,
    );
    push_warning(
        &mut warnings,
        challenge_position == 0 && !parent.output_root.same(&journal.agreed_l2_output_root),
        ProofWarning::ParentOutputMismatch,
    );
    push_warning(
        &mut warnings,
        both_openings && !facts.precondition_hash.same(&journal.precondition_output),
        ProofWarning::PreconditionMismatch,
    );
    push_warning(
        &mut warnings,
        !facts.config_hash.same(&journal.config_hash),
        ProofWarning::ConfigHashMismatch,
    );
    push_warning(
        &mut warnings,
        !proposal.l1_head.same(&journal.l1_head),
        ProofWarning::L1HeadMismatch,
    );
    push_warning(
        &mut warnings,
        parent.output_block_number as u128 + challenge_position as u128 + 1
            != journal.claimed_l2_block_number as u128,
        ProofWarning::BlockNumberMismatch,
    );
    assert(warnings@ =~= expected_warnings(parent, contender, proposal, journal, facts));
    proof {
        lemma_warnings_exact(parent, contender, proposal, journal, facts);
    }
    Ok(
        Some(
            SubmissionPlan {
                u_index,
                v_index,
                challenge_position,
                lower_opening,
                upper_opening,
                endpoint,
                contender_output,
                proposal_output,
                agreed_output: journal.agreed_l2_output_root,
                claimed_output: journal.claimed_l2_output_root,
                warnings,
            },
        ),
    )
}

} // verus!
