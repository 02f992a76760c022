//! What is kept of a signal and of the frames that it arrives in.

use crate::agent::RuleProposal;
use crate::ipc::{reviewed_part, whole_message, RuleProposalMsg};
use vstd::prelude::*;
use vstd::std_specs::convert::FromSpec;

verus! {

/// Frames that follow others are appended, and a single frame is the message.
pub proof fn law_messages_are_all_their_frames(a: Seq<Vec<u8>>, frame: Vec<u8>, b: Seq<Vec<u8>>)
    ensures
        whole_message(Seq::empty()).len() == 0,
        whole_message(seq![frame]) == frame@,
        whole_message(a.push(frame)) == whole_message(a) + frame@,
        whole_message(a + b) == whole_message(a) + whole_message(b),
{
    assert(a.push(frame).drop_last() =~= a);
    assert(seq![frame].drop_last() =~= Seq::empty());
    assert(whole_message(Seq::empty()) =~= Seq::empty());
    assert(Seq::<u8>::empty() + frame@ =~= frame@);
    lemma_frames_of_both(a, b);
}

proof fn lemma_frames_of_both(a: Seq<Vec<u8>>, b: Seq<Vec<u8>>)
    ensures
        whole_message(a + b) == whole_message(a) + whole_message(b),
    decreases b.len(),
{
    if b.len() == 0 {
        assert(a + b =~= a);
    } else {
        lemma_frames_of_both(a, b.drop_last());
        assert((a + b).drop_last() =~= a + b.drop_last());
        assert((a + b).last() == b.last());
    }
}

/// The bytes of every frame stand in the message, behind those of the frames before it.
pub proof fn law_every_frame_stands_in_the_message(frames: Seq<Vec<u8>>, i: int, k: int)
    requires
        0 <= i < frames.len(),
        0 <= k < frames[i]@.len(),
    ensures
        ({
            let before = whole_message(frames.take(i)).len();
            &&& before + k < whole_message(frames).len()
            &&& whole_message(frames)[before + k] == frames[i]@[k]
        }),
{
    let head: Seq<Vec<u8>> = frames.take(i + 1);
    assert(head.drop_last() =~= frames.take(i));
    assert(frames =~= head + frames.skip(i + 1));
    lemma_frames_of_both(head, frames.skip(i + 1));
}

/// The model sees all of a proposal but whether it keeps the limits.
pub proof fn law_the_model_sees_the_proposal(m: RuleProposalMsg)
    ensures
        ({
            let p = <RuleProposal as FromSpec<RuleProposalMsg>>::from_spec(m);
            &&& <RuleProposal as FromSpec<RuleProposalMsg>>::obeys_from_spec()
            &&& p == reviewed_part(m)
            &&& p.strategy_type == m.strategy_type
            &&& p.contracts == m.contracts
            &&& p.max_risk_dollars == m.max_risk_dollars
            &&& p.est_delta == m.est_delta
            &&& p.est_vega == m.est_vega
            &&& p.est_theta_day == m.est_theta_day
            &&& p.target_dte == m.target_dte
            &&& p.entry_urgency == m.entry_urgency
            &&& p.rationale == m.rationale
        }),
{
}

} // verus!
