//! Signals of the rule engine, and how they arrive.

use crate::agent::RuleProposal;
use crate::execution::StrikeCandidate;
use crate::num::double::Double;
use crate::outside::utf8_text;
use crate::text;
use crate::text::{occurs, texts};
use vstd::prelude::*;
use vstd::std_specs::convert::FromSpecImpl;
use vstd::utf8::{decode_utf8, valid_utf8};

verus! {

/// A signal: the state of the market, the trade that is proposed, and the options to make it of.
#[derive(Debug)]
pub struct ZetaSignal {
    pub timestamp: String,
    pub symbol: String,
    pub zeta_context: String,
    /// Whether the proposal is ambiguous and a model must review it.
    pub needs_llm: bool,
    pub llm_questions: Vec<String>,
    pub proposal: RuleProposalMsg,
    pub chain_candidates: Vec<StrikeCandidate>,
}

/// A proposal as the rule engine sends it.
#[derive(Debug)]
pub struct RuleProposalMsg {
    pub strategy_type: String,
    pub contracts: u32,
    pub max_risk_dollars: Double,
    pub est_delta: Double,
    pub est_vega: Double,
    pub est_theta_day: Double,
    pub target_dte: u32,
    pub entry_urgency: String,
    pub rationale: String,
    /// Whether the trade keeps the hard limits on risk.
    pub passes_limits: bool,
    pub limit_violations: Vec<String>,
}

/// The part of a proposal that the model sees.
pub open spec fn reviewed_part(m: RuleProposalMsg) -> RuleProposal {
    RuleProposal {
        strategy_type: m.strategy_type,
        contracts: m.contracts,
        max_risk_dollars: m.max_risk_dollars,
        est_delta: m.est_delta,
        est_vega: m.est_vega,
        est_theta_day: m.est_theta_day,
        target_dte: m.target_dte,
        entry_urgency: m.entry_urgency,
        rationale: m.rationale,
    }
}

impl From<RuleProposalMsg> for RuleProposal {
    fn from(m: RuleProposalMsg) -> (r: RuleProposal) {
        RuleProposal {
            strategy_type: m.strategy_type,
            contracts: m.contracts,
            max_risk_dollars: m.max_risk_dollars,
            est_delta: m.est_delta,
            est_vega: m.est_vega,
            est_theta_day: m.est_theta_day,
            target_dte: m.target_dte,
            entry_urgency: m.entry_urgency,
            rationale: m.rationale,
        }
    }
}

impl FromSpecImpl<RuleProposalMsg> for RuleProposal {
    open spec fn obeys_from_spec() -> bool {
        true
    }

    open spec fn from_spec(m: RuleProposalMsg) -> RuleProposal {
        reviewed_part(m)
    }
}

impl Clone for RuleProposalMsg {
    fn clone(&self) -> (r: RuleProposalMsg)
        ensures
            reviewed_part(r) == reviewed_part(*self),
            r.passes_limits == self.passes_limits,
            texts(r.limit_violations@) == texts(self.limit_violations@),
    {
        RuleProposalMsg {
            strategy_type: self.strategy_type.clone(),
            contracts: self.contracts,
            max_risk_dollars: self.max_risk_dollars,
            est_delta: self.est_delta,
            est_vega: self.est_vega,
            est_theta_day: self.est_theta_day,
            target_dte: self.target_dte,
            entry_urgency: self.entry_urgency.clone(),
            rationale: self.rationale.clone(),
            passes_limits: self.passes_limits,
            limit_violations: text::own_all(&self.limit_violations),
        }
    }
}

// ── Receiving ───────────────────────────────────────────────────────────────

/// Pause after a failed receive, in milliseconds.
pub const RETRY_MILLIS: u64 = 100;

/// Where signals arrive.
pub struct ZetaReceiver {
    endpoint: String,
}

/// What to do with what was received.
#[derive(Debug)]
pub enum Received {
    /// Nothing arrived: wait, then try again.
    Wait { millis: u64 },
    /// The message is not text: drop it.
    NotText,
    /// The sender is alive; there is nothing to do.
    Heartbeat(String),
    /// Read the text as a signal.
    Signal(String),
}

/// The frames of a message, one after the other.
pub open spec fn whole_message(frames: Seq<Vec<u8>>) -> Seq<u8>
    decreases frames.len(),
{
    if frames.len() == 0 {
        Seq::empty()
    } else {
        whole_message(frames.drop_last()) + frames.last()@
    }
}

fn join_frames(frames: &Vec<Vec<u8>>) -> (r: Vec<u8>)
    ensures
        r@ == whole_message(frames@),
{
    let mut out: Vec<u8> = Vec::new();
    let mut i: usize = 0;
    while i < frames.len()
        invariant
            i <= frames.len(),
            out@ == whole_message(frames@.take(i as int)),
        decreases frames.len() - i,
    {
        let frame: &Vec<u8> = &frames[i];
        out.extend_from_slice(frame.as_slice());
        assert(frames@.take(i + 1).drop_last() == frames@.take(i as int));
        i = i + 1;
    }
    assert(frames@.take(i as int) == frames@);
    out
}

impl ZetaReceiver {
    pub closed spec fn place(self) -> Seq<char> {
        self.endpoint@
    }

    pub fn new(endpoint: String) -> (r: ZetaReceiver)
        ensures
            r.place() == endpoint@,
    {
        ZetaReceiver { endpoint }
    }

    pub fn endpoint(&self) -> (r: &str)
        ensures
            r@ == self.place(),
    {
        self.endpoint.as_str()
    }

    /// One round of receiving: sorts what came in, which is the frames of a message, or nothing
    /// if receiving failed.
    pub fn run(received: Option<Vec<Vec<u8>>>) -> (r: Received)
        ensures
            match received {
                None => r == (Received::Wait { millis: RETRY_MILLIS }),
                Some(frames) => {
                    let bytes = whole_message(frames@);
                    if !valid_utf8(bytes) {
                        r == Received::NotText
                    } else if occurs(decode_utf8(bytes), "\"heartbeat\""@) {
                        r matches Received::Heartbeat(s) && s@ == decode_utf8(bytes)
                    } else {
                        r matches Received::Signal(s) && s@ == decode_utf8(bytes)
                    }
                },
            },
    {
        match received {
            None => Received::Wait { millis: RETRY_MILLIS },
            Some(frames) => {
                let bytes: Vec<u8> = join_frames(&frames);
                match utf8_text(bytes.as_slice()) {
                    None => Received::NotText,
                    Some(s) => {
                        if text::contains(s.as_str(), "\"heartbeat\"") {
                            Received::Heartbeat(s)
                        } else {
                            Received::Signal(s)
                        }
                    },
                }
            },
        }
    }
}

} // verus!
