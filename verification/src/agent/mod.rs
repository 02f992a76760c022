//! The review of ambiguous trades by a language model.

pub mod anthropic;
pub mod decision;
pub mod laws;
pub mod prompt;

use crate::num::double::Double;
use crate::text::texts;
use anthropic::{decision_request, MessagesRequest};
use prompt::{build_system_prompt, build_user_prompt, system_prompt, user_prompt};
use vstd::prelude::*;

pub use anthropic::AnthropicClient;
pub use decision::StrategyDecision;

verus! {

/// The trade that the rule engine proposes.
#[derive(Debug)]
pub struct RuleProposal {
    pub strategy_type: String,
    pub contracts: u32,
    pub max_risk_dollars: Double,
    pub est_delta: Double,
    pub est_vega: Double,
    pub est_theta_day: Double,
    pub target_dte: u32,
    pub entry_urgency: String,
    pub rationale: String,
}

/// What a proposal says.
pub struct ProposalView {
    pub strategy_type: Seq<char>,
    pub contracts: u32,
    pub max_risk_dollars: Double,
    pub est_delta: Double,
    pub est_vega: Double,
    pub est_theta_day: Double,
    pub target_dte: u32,
    pub entry_urgency: Seq<char>,
    pub rationale: Seq<char>,
}

impl View for RuleProposal {
    type V = ProposalView;

    open spec fn view(&self) -> ProposalView {
        ProposalView {
            strategy_type: self.strategy_type@,
            contracts: self.contracts,
            max_risk_dollars: self.max_risk_dollars,
            est_delta: self.est_delta,
            est_vega: self.est_vega,
            est_theta_day: self.est_theta_day,
            target_dte: self.target_dte,
            entry_urgency: self.entry_urgency@,
            rationale: self.rationale@,
        }
    }
}

/// Asks the model about ambiguous trades.
pub struct StrategyAgent {
    client: AnthropicClient,
}

impl StrategyAgent {
    pub closed spec fn key(self) -> Seq<char> {
        self.client.key()
    }

    pub closed spec fn model_name(self) -> Seq<char> {
        self.client.model_name()
    }

    pub fn new(api_key: String, model: String) -> (r: StrategyAgent)
        ensures
            r.key() == api_key@,
            r.model_name() == model@,
    {
        StrategyAgent { client: AnthropicClient::new(api_key, model) }
    }

    /// The call that asks the model about one trade.
    pub fn consult(
        &self,
        zeta_context: &str,
        llm_questions: &Vec<String>,
        rule_proposal: &RuleProposal,
    ) -> (r: MessagesRequest)
        ensures
            r@ == decision_request(
                self.key(),
                self.model_name(),
                system_prompt(),
                user_prompt(zeta_context@, texts(llm_questions@), rule_proposal@),
            ),
    {
        let system: String = build_system_prompt();
        let user: String = build_user_prompt(zeta_context, llm_questions, rule_proposal);
        self.client.call_with_tools(system.as_str(), user.as_str())
    }
}

} // verus!
