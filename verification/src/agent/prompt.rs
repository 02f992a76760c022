//! What the reviewing model is told.

use super::{ProposalView, RuleProposal};
use crate::num::format::fixed;
use crate::text;
use crate::text::{decimal, joined, occurs, occurs_at, texts};
use vstd::prelude::*;

verus! {

/// Who the model is.
pub const ROLE: &'static str = "You are a senior volatility trader reviewing a proposed options trade.";

/// What it is asked, and what it cannot decide.
pub const SCOPE: &'static str = r#"

Your role is NOT to generate strategy ideas from scratch — the quantitative rule engine
has already done that using the Zeta Field state (vol surface, Greeks, regime, order flow).
Your role is to resolve specific ambiguities the rule engine flagged, using your knowledge
of macro context, market structure, and trading experience.

CONSTRAINTS — these are non-negotiable:
- Hard risk limits (max delta, max vega, max loss per trade) are enforced by the system.
  You cannot override them. Your job is only to approve, modify sizing, or block.
- If you lack sufficient information to resolve an ambiguity, "#;

/// What to answer where something is missing.
pub const REFUSAL: &'static str = "set approved=false";

/// What the answer rests on.
pub const CANDOUR: &'static str = r#" and explain why.
- Never invent market data. Reason only from what is provided in the Zeta Field context.
- "#;

/// How to answer.
pub const ANSWER: &'static str = "You MUST call the submit_decision tool";

/// How to decide.
pub const FRAMEWORK: &'static str = r#" — text-only responses are not processed.

DECISION FRAMEWORK:
1. Read the Zeta Field state carefully — it encodes vol regime, smile geometry, order flow.
2. Address each ambiguity question specifically in your reasoning.
3. If a macro event (FOMC, earnings, CPI) is imminent and not priced into the field,
   reduce sizing (sizing_adjustment < 1.0) or set entry_urgency="conditional".
4. If the field signals conflict and you cannot resolve them, set approved=false.
5. The strategy_type and contracts in your response override the rule engine proposal.
   "#;

/// What to do with a good proposal.
pub const CLOSING: &'static str = "If you agree with the proposal, echo it unchanged.";

/// The standing instructions.
pub open spec fn system_prompt() -> Seq<char> {
    ROLE@ + SCOPE@ + REFUSAL@ + CANDOUR@ + ANSWER@ + FRAMEWORK@ + CLOSING@
}

/// The standing instructions: they open with who the model is, say that the tool must be called
/// and when to refuse, and close without a line break.
pub fn build_system_prompt() -> (r: String)
    ensures
        r@ == system_prompt(),
        ROLE@.is_prefix_of(r@),
        occurs(r@, REFUSAL@),
        occurs(r@, ANSWER@),
        CLOSING@.is_suffix_of(r@),
{
    let mut out: String = ROLE.to_string();
    out.append(SCOPE);
    out.append(REFUSAL);
    out.append(CANDOUR);
    out.append(ANSWER);
    out.append(FRAMEWORK);
    out.append(CLOSING);
    proof {
        let told: Seq<char> = out@;
        assert(told.subrange(0, ROLE@.len() as int) =~= ROLE@);
        let refusal: int = (ROLE@ + SCOPE@).len() as int;
        assert(told.subrange(refusal, refusal + REFUSAL@.len()) =~= REFUSAL@);
        assert(occurs_at(told, REFUSAL@, refusal));
        let answer: int = (ROLE@ + SCOPE@ + REFUSAL@ + CANDOUR@).len() as int;
        assert(told.subrange(answer, answer + ANSWER@.len()) =~= ANSWER@);
        assert(occurs_at(told, ANSWER@, answer));
        assert(told.subrange(told.len() - CLOSING@.len(), told.len() as int) =~= CLOSING@);
    }
    out
}

/// Questions with their numbers in front, from one.
pub open spec fn numbered(questions: Seq<Seq<char>>) -> Seq<Seq<char>> {
    Seq::new(
        questions.len(),
        |i: int| decimal((i + 1) as nat) + ". "@ + questions[i],
    )
}

/// The questions, each on a line of its own, or a remark that there are none.
pub open spec fn questions_block(questions: Seq<Seq<char>>) -> Seq<char> {
    if questions.len() == 0 {
        "None — reviewing as a general sanity check."@
    } else {
        joined(numbered(questions), "\n"@)
    }
}

pub const RULE: &'static str = "═══════════════════════════════════════════════════════";

/// The description of one trade and of what is unclear about it.
pub open spec fn user_prompt(
    context: Seq<char>,
    questions: Seq<Seq<char>>,
    p: ProposalView,
) -> Seq<char> {
    context + "\n\n"@ + RULE@ + "\nRULE ENGINE PROPOSAL\n"@ + RULE@
        + "\nStrategy:      "@ + p.strategy_type
        + "\nContracts:     "@ + decimal(p.contracts as nat)
        + "\nMax risk:      $"@ + fixed(p.max_risk_dollars, 0)
        + "\nEst delta:     "@ + fixed(p.est_delta, 3)
        + "\nEst vega:      "@ + fixed(p.est_vega, 2)
        + "\nEst theta/day: "@ + fixed(p.est_theta_day, 2)
        + "\nTarget DTE:    "@ + decimal(p.target_dte as nat) + " days"@
        + "\nUrgency:       "@ + p.entry_urgency
        + "\nRationale:     "@ + p.rationale
        + "\n\n"@ + RULE@ + "\nAMBIGUITY FLAGS — address each one in your reasoning\n"@ + RULE@
        + "\n"@ + questions_block(questions)
        + "\n\nReview the above and call submit_decision with your verdict."@
}

fn questions_text(questions: &Vec<String>) -> (r: String)
    ensures
        r@ == questions_block(texts(questions@)),
{
    if questions.len() == 0 {
        return "None — reviewing as a general sanity check.".to_string();
    }
    let ghost all: Seq<Seq<char>> = texts(questions@);
    let mut lines: Vec<String> = Vec::new();
    let mut i: usize = 0;
    while i < questions.len()
        invariant
            i <= questions.len(),
            all == texts(questions@),
            texts(lines@) == numbered(all).take(i as int),
        decreases questions.len() - i,
    {
        let ghost before: Seq<String> = lines@;
        let mut line: String = text::decimal_text((i as u64) + 1);
        line.append(". ");
        line.append(questions[i].as_str());
        lines.push(line);
        assert(texts(lines@) =~= texts(before).push(line@));
        assert(texts(lines@) =~= numbered(all).take(i + 1));
        i = i + 1;
    }
    assert(numbered(all).take(i as int) == numbered(all));
    text::join(&lines, "\n")
}

pub fn build_user_prompt(
    zeta_context: &str,
    questions: &Vec<String>,
    proposal: &RuleProposal,
) -> (r: String)
    ensures
        r@ == user_prompt(zeta_context@, texts(questions@), proposal@),
{
    let mut out: String = zeta_context.to_string();
    out.append("\n\n");
    out.append(RULE);
    out.append("\nRULE ENGINE PROPOSAL\n");
    out.append(RULE);
    out.append("\nStrategy:      ");
    out.append(proposal.strategy_type.as_str());
    out.append("\nContracts:     ");
    text::push_decimal(&mut out, proposal.contracts as u128);
    out.append("\nMax risk:      $");
    out.append(proposal.max_risk_dollars.fixed_text(0).as_str());
    out.append("\nEst delta:     ");
    out.append(proposal.est_delta.fixed_text(3).as_str());
    out.append("\nEst vega:      ");
    out.append(proposal.est_vega.fixed_text(2).as_str());
    out.append("\nEst theta/day: ");
    out.append(proposal.est_theta_day.fixed_text(2).as_str());
    out.append("\nTarget DTE:    ");
    text::push_decimal(&mut out, proposal.target_dte as u128);
    out.append(" days");
    out.append("\nUrgency:       ");
    out.append(proposal.entry_urgency.as_str());
    out.append("\nRationale:     ");
    out.append(proposal.rationale.as_str());
    out.append("\n\n");
    out.append(RULE);
    out.append("\nAMBIGUITY FLAGS — address each one in your reasoning\n");
    out.append(RULE);
    out.append("\n");
    out.append(questions_text(questions).as_str());
    out.append("\n\nReview the above and call submit_decision with your verdict.");
    out
}

} // verus!
