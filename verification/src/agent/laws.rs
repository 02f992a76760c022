//! What the model is asked, and what it may answer.

use super::anthropic::{carries_decision, decision_request, ContentBlock, ReplyError};
use super::decision::{
    decision_fields, decision_tool, law_every_strategy_is_offered, required_fields, strategy_choices,
    urgency_choices, Bound,
};
use super::prompt::{numbered, questions_block, user_prompt, RULE};
use super::ProposalView;
use crate::http::Method;
use crate::num::double::Double;
use crate::num::format::fixed;
use crate::orders::strategy::StrategyType;
use crate::text::{decimal, joined, occurs, occurs_at};
use vstd::prelude::*;

verus! {

// ── The request ─────────────────────────────────────────────────────────────

/// A request goes to the messages of the service under its version and the key of the user. It has
/// one message, of the user, and one tool, which the answer must call.
pub proof fn law_requests_ask_for_one_decision(
    key: Seq<char>,
    model: Seq<char>,
    system: Seq<char>,
    user: Seq<char>,
)
    ensures
        ({
            let r = decision_request(key, model, system, user);
            &&& r.request.method == Method::Post
            &&& r.request.url == "https://api.anthropic.com/v1/messages"@
            &&& r.request.headers.contains(("x-api-key"@, key))
            &&& r.request.headers.contains(("anthropic-version"@, "2023-06-01"@))
            &&& r.request.headers.contains(("content-type"@, "application/json"@))
            &&& r.request.headers.len() == 3
            &&& r.model == model
            &&& r.max_tokens == 1024
            &&& r.system == system
            &&& r.messages.len() == 1
            &&& r.messages[0].0 == "user"@
            &&& r.messages[0].1 == user
            &&& r.tools.len() == 1
            &&& r.tools[0].name == r.forced_tool
            &&& r.forced_tool == "submit_decision"@
            &&& r.tools[0].required == required_fields()
            &&& r.tools[0].properties == decision_fields()
        }),
{
    let h: Seq<(Seq<char>, Seq<char>)> = decision_request(key, model, system, user).request.headers;
    assert(h[0] == ("x-api-key"@, key));
    assert(h[1] == ("anthropic-version"@, "2023-06-01"@));
    assert(h[2] == ("content-type"@, "application/json"@));
}

/// A block is a decision if and only if it is a call of the tool `submit_decision` with an input.
pub proof fn law_decisions_are_tool_calls(b: ContentBlock)
    ensures
        carries_decision(b) <==> {
            &&& b.block_type@ == "tool_use"@
            &&& b.name matches Some(n) && n@ == "submit_decision"@
            &&& b.has_input
        },
{
}

// ── The answer ──────────────────────────────────────────────────────────────

/// An answer has these twelve fields, in this order.
pub proof fn law_answers_have_twelve_fields()
    ensures
        decision_fields().len() == 12,
        decision_fields()[0].name == "approved"@,
        decision_fields()[1].name == "strategy_type"@,
        decision_fields()[2].name == "contracts"@,
        decision_fields()[3].name == "target_delta"@,
        decision_fields()[4].name == "target_vega"@,
        decision_fields()[5].name == "target_dte"@,
        decision_fields()[6].name == "entry_urgency"@,
        decision_fields()[7].name == "reasoning"@,
        decision_fields()[8].name == "confidence"@,
        decision_fields()[9].name == "macro_concerns"@,
        decision_fields()[10].name == "sizing_adjustment"@,
        decision_fields()[11].name == "conditional_trigger"@,
{
}

/// A field has one type; those that an answer may leave out may also be null, and no others.
pub proof fn law_fields_are_required_or_nullable(i: int)
    requires
        0 <= i < 12,
    ensures
        ({
            let f = decision_fields()[i];
            let of_type = if i == 0 {
                "boolean"@
            } else if i == 2 || i == 5 {
                "integer"@
            } else if i == 3 || i == 4 || i == 8 || i == 10 {
                "number"@
            } else {
                "string"@
            };
            &&& required_fields().len() == 9
            &&& i < 9 ==> f.types == seq![of_type] && required_fields()[i] == f.name
            &&& i >= 9 ==> f.types == seq![of_type, "null"@] && !required_fields().contains(f.name)
        }),
{
    lemma_optional_names();
    let f = decision_fields()[i];
    if i >= 9 {
        assert(seq!["string"@].push("null"@) =~= seq!["string"@, "null"@]);
        assert(seq!["number"@].push("null"@) =~= seq!["number"@, "null"@]);
        if required_fields().contains(f.name) {
            let k: int = choose|k: int|
                0 <= k < required_fields().len() && required_fields()[k] == f.name;
            assert(required_fields()[k].len() < 14);
            assert(f.name.len() >= 14);
        }
    }
}

proof fn lemma_optional_names()
    ensures
        forall|k: int| 0 <= k < 9 ==> (#[trigger] required_fields()[k]).len() < 14,
        "macro_concerns"@.len() >= 14,
        "sizing_adjustment"@.len() >= 14,
        "conditional_trigger"@.len() >= 14,
{
    reveal_strlit("approved");
    reveal_strlit("strategy_type");
    reveal_strlit("contracts");
    reveal_strlit("target_delta");
    reveal_strlit("target_vega");
    reveal_strlit("target_dte");
    reveal_strlit("entry_urgency");
    reveal_strlit("reasoning");
    reveal_strlit("confidence");
    reveal_strlit("macro_concerns");
    reveal_strlit("sizing_adjustment");
    reveal_strlit("conditional_trigger");
}

/// Contracts are not negative, days to expiration are at least one, confidence is from zero to
/// one, and the adjustment of the size is from zero to two; nothing else is bounded.
pub proof fn law_bounds_of_answers(i: int)
    requires
        0 <= i < 12,
    ensures
        ({
            let f = decision_fields()[i];
            &&& i == 2 ==> f.minimum == Some(Bound::Whole(0)) && f.maximum is None
            &&& i == 5 ==> f.minimum == Some(Bound::Whole(1)) && f.maximum is None
            &&& i == 8 || i == 10 ==> f.minimum == Some(Bound::Real(Double::of(false, 0)))
            &&& i == 8 ==> f.maximum == Some(Bound::Real(Double::whole(1)))
            &&& i == 10 ==> f.maximum == Some(Bound::Real(Double::whole(2)))
            &&& i != 2 && i != 5 && i != 8 && i != 10 ==> f.minimum is None && f.maximum is None
        }),
{
}

/// The model may choose every strategy, and nothing else; it may choose one of three urgencies;
/// of the other fields it may choose any value.
pub proof fn law_choices_of_answers(i: int, word: Seq<char>)
    requires
        0 <= i < 12,
    ensures
        i == 1 ==> (decision_fields()[i].choices.contains(word) <==> exists|s: StrategyType|
            #[trigger] s.label() == word),
        i == 6 ==> (decision_fields()[i].choices.contains(word) <==> word == "immediate"@ || word
            == "patient"@ || word == "conditional"@),
        i != 1 && i != 6 ==> decision_fields()[i].choices.len() == 0,
{
    if i == 1 {
        let c: Seq<Seq<char>> = strategy_choices();
        if exists|s: StrategyType| #[trigger] s.label() == word {
            let s: StrategyType = choose|s: StrategyType| #[trigger] s.label() == word;
            law_every_strategy_is_offered(s);
        }
        if c.contains(word) {
            let k: int = choose|k: int| 0 <= k < c.len() && c[k] == word;
            let s: StrategyType = if k == 0 {
                StrategyType::IronCondor
            } else if k == 1 {
                StrategyType::Strangle
            } else if k == 2 {
                StrategyType::IronButterfly
            } else if k == 3 {
                StrategyType::LongStraddle
            } else if k == 4 {
                StrategyType::LongStrangle
            } else if k == 5 {
                StrategyType::Backspread
            } else if k == 6 {
                StrategyType::RiskReversal
            } else if k == 7 {
                StrategyType::FuturesCalendar
            } else if k == 8 {
                StrategyType::FuturesLong
            } else if k == 9 {
                StrategyType::FuturesShort
            } else if k == 10 {
                StrategyType::DeltaHedge
            } else {
                StrategyType::DoNothing
            };
            assert(s.label() == word);
        }
    }
    if i == 6 {
        let c: Seq<Seq<char>> = urgency_choices();
        assert(c[0] == "immediate"@ && c[1] == "patient"@ && c[2] == "conditional"@);
    }
}

// ── What the model is told ──────────────────────────────────────────────────

/// Whether a text begins with another one.
spec fn begins(u: Seq<char>, s: Seq<char>) -> bool {
    s.len() <= u.len() && u.take(s.len() as int) == s
}

proof fn lemma_begins(u: Seq<char>, a: Seq<char>, b: Seq<char>)
    requires
        begins(u, a + b),
    ensures
        begins(u, a),
        occurs_at(u, b, a.len() as int),
{
    assert((a + b).take(a.len() as int) =~= a);
    assert(u.take(a.len() as int) =~= u.take((a + b).len() as int).take(a.len() as int));
    let at: int = a.len() as int;
    assert(u.subrange(at, at + b.len()) =~= u.take((a + b).len() as int).subrange(at, at + b.len()));
    assert((a + b).subrange(at, at + b.len()) =~= b);
}

/// A label with its value behind it.
proof fn lemma_line(u: Seq<char>, s: Seq<char>, label: Seq<char>, value: Seq<char>)
    requires
        begins(u, s + label + value),
    ensures
        begins(u, s),
        occurs(u, label + value),
{
    assert(s + label + value =~= s + (label + value));
    lemma_begins(u, s, label + value);
}

/// The prompt opens with the state of the market and then names everything that is proposed,
/// behind its label.
pub proof fn law_prompts_tell_the_proposal(
    context: Seq<char>,
    questions: Seq<Seq<char>>,
    p: ProposalView,
)
    ensures
        ({
            let u = user_prompt(context, questions, p);
            &&& context.len() <= u.len() && u.take(context.len() as int) == context
            &&& occurs(u, "\nStrategy:      "@ + p.strategy_type)
            &&& occurs(u, "\nContracts:     "@ + decimal(p.contracts as nat))
            &&& occurs(u, "\nMax risk:      $"@ + fixed(p.max_risk_dollars, 0))
            &&& occurs(u, "\nEst delta:     "@ + fixed(p.est_delta, 3))
            &&& occurs(u, "\nEst vega:      "@ + fixed(p.est_vega, 2))
            &&& occurs(u, "\nEst theta/day: "@ + fixed(p.est_theta_day, 2))
            &&& occurs(u, "\nTarget DTE:    "@ + decimal(p.target_dte as nat) + " days"@)
            &&& occurs(u, "\nUrgency:       "@ + p.entry_urgency)
            &&& occurs(u, "\nRationale:     "@ + p.rationale)
            &&& occurs(u, "\n"@ + questions_block(questions))
        }),
{
    let u: Seq<char> = user_prompt(context, questions, p);
    let s0: Seq<char> = context + "\n\n"@ + RULE@ + "\nRULE ENGINE PROPOSAL\n"@ + RULE@;
    let s1: Seq<char> = s0 + "\nStrategy:      "@ + p.strategy_type;
    let s2: Seq<char> = s1 + "\nContracts:     "@ + decimal(p.contracts as nat);
    let s3: Seq<char> = s2 + "\nMax risk:      $"@ + fixed(p.max_risk_dollars, 0);
    let s4: Seq<char> = s3 + "\nEst delta:     "@ + fixed(p.est_delta, 3);
    let s5: Seq<char> = s4 + "\nEst vega:      "@ + fixed(p.est_vega, 2);
    let s6: Seq<char> = s5 + "\nEst theta/day: "@ + fixed(p.est_theta_day, 2);
    let dte: Seq<char> = decimal(p.target_dte as nat);
    let s7: Seq<char> = s6 + "\nTarget DTE:    "@ + dte + " days"@;
    let s8: Seq<char> = s7 + "\nUrgency:       "@ + p.entry_urgency;
    let s9: Seq<char> = s8 + "\nRationale:     "@ + p.rationale;
    let s10: Seq<char> = s9 + "\n\n"@ + RULE@;
    let s11: Seq<char> = s10 + "\nAMBIGUITY FLAGS — address each one in your reasoning\n"@ + RULE@;
    let s12: Seq<char> = s11 + "\n"@ + questions_block(questions);
    let last: Seq<char> = "\n\nReview the above and call submit_decision with your verdict."@;
    assert(u == s12 + last);
    assert(u.take(u.len() as int) =~= u);
    lemma_begins(u, s12, last);
    lemma_line(u, s11, "\n"@, questions_block(questions));
    lemma_line(u, s10, "\nAMBIGUITY FLAGS — address each one in your reasoning\n"@, RULE@);
    lemma_line(u, s9, "\n\n"@, RULE@);
    lemma_line(u, s8, "\nRationale:     "@, p.rationale);
    lemma_line(u, s7, "\nUrgency:       "@, p.entry_urgency);
    assert(s7 =~= s6 + ("\nTarget DTE:    "@ + dte) + " days"@);
    lemma_line(u, s6, "\nTarget DTE:    "@ + dte, " days"@);
    lemma_line(u, s5, "\nEst theta/day: "@, fixed(p.est_theta_day, 2));
    lemma_line(u, s4, "\nEst vega:      "@, fixed(p.est_vega, 2));
    lemma_line(u, s3, "\nEst delta:     "@, fixed(p.est_delta, 3));
    lemma_line(u, s2, "\nMax risk:      $"@, fixed(p.max_risk_dollars, 0));
    lemma_line(u, s1, "\nContracts:     "@, decimal(p.contracts as nat));
    lemma_line(u, s0, "\nStrategy:      "@, p.strategy_type);
    lemma_line(u, context + "\n\n"@ + RULE@, "\nRULE ENGINE PROPOSAL\n"@, RULE@);
    lemma_line(u, context, "\n\n"@, RULE@);
}

/// Every question stands in the prompt, behind its number, counted from one.
pub proof fn law_prompts_ask_every_question(
    context: Seq<char>,
    questions: Seq<Seq<char>>,
    p: ProposalView,
    i: int,
)
    requires
        0 <= i < questions.len(),
    ensures
        occurs(user_prompt(context, questions, p), decimal((i + 1) as nat) + ". "@ + questions[i]),
{
    let u: Seq<char> = user_prompt(context, questions, p);
    let block: Seq<char> = questions_block(questions);
    let line: Seq<char> = decimal((i + 1) as nat) + ". "@ + questions[i];
    law_prompts_tell_the_proposal(context, questions, p);
    let at: int = choose|at: int| occurs_at(u, "\n"@ + block, at);
    assert(numbered(questions)[i] == line);
    lemma_joined_items(numbered(questions), "\n"@, i);
    let k: int = choose|k: int| occurs_at(block, line, k);
    let start: int = at + "\n"@.len() + k;
    let both: Seq<char> = "\n"@ + block;
    assert(u.subrange(at, at + both.len()) == both);
    assert(u.subrange(start, start + line.len()) =~= u.subrange(at, at + both.len()).subrange(
        start - at,
        start - at + line.len(),
    ));
    assert(both.subrange(start - at, start - at + line.len()) =~= block.subrange(
        k,
        k + line.len(),
    ));
    assert(occurs_at(u, line, start));
}

proof fn lemma_joined_items(v: Seq<Seq<char>>, sep: Seq<char>, i: int)
    requires
        0 <= i < v.len(),
    ensures
        occurs(joined(v, sep), v[i]),
    decreases v.len(),
{
    let all: Seq<char> = joined(v, sep);
    if v.len() == 1 {
        assert(all.subrange(0, v[0].len() as int) =~= v[0]);
        assert(occurs_at(all, v[i], 0));
    } else if i == v.len() - 1 {
        let at: int = (joined(v.drop_last(), sep) + sep).len() as int;
        assert(all.subrange(at, at + v[i].len()) =~= v[i]);
        assert(occurs_at(all, v[i], at));
    } else {
        lemma_joined_items(v.drop_last(), sep, i);
        let front: Seq<char> = joined(v.drop_last(), sep);
        assert(v.drop_last()[i] == v[i]);
        let at: int = choose|at: int| occurs_at(front, v[i], at);
        assert(all.subrange(at, at + v[i].len()) =~= front.subrange(at, at + v[i].len()));
        assert(occurs_at(all, v[i], at));
    }
}

/// Without questions the prompt says that there are none.
pub proof fn law_prompts_without_questions(context: Seq<char>, p: ProposalView)
    ensures
        occurs(
            user_prompt(context, Seq::empty(), p),
            "\n"@ + "None — reviewing as a general sanity check."@,
        ),
{
    law_prompts_tell_the_proposal(context, Seq::empty(), p);
}

// ── Words ───────────────────────────────────────────────────────────────────

/// What is reported where there is no decision.
pub proof fn law_reports_of_the_service(e: ReplyError)
    ensures
        match e {
            ReplyError::Refused { status, body } => e.text() == "Anthropic API error ["@ + status@
                + "]: "@ + body@,
            ReplyError::NoDecision => e.text()
                == "No submit_decision tool call found in Anthropic response"@,
        },
{
}

/// What the model is told of the tool and of each field.
pub proof fn law_fields_are_explained()
    ensures
        decision_tool().description
            == "Submit the final trading strategy decision. You MUST call this tool — do not respond with text only."@,
        decision_fields()[0].description == "Whether to proceed with the trade"@,
        decision_fields()[1].description
            == "Strategy type — may keep or change the rule engine proposal"@,
        decision_fields()[2].description == "Number of contracts. 0 = do not trade"@,
        decision_fields()[3].description == "Target net portfolio delta after trade"@,
        decision_fields()[4].description
            == "Expected net vega of the new position (negative = short vol)"@,
        decision_fields()[5].description == "Target days to expiration"@,
        decision_fields()[6].description == "How urgently to enter"@,
        decision_fields()[7].description
            == "Mandatory explanation of the decision, addressing the specific ambiguity questions raised"@,
        decision_fields()[8].description
            == "Confidence in this decision given available information"@,
        decision_fields()[9].description
            == "Any macro/calendar concerns that affected the decision"@,
        decision_fields()[10].description
            == "Multiplier on rule-engine contract count (1.0 = unchanged, 0.5 = half size)"@,
        decision_fields()[11].description
            == "If entry_urgency is conditional, describe the trigger condition"@,
{
}

} // verus!
