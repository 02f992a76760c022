use zeta_executor::agent::anthropic::{AnthropicClient, ContentBlock, ReplyError};
use zeta_executor::agent::decision::{decision_tool_definition, Bound};
use zeta_executor::agent::prompt::{build_system_prompt, build_user_prompt};
use zeta_executor::agent::{RuleProposal, StrategyAgent};
use zeta_executor::http::Method;
use zeta_executor::num::double::Double;

fn num64(v: f64) -> Double {
    Double::from_bits(v.to_bits())
}

fn proposal() -> RuleProposal {
    RuleProposal {
        strategy_type: "IronCondor".to_string(),
        contracts: 4,
        max_risk_dollars: num64(1234.5),
        est_delta: num64(-0.0125),
        est_vega: num64(-12.345),
        est_theta_day: num64(8.0),
        target_dte: 35,
        entry_urgency: "patient".to_string(),
        rationale: "VRP high".to_string(),
    }
}

#[test]
fn the_system_prompt_sets_the_rules() {
    let p = build_system_prompt();
    assert!(p.starts_with("You are a senior volatility trader reviewing a proposed options trade.\n\nYour role is NOT"));
    assert!(p.contains("- You MUST call the submit_decision tool — text-only responses are not processed.\n"));
    assert!(p.contains("to resolve an ambiguity, set approved=false and explain why.\n- Never invent"));
    assert!(p.contains("resolve them, set approved=false.\n5. The strategy_type"));
    assert!(p.ends_with("proposal.\n   If you agree with the proposal, echo it unchanged."));
    assert_eq!(p.lines().count(), 22);
    assert_eq!(p.chars().count(), 1450);
    assert_eq!(p, build_system_prompt());
}

#[test]
fn the_user_prompt_describes_the_trade() {
    let rule = "═".repeat(55);
    let questions = vec!["Is the field stable?".to_string(), "FOMC?".to_string()];
    let got = build_user_prompt("CTX", &questions, &proposal());
    let want = format!(
        "CTX\n\n{rule}\nRULE ENGINE PROPOSAL\n{rule}\n\
         Strategy:      IronCondor\nContracts:     4\nMax risk:      $1234\n\
         Est delta:     -0.013\nEst vega:      -12.35\nEst theta/day: 8.00\n\
         Target DTE:    35 days\nUrgency:       patient\nRationale:     VRP high\n\n\
         {rule}\nAMBIGUITY FLAGS — address each one in your reasoning\n{rule}\n\
         1. Is the field stable?\n2. FOMC?\n\n\
         Review the above and call submit_decision with your verdict."
    );
    let native = want
        .replace("-0.013", &format!("{:.3}", -0.0125f64))
        .replace("-12.35", &format!("{:.2}", -12.345f64));
    assert_eq!(got, native);
}

#[test]
fn without_questions_the_prompt_says_so() {
    let got = build_user_prompt("CTX", &vec![], &proposal());
    assert!(got.contains("\nNone — reviewing as a general sanity check.\n\nReview the above"));
}

#[test]
fn the_tool_describes_every_field() {
    let t = decision_tool_definition();
    assert_eq!(t.name, "submit_decision");
    assert!(t.description.starts_with("Submit the final trading strategy decision."));
    assert_eq!(
        t.required,
        [
            "approved", "strategy_type", "contracts", "target_delta", "target_vega", "target_dte",
            "entry_urgency", "reasoning", "confidence",
        ]
    );
    let names: Vec<&str> = t.properties.iter().map(|p| p.name.as_str()).collect();
    assert_eq!(
        names,
        [
            "approved", "strategy_type", "contracts", "target_delta", "target_vega", "target_dte",
            "entry_urgency", "reasoning", "confidence", "macro_concerns", "sizing_adjustment",
            "conditional_trigger",
        ]
    );
    let types: Vec<String> = t.properties.iter().map(|p| p.types.join("|")).collect();
    assert_eq!(
        types,
        [
            "boolean", "string", "integer", "number", "number", "integer", "string", "string",
            "number", "string|null", "number|null", "string|null",
        ]
    );
    assert_eq!(t.properties[1].choices.len(), 12);
    assert_eq!(t.properties[1].choices[7], "FuturesCalendar");
    assert_eq!(t.properties[6].choices, ["immediate", "patient", "conditional"]);
    assert_eq!(t.properties[2].minimum, Some(Bound::Whole(0)));
    assert_eq!(t.properties[5].minimum, Some(Bound::Whole(1)));
    assert_eq!(t.properties[8].minimum, Some(Bound::Real(num64(0.0))));
    assert_eq!(t.properties[8].maximum, Some(Bound::Real(num64(1.0))));
    assert_eq!(t.properties[10].minimum, Some(Bound::Real(num64(0.0))));
    assert_eq!(t.properties[10].maximum, Some(Bound::Real(num64(2.0))));
    assert_eq!(t.properties[11].minimum, None);
    assert_eq!(
        t.properties[10].description,
        "Multiplier on rule-engine contract count (1.0 = unchanged, 0.5 = half size)"
    );
}

#[test]
fn the_call_forces_the_tool() {
    let agent = StrategyAgent::new("KEY".to_string(), "some-model".to_string());
    let r = agent.consult("CTX", &vec![], &proposal());
    assert_eq!(r.request.method, Method::Post);
    assert_eq!(r.request.url, "https://api.anthropic.com/v1/messages");
    let headers: Vec<(String, String)> =
        r.request.headers.iter().map(|h| (h.name.clone(), h.value.clone())).collect();
    assert_eq!(headers[0], ("x-api-key".to_string(), "KEY".to_string()));
    assert_eq!(headers[1], ("anthropic-version".to_string(), "2023-06-01".to_string()));
    assert_eq!(headers[2], ("content-type".to_string(), "application/json".to_string()));
    assert_eq!(r.model, "some-model");
    assert_eq!(r.max_tokens, 1024);
    assert_eq!(r.system, build_system_prompt());
    assert_eq!(r.messages.len(), 1);
    assert_eq!(r.messages[0].role, "user");
    assert_eq!(r.messages[0].content, build_user_prompt("CTX", &vec![], &proposal()));
    assert_eq!(r.tools.len(), 1);
    assert_eq!(r.forced_tool, "submit_decision");
}

fn block(kind: &str, name: Option<&str>, has_input: bool) -> ContentBlock {
    ContentBlock { block_type: kind.to_string(), name: name.map(String::from), has_input }
}

#[test]
fn the_first_call_of_the_tool_counts() {
    let blocks = vec![
        block("text", None, false),
        block("tool_use", Some("other"), true),
        block("tool_use", Some("submit_decision"), false),
        block("tool_use", None, true),
        block("text", Some("submit_decision"), true),
        block("tool_use", Some("submit_decision"), true),
        block("tool_use", Some("submit_decision"), true),
    ];
    assert_eq!(AnthropicClient::find_decision(&blocks).unwrap(), 5);
}

#[test]
fn replies_without_the_tool_are_refused() {
    let e = AnthropicClient::find_decision(&vec![block("text", None, false)]).unwrap_err();
    assert!(matches!(e, ReplyError::NoDecision));
    assert_eq!(e.message(), "No submit_decision tool call found in Anthropic response");
}

#[test]
fn failed_calls_are_reported() {
    assert!(AnthropicClient::accept(true, "200 OK", "x").is_ok());
    let e = AnthropicClient::accept(false, "429 Too Many Requests", "slow down").unwrap_err();
    assert_eq!(e.message(), "Anthropic API error [429 Too Many Requests]: slow down");
}
