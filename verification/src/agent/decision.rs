//! The structured answer of the reviewing model, and the tool that it must answer with.

use crate::num::double::Double;
use crate::orders::strategy::StrategyType;
use crate::text::{maybe, texts};
use vstd::prelude::*;

verus! {

/// A decision about a proposed trade.
#[derive(Debug)]
pub struct StrategyDecision {
    pub approved: bool,
    /// May differ from what the rule engine proposed.
    pub strategy_type: String,
    pub contracts: u32,
    pub target_delta: Double,
    pub target_vega: Double,
    /// Days to expiration.
    pub target_dte: u32,
    /// `"immediate"`, `"patient"` or `"conditional"`.
    pub entry_urgency: String,
    pub reasoning: String,
    /// From zero to one.
    pub confidence: Double,
    pub macro_concerns: Option<String>,
    /// Multiplier on the count of contracts.
    pub sizing_adjustment: Option<Double>,
    pub conditional_trigger: Option<String>,
}

/// What a decision says.
pub struct DecisionView {
    pub approved: bool,
    pub strategy_type: Seq<char>,
    pub contracts: u32,
    pub target_delta: Double,
    pub target_vega: Double,
    pub target_dte: u32,
    pub entry_urgency: Seq<char>,
    pub reasoning: Seq<char>,
    pub confidence: Double,
    pub macro_concerns: Option<Seq<char>>,
    pub sizing_adjustment: Option<Double>,
    pub conditional_trigger: Option<Seq<char>>,
}

impl View for StrategyDecision {
    type V = DecisionView;

    open spec fn view(&self) -> DecisionView {
        DecisionView {
            approved: self.approved,
            strategy_type: self.strategy_type@,
            contracts: self.contracts,
            target_delta: self.target_delta,
            target_vega: self.target_vega,
            target_dte: self.target_dte,
            entry_urgency: self.entry_urgency@,
            reasoning: self.reasoning@,
            confidence: self.confidence,
            macro_concerns: maybe(self.macro_concerns),
            sizing_adjustment: self.sizing_adjustment,
            conditional_trigger: maybe(self.conditional_trigger),
        }
    }
}

impl Clone for StrategyDecision {
    fn clone(&self) -> (r: StrategyDecision)
        ensures
            r@ == self@,
    {
        StrategyDecision {
            approved: self.approved,
            strategy_type: self.strategy_type.clone(),
            contracts: self.contracts,
            target_delta: self.target_delta,
            target_vega: self.target_vega,
            target_dte: self.target_dte,
            entry_urgency: self.entry_urgency.clone(),
            reasoning: self.reasoning.clone(),
            confidence: self.confidence,
            macro_concerns: self.macro_concerns.clone(),
            sizing_adjustment: self.sizing_adjustment,
            conditional_trigger: self.conditional_trigger.clone(),
        }
    }
}

// ── The tool ────────────────────────────────────────────────────────────────

/// Name of the tool that carries a decision.
pub const TOOL_NAME: &'static str = "submit_decision";

/// A bound on a number.
#[derive(Clone, Copy, Debug, PartialEq, Eq, Structural)]
pub enum Bound {
    Whole(u32),
    Real(Double),
}

/// One field of the answer.
#[derive(Debug)]
pub struct ToolProperty {
    pub name: String,
    /// The JSON types that the field may have.
    pub types: Vec<String>,
    /// The values that the field may have; any, if there are none.
    pub choices: Vec<String>,
    pub minimum: Option<Bound>,
    pub maximum: Option<Bound>,
    pub description: String,
}

/// A tool with the schema of its input, which is an object.
#[derive(Debug)]
pub struct ToolDefinition {
    pub name: String,
    pub description: String,
    pub required: Vec<String>,
    pub properties: Vec<ToolProperty>,
}

pub struct PropertyView {
    pub name: Seq<char>,
    pub types: Seq<Seq<char>>,
    pub choices: Seq<Seq<char>>,
    pub minimum: Option<Bound>,
    pub maximum: Option<Bound>,
    pub description: Seq<char>,
}

pub struct ToolView {
    pub name: Seq<char>,
    pub description: Seq<char>,
    pub required: Seq<Seq<char>>,
    pub properties: Seq<PropertyView>,
}

impl View for ToolProperty {
    type V = PropertyView;

    open spec fn view(&self) -> PropertyView {
        PropertyView {
            name: self.name@,
            types: texts(self.types@),
            choices: texts(self.choices@),
            minimum: self.minimum,
            maximum: self.maximum,
            description: self.description@,
        }
    }
}

pub open spec fn property_views(ps: Seq<ToolProperty>) -> Seq<PropertyView> {
    ps.map_values(|p: ToolProperty| p@)
}

impl View for ToolDefinition {
    type V = ToolView;

    open spec fn view(&self) -> ToolView {
        ToolView {
            name: self.name@,
            description: self.description@,
            required: texts(self.required@),
            properties: property_views(self.properties@),
        }
    }
}

/// A field that may have any value of its type.
pub open spec fn plain(name: Seq<char>, of_type: Seq<char>, description: Seq<char>) -> PropertyView {
    PropertyView {
        name,
        types: seq![of_type],
        choices: Seq::empty(),
        minimum: None,
        maximum: None,
        description,
    }
}

/// A field that may also be null.
pub open spec fn nullable(p: PropertyView) -> PropertyView {
    PropertyView { types: p.types.push("null"@), ..p }
}

/// A field with one of some values.
pub open spec fn one_of(p: PropertyView, choices: Seq<Seq<char>>) -> PropertyView {
    PropertyView { choices, ..p }
}

/// A field with bounds on its value.
pub open spec fn within(
    p: PropertyView,
    minimum: Option<Bound>,
    maximum: Option<Bound>,
) -> PropertyView {
    PropertyView { minimum, maximum, ..p }
}

/// The strategies that the model may choose from.
pub open spec fn strategy_choices() -> Seq<Seq<char>> {
    seq![
        StrategyType::IronCondor.label(),
        StrategyType::Strangle.label(),
        StrategyType::IronButterfly.label(),
        StrategyType::LongStraddle.label(),
        StrategyType::LongStrangle.label(),
        StrategyType::Backspread.label(),
        StrategyType::RiskReversal.label(),
        StrategyType::FuturesCalendar.label(),
        StrategyType::FuturesLong.label(),
        StrategyType::FuturesShort.label(),
        StrategyType::DeltaHedge.label(),
        StrategyType::DoNothing.label(),
    ]
}

/// The urgencies that the model may choose from.
pub open spec fn urgency_choices() -> Seq<Seq<char>> {
    seq!["immediate"@, "patient"@, "conditional"@]
}

/// The fields that an answer must have.
pub open spec fn required_fields() -> Seq<Seq<char>> {
    seq![
        "approved"@,
        "strategy_type"@,
        "contracts"@,
        "target_delta"@,
        "target_vega"@,
        "target_dte"@,
        "entry_urgency"@,
        "reasoning"@,
        "confidence"@,
    ]
}

/// The fields of an answer.
pub open spec fn decision_fields() -> Seq<PropertyView> {
    seq![
        plain("approved"@, "boolean"@, "Whether to proceed with the trade"@),
        one_of(
            plain(
                "strategy_type"@,
                "string"@,
                "Strategy type — may keep or change the rule engine proposal"@,
            ),
            strategy_choices(),
        ),
        within(
            plain("contracts"@, "integer"@, "Number of contracts. 0 = do not trade"@),
            Some(Bound::Whole(0)),
            None,
        ),
        plain("target_delta"@, "number"@, "Target net portfolio delta after trade"@),
        plain(
            "target_vega"@,
            "number"@,
            "Expected net vega of the new position (negative = short vol)"@,
        ),
        within(
            plain("target_dte"@, "integer"@, "Target days to expiration"@),
            Some(Bound::Whole(1)),
            None,
        ),
        one_of(
            plain("entry_urgency"@, "string"@, "How urgently to enter"@),
            urgency_choices(),
        ),
        plain(
            "reasoning"@,
            "string"@,
            "Mandatory explanation of the decision, addressing the specific ambiguity questions raised"@,
        ),
        within(
            plain(
                "confidence"@,
                "number"@,
                "Confidence in this decision given available information"@,
            ),
            Some(Bound::Real(Double::of(false, 0))),
            Some(Bound::Real(Double::whole(1))),
        ),
        nullable(
            plain(
                "macro_concerns"@,
                "string"@,
                "Any macro/calendar concerns that affected the decision"@,
            ),
        ),
        within(
            nullable(
                plain(
                    "sizing_adjustment"@,
                    "number"@,
                    "Multiplier on rule-engine contract count (1.0 = unchanged, 0.5 = half size)"@,
                ),
            ),
            Some(Bound::Real(Double::of(false, 0))),
            Some(Bound::Real(Double::whole(2))),
        ),
        nullable(
            plain(
                "conditional_trigger"@,
                "string"@,
                "If entry_urgency is conditional, describe the trigger condition"@,
            ),
        ),
    ]
}

/// The tool that the model must call.
pub open spec fn decision_tool() -> ToolView {
    ToolView {
        name: TOOL_NAME@,
        description:
            "Submit the final trading strategy decision. You MUST call this tool — do not respond with text only."@,
        required: required_fields(),
        properties: decision_fields(),
    }
}

fn field(name: &str, of_type: &str, description: &str) -> (r: ToolProperty)
    ensures
        r@ == plain(name@, of_type@, description@),
{
    let types: Vec<String> = vec![of_type.to_string()];
    let choices: Vec<String> = Vec::new();
    assert(texts(types@) =~= seq![of_type@]);
    assert(texts(choices@) =~= Seq::empty());
    ToolProperty {
        name: name.to_string(),
        types,
        choices,
        minimum: None,
        maximum: None,
        description: description.to_string(),
    }
}

fn or_null(p: ToolProperty) -> (r: ToolProperty)
    ensures
        r@ == nullable(p@),
{
    let mut types: Vec<String> = p.types;
    types.push("null".to_string());
    assert(texts(types@) =~= texts(p.types@).push("null"@));
    ToolProperty { types, ..p }
}

fn strategy_names() -> (r: Vec<String>)
    ensures
        texts(r@) == strategy_choices(),
{
    let r: Vec<String> = vec![
        StrategyType::IronCondor.name().to_string(),
        StrategyType::Strangle.name().to_string(),
        StrategyType::IronButterfly.name().to_string(),
        StrategyType::LongStraddle.name().to_string(),
        StrategyType::LongStrangle.name().to_string(),
        StrategyType::Backspread.name().to_string(),
        StrategyType::RiskReversal.name().to_string(),
        StrategyType::FuturesCalendar.name().to_string(),
        StrategyType::FuturesLong.name().to_string(),
        StrategyType::FuturesShort.name().to_string(),
        StrategyType::DeltaHedge.name().to_string(),
        StrategyType::DoNothing.name().to_string(),
    ];
    assert(texts(r@) =~= strategy_choices());
    r
}

fn urgency_names() -> (r: Vec<String>)
    ensures
        texts(r@) == urgency_choices(),
{
    let r: Vec<String> = vec![
        "immediate".to_string(),
        "patient".to_string(),
        "conditional".to_string(),
    ];
    assert(texts(r@) =~= urgency_choices());
    r
}

fn required_names() -> (r: Vec<String>)
    ensures
        texts(r@) == required_fields(),
{
    let r: Vec<String> = vec![
        "approved".to_string(),
        "strategy_type".to_string(),
        "contracts".to_string(),
        "target_delta".to_string(),
        "target_vega".to_string(),
        "target_dte".to_string(),
        "entry_urgency".to_string(),
        "reasoning".to_string(),
        "confidence".to_string(),
    ];
    assert(texts(r@) =~= required_fields());
    r
}

fn choice_field(name: &str, description: &str, choices: Vec<String>) -> (r: ToolProperty)
    ensures
        r@ == one_of(plain(name@, "string"@, description@), texts(choices@)),
{
    ToolProperty { choices, ..field(name, "string", description) }
}

fn bounded(p: ToolProperty, minimum: Option<Bound>, maximum: Option<Bound>) -> (r: ToolProperty)
    ensures
        r@ == within(p@, minimum, maximum),
{
    ToolProperty { minimum, maximum, ..p }
}

/// The tool that the model must call, with the schema of its input.
pub fn decision_tool_definition() -> (r: ToolDefinition)
    ensures
        r@ == decision_tool(),
{
    let zero: Bound = Bound::Real(Double::zero());
    let properties: Vec<ToolProperty> = vec![
        field("approved", "boolean", "Whether to proceed with the trade"),
        choice_field(
            "strategy_type",
            "Strategy type — may keep or change the rule engine proposal",
            strategy_names(),
        ),
        bounded(
            field("contracts", "integer", "Number of contracts. 0 = do not trade"),
            Some(Bound::Whole(0)),
            None,
        ),
        field("target_delta", "number", "Target net portfolio delta after trade"),
        field(
            "target_vega",
            "number",
            "Expected net vega of the new position (negative = short vol)",
        ),
        bounded(
            field("target_dte", "integer", "Target days to expiration"),
            Some(Bound::Whole(1)),
            None,
        ),
        choice_field("entry_urgency", "How urgently to enter", urgency_names()),
        field(
            "reasoning",
            "string",
            "Mandatory explanation of the decision, addressing the specific ambiguity questions raised",
        ),
        bounded(
            field(
                "confidence",
                "number",
                "Confidence in this decision given available information",
            ),
            Some(zero),
            Some(Bound::Real(Double::from_u64(1))),
        ),
        or_null(
            field(
                "macro_concerns",
                "string",
                "Any macro/calendar concerns that affected the decision",
            ),
        ),
        bounded(
            or_null(
                field(
                    "sizing_adjustment",
                    "number",
                    "Multiplier on rule-engine contract count (1.0 = unchanged, 0.5 = half size)",
                ),
            ),
            Some(zero),
            Some(Bound::Real(Double::from_u64(2))),
        ),
        or_null(
            field(
                "conditional_trigger",
                "string",
                "If entry_urgency is conditional, describe the trigger condition",
            ),
        ),
    ];
    assert(property_views(properties@) =~= decision_fields());
    ToolDefinition {
        name: TOOL_NAME.to_string(),
        description:
            "Submit the final trading strategy decision. You MUST call this tool — do not respond with text only.".to_string(),
        required: required_names(),
        properties,
    }
}

/// Every field that an answer must have is described.
pub proof fn law_required_fields_are_described(i: int)
    requires
        0 <= i < required_fields().len(),
    ensures
        exists|k: int|
            0 <= k < decision_fields().len() && #[trigger] decision_fields()[k].name
                == required_fields()[i],
{
    assert(decision_fields()[i].name == required_fields()[i]);
}

/// The strategies offered are all the strategies there are.
pub proof fn law_every_strategy_is_offered(s: StrategyType)
    ensures
        strategy_choices().contains(s.label()),
{
    let k: int = match s {
        StrategyType::IronCondor => 0,
        StrategyType::Strangle => 1,
        StrategyType::IronButterfly => 2,
        StrategyType::LongStraddle => 3,
        StrategyType::LongStrangle => 4,
        StrategyType::Backspread => 5,
        StrategyType::RiskReversal => 6,
        StrategyType::FuturesCalendar => 7,
        StrategyType::FuturesLong => 8,
        StrategyType::FuturesShort => 9,
        StrategyType::DeltaHedge => 10,
        StrategyType::DoNothing => 11,
    };
    assert(strategy_choices()[k] == s.label());
}

} // verus!
