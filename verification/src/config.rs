//! Settings, which come from environment variables.

use crate::http::Field;
use crate::outside::{fresh_uuid, random_id, uuid_text, uuid_to_text};
use crate::text;
use crate::text::{parsed_integer, pieces, texts};
use vstd::prelude::*;

verus! {

#[derive(Debug)]
pub struct Config {
    pub thetadata_key: String,
    pub databento_key: String,
    pub equity_roots: Vec<String>,
    pub cme_symbols: Vec<String>,
    pub anthropic_key: String,
    pub tradier_token: String,
    pub tradier_account_id: String,
    pub tradier_sandbox: bool,
    pub tradovate_username: String,
    pub tradovate_password: String,
    pub tradovate_cid: i64,
    pub tradovate_secret: String,
    pub tradovate_device_id: String,
    pub tradovate_demo: bool,
    pub oms_log_path: String,
}

/// What the settings say.
pub struct ConfigView {
    pub thetadata_key: Seq<char>,
    pub databento_key: Seq<char>,
    pub equity_roots: Seq<Seq<char>>,
    pub cme_symbols: Seq<Seq<char>>,
    pub anthropic_key: Seq<char>,
    pub tradier_token: Seq<char>,
    pub tradier_account_id: Seq<char>,
    pub tradier_sandbox: bool,
    pub tradovate_username: Seq<char>,
    pub tradovate_password: Seq<char>,
    pub tradovate_cid: i64,
    pub tradovate_secret: Seq<char>,
    pub tradovate_device_id: Seq<char>,
    pub tradovate_demo: bool,
    pub oms_log_path: Seq<char>,
}

impl View for Config {
    type V = ConfigView;

    open spec fn view(&self) -> ConfigView {
        ConfigView {
            thetadata_key: self.thetadata_key@,
            databento_key: self.databento_key@,
            equity_roots: texts(self.equity_roots@),
            cme_symbols: texts(self.cme_symbols@),
            anthropic_key: self.anthropic_key@,
            tradier_token: self.tradier_token@,
            tradier_account_id: self.tradier_account_id@,
            tradier_sandbox: self.tradier_sandbox,
            tradovate_username: self.tradovate_username@,
            tradovate_password: self.tradovate_password@,
            tradovate_cid: self.tradovate_cid,
            tradovate_secret: self.tradovate_secret@,
            tradovate_device_id: self.tradovate_device_id@,
            tradovate_demo: self.tradovate_demo,
            oms_log_path: self.oms_log_path@,
        }
    }
}

/// A variable that must be set and is not.
#[derive(Debug)]
pub struct MissingVariable {
    pub name: String,
}

impl MissingVariable {
    pub fn message(&self) -> (r: String)
        ensures
            r@ == "environment variable not found"@,
    {
        "environment variable not found".to_string()
    }
}

// ── Variables ───────────────────────────────────────────────────────────────

/// Whether the `i`-th variable is the first with a name.
pub open spec fn is_var(vars: Seq<Field>, name: Seq<char>, i: int) -> bool {
    &&& 0 <= i < vars.len()
    &&& vars[i].name@ == name
    &&& forall|j: int| 0 <= j < i ==> (#[trigger] vars[j]).name@ != name
}

/// The value of a variable, if it is set.
pub open spec fn var(vars: Seq<Field>, name: Seq<char>) -> Option<Seq<char>> {
    if exists|i: int| is_var(vars, name, i) {
        Some(vars[choose|i: int| is_var(vars, name, i)].value@)
    } else {
        None
    }
}

/// The value of a variable, or another one if it is not set.
pub open spec fn var_or(vars: Seq<Field>, name: Seq<char>, default: Seq<char>) -> Seq<char> {
    match var(vars, name) {
        Some(v) => v,
        None => default,
    }
}

/// The truth value of a variable: `"true"` and `"1"` are true, anything else that is set is
/// false.
pub open spec fn flag(vars: Seq<Field>, name: Seq<char>, default: bool) -> bool {
    match var(vars, name) {
        Some(v) => v == "true"@ || v == "1"@,
        None => default,
    }
}

fn look_up(vars: &Vec<Field>, name: &str) -> (r: Option<String>)
    ensures
        text::maybe(r) == var(vars@, name@),
{
    let mut i: usize = 0;
    while i < vars.len()
        invariant
            i <= vars.len(),
            forall|j: int| 0 <= j < i ==> (#[trigger] vars@[j]).name@ != name@,
        decreases vars.len() - i,
    {
        if text::same(vars[i].name.as_str(), name) {
            proof {
                assert(is_var(vars@, name@, i as int));
                let k: int = choose|k: int| is_var(vars@, name@, k);
                assert(is_var(vars@, name@, k));
                assert(k == i);
            }
            return Some(vars[i].value.clone());
        }
        i = i + 1;
    }
    None
}

fn look_up_or(vars: &Vec<Field>, name: &str, default: &str) -> (r: String)
    ensures
        r@ == var_or(vars@, name@, default@),
{
    match look_up(vars, name) {
        Some(v) => v,
        None => default.to_string(),
    }
}

fn look_up_flag(vars: &Vec<Field>, name: &str, default: bool) -> (r: bool)
    ensures
        r == flag(vars@, name@, default),
{
    match look_up(vars, name) {
        Some(v) => text::same(v.as_str(), "true") || text::same(v.as_str(), "1"),
        None => default,
    }
}

fn demand(vars: &Vec<Field>, name: &str) -> (r: Result<String, MissingVariable>)
    ensures
        match r {
            Ok(v) => var(vars@, name@) == Some(v@),
            Err(e) => var(vars@, name@) is None && e.name@ == name@,
        },
{
    match look_up(vars, name) {
        Some(v) => Ok(v),
        None => Err(MissingVariable { name: name.to_string() }),
    }
}

/// Whether nothing is to be traded in earnest.
pub fn dry_run(vars: &Vec<Field>) -> (r: bool)
    ensures
        r == flag(vars@, "DRY_RUN"@, false),
{
    look_up_flag(vars, "DRY_RUN", false)
}

/// Where signals arrive.
pub fn zmq_endpoint(vars: &Vec<Field>) -> (r: String)
    ensures
        r@ == var_or(vars@, "ZMQ_ENDPOINT"@, "ipc:///tmp/zeta.sock"@),
{
    look_up_or(vars, "ZMQ_ENDPOINT", "ipc:///tmp/zeta.sock")
}

/// The name of the model that is asked about ambiguous trades. It is never empty: a request has to
/// name a model.
pub fn anthropic_model(vars: &Vec<Field>) -> (r: Result<String, MissingVariable>)
    ensures
        match r {
            Ok(v) => var(vars@, "ANTHROPIC_MODEL"@) == Some(v@) && v@.len() > 0,
            Err(e) => var_or(vars@, "ANTHROPIC_MODEL"@, Seq::empty()).len() == 0 && e.name@
                == "ANTHROPIC_MODEL"@,
        },
{
    let model: String = look_up_or(vars, "ANTHROPIC_MODEL", "");
    assert(var(vars@, "ANTHROPIC_MODEL"@) is None ==> model@.len() == 0) by {
        reveal_strlit("");
    }
    if model.as_str().is_empty() {
        Err(MissingVariable { name: "ANTHROPIC_MODEL".to_string() })
    } else {
        Ok(model)
    }
}

// ── Settings ────────────────────────────────────────────────────────────────

/// The variables that must be set, in the order in which they are asked for.
pub open spec fn demanded() -> Seq<Seq<char>> {
    seq![
        "DATABENTO_API_KEY"@,
        "ANTHROPIC_API_KEY"@,
        "TRADIER_TOKEN"@,
        "TRADIER_ACCOUNT_ID"@,
        "TRADOVATE_USERNAME"@,
        "TRADOVATE_PASSWORD"@,
        "TRADOVATE_SECRET"@,
    ]
}

/// Whether the `k`-th of the variables that must be set is the first that is not.
pub open spec fn first_missing(vars: Seq<Field>, k: int) -> bool {
    &&& 0 <= k < demanded().len()
    &&& var(vars, demanded()[k]) is None
    &&& forall|j: int| 0 <= j < k ==> var(vars, #[trigger] demanded()[j]) is Some
}

/// The settings that variables give, under a device identifier.
pub open spec fn settings(vars: Seq<Field>, device_id: Seq<char>) -> ConfigView {
    ConfigView {
        thetadata_key: var_or(vars, "THETADATA_API_KEY"@, Seq::empty()),
        databento_key: var(vars, "DATABENTO_API_KEY"@)->0,
        equity_roots: pieces(var_or(vars, "EQUITY_ROOTS"@, "SPY,QQQ"@), ','),
        cme_symbols: pieces(var_or(vars, "CME_SYMBOLS"@, "ES.FUT,NQ.FUT"@), ','),
        anthropic_key: var(vars, "ANTHROPIC_API_KEY"@)->0,
        tradier_token: var(vars, "TRADIER_TOKEN"@)->0,
        tradier_account_id: var(vars, "TRADIER_ACCOUNT_ID"@)->0,
        tradier_sandbox: flag(vars, "TRADIER_SANDBOX"@, true),
        tradovate_username: var(vars, "TRADOVATE_USERNAME"@)->0,
        tradovate_password: var(vars, "TRADOVATE_PASSWORD"@)->0,
        tradovate_cid: match parsed_integer(var_or(vars, "TRADOVATE_CID"@, Seq::empty())) {
            Some(n) => n,
            None => 0,
        },
        tradovate_secret: var(vars, "TRADOVATE_SECRET"@)->0,
        tradovate_device_id: device_id,
        tradovate_demo: flag(vars, "TRADOVATE_DEMO"@, true),
        oms_log_path: var_or(vars, "OMS_LOG_PATH"@, "/var/log/trading/oms.jsonl"@),
    }
}

/// The settings of a run that trades nothing in earnest.
pub open spec fn dry_run_settings(anthropic_key: Seq<char>, device_id: Seq<char>) -> ConfigView {
    ConfigView {
        thetadata_key: "dry-run"@,
        databento_key: "dry-run"@,
        equity_roots: seq!["SPY"@],
        cme_symbols: seq!["ES.FUT"@],
        anthropic_key,
        tradier_token: "dry-run"@,
        tradier_account_id: "dry-run"@,
        tradier_sandbox: true,
        tradovate_username: "dry-run"@,
        tradovate_password: "dry-run"@,
        tradovate_cid: 0,
        tradovate_secret: "dry-run"@,
        tradovate_device_id: device_id,
        tradovate_demo: true,
        oms_log_path: "/tmp/zeta_dryrun.jsonl"@,
    }
}

impl Config {
    /// The settings that environment variables give. Without a device identifier a random one
    /// is taken.
    pub fn from_env(vars: &Vec<Field>) -> (r: Result<Config, MissingVariable>)
        ensures
            match r {
                Ok(c) => {
                    &&& forall|k: int| !first_missing(vars@, k)
                    &&& c@ == settings(vars@, c@.tradovate_device_id)
                    &&& match var(vars@, "TRADOVATE_DEVICE_ID"@) {
                        Some(id) => c@.tradovate_device_id == id,
                        None => exists|id: u128|
                            random_id(id) && c@.tradovate_device_id == #[trigger] uuid_text(id),
                    }
                },
                Err(e) => exists|k: int|
                    first_missing(vars@, k) && e.name@ == #[trigger] demanded()[k],
            },
    {
        let ghost names: Seq<Seq<char>> = demanded();
        let databento_key: String = match demand(vars, "DATABENTO_API_KEY") {
            Ok(v) => v,
            Err(e) => {
                assert(first_missing(vars@, 0) && e.name@ == names[0]);
                return Err(e);
            },
        };
        let anthropic_key: String = match demand(vars, "ANTHROPIC_API_KEY") {
            Ok(v) => v,
            Err(e) => {
                assert(first_missing(vars@, 1) && e.name@ == names[1]);
                return Err(e);
            },
        };
        let tradier_token: String = match demand(vars, "TRADIER_TOKEN") {
            Ok(v) => v,
            Err(e) => {
                assert(first_missing(vars@, 2) && e.name@ == names[2]);
                return Err(e);
            },
        };
        let tradier_account_id: String = match demand(vars, "TRADIER_ACCOUNT_ID") {
            Ok(v) => v,
            Err(e) => {
                assert(first_missing(vars@, 3) && e.name@ == names[3]);
                return Err(e);
            },
        };
        let tradovate_username: String = match demand(vars, "TRADOVATE_USERNAME") {
            Ok(v) => v,
            Err(e) => {
                assert(first_missing(vars@, 4) && e.name@ == names[4]);
                return Err(e);
            },
        };
        let tradovate_password: String = match demand(vars, "TRADOVATE_PASSWORD") {
            Ok(v) => v,
            Err(e) => {
                assert(first_missing(vars@, 5) && e.name@ == names[5]);
                return Err(e);
            },
        };
        let tradovate_secret: String = match demand(vars, "TRADOVATE_SECRET") {
            Ok(v) => v,
            Err(e) => {
                assert(first_missing(vars@, 6) && e.name@ == names[6]);
                return Err(e);
            },
        };
        let tradovate_device_id: String = match look_up(vars, "TRADOVATE_DEVICE_ID") {
            Some(id) => id,
            None => uuid_to_text(fresh_uuid()),
        };
        let cid: String = look_up_or(vars, "TRADOVATE_CID", "");
        proof {
            reveal_strlit("");
            assert(""@ =~= Seq::<char>::empty());
        }
        let tradovate_cid: i64 = match text::parse_i64(cid.as_str()) {
            Some(n) => n,
            None => 0,
        };
        Ok(
            Config {
                thetadata_key: look_up_or(vars, "THETADATA_API_KEY", ""),
                databento_key,
                equity_roots: text::split(
                    look_up_or(vars, "EQUITY_ROOTS", "SPY,QQQ").as_str(),
                    ',',
                ),
                cme_symbols: text::split(
                    look_up_or(vars, "CME_SYMBOLS", "ES.FUT,NQ.FUT").as_str(),
                    ',',
                ),
                anthropic_key,
                tradier_token,
                tradier_account_id,
                tradier_sandbox: look_up_flag(vars, "TRADIER_SANDBOX", true),
                tradovate_username,
                tradovate_password,
                tradovate_cid,
                tradovate_secret,
                tradovate_device_id,
                tradovate_demo: look_up_flag(vars, "TRADOVATE_DEMO", true),
                oms_log_path: look_up_or(vars, "OMS_LOG_PATH", "/var/log/trading/oms.jsonl"),
            },
        )
    }

    /// Settings for a run that trades nothing in earnest, under a random device identifier.
    pub fn dry_run_defaults(vars: &Vec<Field>) -> (r: Config)
        ensures
            r@ == dry_run_settings(
                var_or(vars@, "ANTHROPIC_API_KEY"@, "dry-run"@),
                r@.tradovate_device_id,
            ),
            exists|id: u128|
                random_id(id) && r@.tradovate_device_id == #[trigger] uuid_text(id),
    {
        let equity_roots: Vec<String> = vec!["SPY".to_string()];
        let cme_symbols: Vec<String> = vec!["ES.FUT".to_string()];
        assert(texts(equity_roots@) =~= seq!["SPY"@]);
        assert(texts(cme_symbols@) =~= seq!["ES.FUT"@]);
        Config {
            thetadata_key: "dry-run".to_string(),
            databento_key: "dry-run".to_string(),
            equity_roots,
            cme_symbols,
            anthropic_key: look_up_or(vars, "ANTHROPIC_API_KEY", "dry-run"),
            tradier_token: "dry-run".to_string(),
            tradier_account_id: "dry-run".to_string(),
            tradier_sandbox: true,
            tradovate_username: "dry-run".to_string(),
            tradovate_password: "dry-run".to_string(),
            tradovate_cid: 0,
            tradovate_secret: "dry-run".to_string(),
            tradovate_device_id: uuid_to_text(fresh_uuid()),
            tradovate_demo: true,
            oms_log_path: "/tmp/zeta_dryrun.jsonl".to_string(),
        }
    }
}

} // verus!
