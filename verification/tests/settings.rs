use zeta_executor::config::{anthropic_model, dry_run, zmq_endpoint, Config};
use zeta_executor::http::{field, Field};

fn full() -> Vec<Field> {
    vec![
        field("DATABENTO_API_KEY", "db"),
        field("ANTHROPIC_API_KEY", "an"),
        field("TRADIER_TOKEN", "tt"),
        field("TRADIER_ACCOUNT_ID", "ta"),
        field("TRADOVATE_USERNAME", "tu"),
        field("TRADOVATE_PASSWORD", "tp"),
        field("TRADOVATE_SECRET", "ts"),
    ]
}

#[test]
fn settings_have_defaults() {
    let c = Config::from_env(&full()).unwrap();
    assert_eq!(c.thetadata_key, "");
    assert_eq!((c.databento_key.as_str(), c.anthropic_key.as_str()), ("db", "an"));
    assert_eq!(c.equity_roots, ["SPY", "QQQ"]);
    assert_eq!(c.cme_symbols, ["ES.FUT", "NQ.FUT"]);
    assert_eq!((c.tradier_token.as_str(), c.tradier_account_id.as_str()), ("tt", "ta"));
    assert!(c.tradier_sandbox);
    assert_eq!((c.tradovate_username.as_str(), c.tradovate_password.as_str()), ("tu", "tp"));
    assert_eq!((c.tradovate_cid, c.tradovate_secret.as_str()), (0, "ts"));
    assert_eq!(c.tradovate_device_id.len(), 36);
    assert!(c.tradovate_demo);
    assert_eq!(c.oms_log_path, "/var/log/trading/oms.jsonl");
}

#[test]
fn settings_can_be_given() {
    let mut vars = full();
    vars.push(field("THETADATA_API_KEY", "td"));
    vars.push(field("EQUITY_ROOTS", "IWM,,TLT"));
    vars.push(field("CME_SYMBOLS", "CL.FUT"));
    vars.push(field("TRADIER_SANDBOX", "false"));
    vars.push(field("TRADOVATE_CID", "-12"));
    vars.push(field("TRADOVATE_DEVICE_ID", "dev"));
    vars.push(field("TRADOVATE_DEMO", "1"));
    vars.push(field("OMS_LOG_PATH", "/x"));
    let c = Config::from_env(&vars).unwrap();
    assert_eq!(c.thetadata_key, "td");
    assert_eq!(c.equity_roots, ["IWM", "", "TLT"]);
    assert_eq!(c.cme_symbols, ["CL.FUT"]);
    assert!(!c.tradier_sandbox);
    assert_eq!(c.tradovate_cid, -12);
    assert_eq!(c.tradovate_device_id, "dev");
    assert!(c.tradovate_demo);
    assert_eq!(c.oms_log_path, "/x");
}

#[test]
fn numbers_that_cannot_be_read_are_zero() {
    let mut vars = full();
    vars.push(field("TRADOVATE_CID", "abc"));
    assert_eq!(Config::from_env(&vars).unwrap().tradovate_cid, 0);
}

#[test]
fn each_demanded_variable_must_be_set() {
    for i in 0..7 {
        let mut vars = full();
        let name = vars.remove(i).name;
        let e = Config::from_env(&vars).unwrap_err();
        assert_eq!(e.name, name);
        assert_eq!(e.message(), "environment variable not found");
    }
    assert_eq!(Config::from_env(&vec![]).unwrap_err().name, "DATABENTO_API_KEY");
}

#[test]
fn dry_runs_need_nothing() {
    let c = Config::dry_run_defaults(&vec![]);
    assert_eq!(c.anthropic_key, "dry-run");
    assert_eq!(c.equity_roots, ["SPY"]);
    assert_eq!(c.cme_symbols, ["ES.FUT"]);
    assert_eq!(c.oms_log_path, "/tmp/zeta_dryrun.jsonl");
    assert_eq!((c.tradovate_cid, c.tradier_sandbox, c.tradovate_demo), (0, true, true));
    let c = Config::dry_run_defaults(&full());
    assert_eq!(c.anthropic_key, "an");
    assert_eq!(c.databento_key, "dry-run");
}

#[test]
fn flags_and_addresses() {
    assert!(!dry_run(&vec![]));
    assert!(dry_run(&vec![field("DRY_RUN", "true")]));
    assert!(dry_run(&vec![field("DRY_RUN", "1")]));
    assert!(!dry_run(&vec![field("DRY_RUN", "TRUE")]));
    assert!(!dry_run(&vec![field("DRY_RUN", "yes")]));
    assert_eq!(zmq_endpoint(&vec![]), "ipc:///tmp/zeta.sock");
    assert_eq!(zmq_endpoint(&vec![field("ZMQ_ENDPOINT", "tcp://x")]), "tcp://x");
}

#[test]
fn a_model_has_a_name() {
    assert_eq!(anthropic_model(&vec![field("ANTHROPIC_MODEL", "m")]).unwrap(), "m");
    for vars in [vec![], vec![field("ANTHROPIC_MODEL", "")]] {
        let e = anthropic_model(&vars).unwrap_err();
        assert_eq!(e.name, "ANTHROPIC_MODEL");
        assert_eq!(e.message(), "environment variable not found");
    }
}
