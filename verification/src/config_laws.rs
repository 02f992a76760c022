//! Where every setting comes from.

use crate::config::{
    demanded, dry_run_settings, first_missing, flag, is_var, settings, var, var_or,
};
use crate::http::Field;
use crate::text::{all_digits, is_digit, joined, law_join_undoes_split, pieces, signed_decimal};
use crate::text_laws::{
    law_pieces_have_no_separator, law_signed_numbers_read_back, law_split_undoes_join,
};
use vstd::prelude::*;

verus! {

/// A variable has the value of the first entry of its name; of the values, only `true` and `1`
/// mean yes.
pub proof fn law_the_first_entry_counts(
    vars: Seq<Field>,
    i: int,
    default: Seq<char>,
    otherwise: bool,
)
    requires
        0 <= i < vars.len(),
        forall|j: int| 0 <= j < i ==> (#[trigger] vars[j]).name@ != vars[i].name@,
    ensures
        ({
            let name = vars[i].name@;
            let value = vars[i].value@;
            &&& var(vars, name) == Some(value)
            &&& var_or(vars, name, default) == value
            &&& flag(vars, name, otherwise) <==> value == "true"@ || value == "1"@
        }),
{
    let name: Seq<char> = vars[i].name@;
    assert(is_var(vars, name, i));
    let k: int = choose|k: int| is_var(vars, name, k);
    assert(is_var(vars, name, k));
    assert(k == i);
}

/// A variable without an entry is not set, and what is said in its place holds.
pub proof fn law_variables_without_an_entry(
    vars: Seq<Field>,
    name: Seq<char>,
    default: Seq<char>,
    otherwise: bool,
)
    requires
        forall|j: int| 0 <= j < vars.len() ==> (#[trigger] vars[j]).name@ != name,
    ensures
        var(vars, name) is None,
        var_or(vars, name, default) == default,
        flag(vars, name, otherwise) == otherwise,
{
    if exists|i: int| is_var(vars, name, i) {
        let i: int = choose|i: int| is_var(vars, name, i);
        assert(is_var(vars, name, i));
        assert(vars[i].name@ == name);
    }
}

/// Every setting is the value of its own variable.
pub proof fn law_settings_have_their_variables(vars: Seq<Field>, device: Seq<char>)
    ensures
        ({
            let s = settings(vars, device);
            &&& var(vars, "THETADATA_API_KEY"@) matches Some(v) ==> s.thetadata_key == v
            &&& var(vars, "DATABENTO_API_KEY"@) matches Some(v) ==> s.databento_key == v
            &&& var(vars, "ANTHROPIC_API_KEY"@) matches Some(v) ==> s.anthropic_key == v
            &&& var(vars, "TRADIER_TOKEN"@) matches Some(v) ==> s.tradier_token == v
            &&& var(vars, "TRADIER_ACCOUNT_ID"@) matches Some(v) ==> s.tradier_account_id == v
            &&& var(vars, "TRADOVATE_USERNAME"@) matches Some(v) ==> s.tradovate_username == v
            &&& var(vars, "TRADOVATE_PASSWORD"@) matches Some(v) ==> s.tradovate_password == v
            &&& var(vars, "TRADOVATE_SECRET"@) matches Some(v) ==> s.tradovate_secret == v
            &&& var(vars, "OMS_LOG_PATH"@) matches Some(v) ==> s.oms_log_path == v
            &&& s.tradovate_device_id == device
        }),
{
}

/// Lists are written with commas between their items.
pub proof fn law_settings_with_lists(vars: Seq<Field>, device: Seq<char>)
    ensures
        var(vars, "EQUITY_ROOTS"@) matches Some(v) ==> joined(
            settings(vars, device).equity_roots,
            ","@,
        ) == v,
        var(vars, "CME_SYMBOLS"@) matches Some(v) ==> joined(
            settings(vars, device).cme_symbols,
            ","@,
        ) == v,
        forall|i: int|
            0 <= i < settings(vars, device).equity_roots.len() ==> !(#[trigger] settings(
                vars,
                device,
            ).equity_roots[i]).contains(','),
        forall|i: int|
            0 <= i < settings(vars, device).cme_symbols.len() ==> !(#[trigger] settings(
                vars,
                device,
            ).cme_symbols[i]).contains(','),
        var(vars, "EQUITY_ROOTS"@) is None ==> settings(vars, device).equity_roots == seq![
            "SPY"@,
            "QQQ"@,
        ],
        var(vars, "CME_SYMBOLS"@) is None ==> settings(vars, device).cme_symbols == seq![
            "ES.FUT"@,
            "NQ.FUT"@,
        ],
{
    reveal_strlit(",");
    assert(","@ =~= seq![',']);
    let roots: Seq<char> = var_or(vars, "EQUITY_ROOTS"@, "SPY,QQQ"@);
    let symbols: Seq<char> = var_or(vars, "CME_SYMBOLS"@, "ES.FUT,NQ.FUT"@);
    law_join_undoes_split(roots, ',');
    law_join_undoes_split(symbols, ',');
    law_pieces_have_no_separator(roots, ',');
    law_pieces_have_no_separator(symbols, ',');
    if var(vars, "EQUITY_ROOTS"@) is None {
        reveal_strlit("SPY,QQQ");
        reveal_strlit("SPY");
        reveal_strlit("QQQ");
        lemma_two_items("SPY"@, "QQQ"@, roots);
    }
    if var(vars, "CME_SYMBOLS"@) is None {
        reveal_strlit("ES.FUT,NQ.FUT");
        reveal_strlit("ES.FUT");
        reveal_strlit("NQ.FUT");
        lemma_two_items("ES.FUT"@, "NQ.FUT"@, symbols);
    }
}

proof fn lemma_two_items(a: Seq<char>, b: Seq<char>, s: Seq<char>)
    requires
        !a.contains(','),
        !b.contains(','),
        s =~= a + seq![','] + b,
    ensures
        pieces(s, ',') == seq![a, b],
{
    let v: Seq<Seq<char>> = seq![a, b];
    assert forall|i: int| 0 <= i < v.len() implies !(#[trigger] v[i]).contains(',') by {
        assert(v[i] == a || v[i] == b);
    }
    law_split_undoes_join(v, ',');
    assert(v.drop_last() =~= seq![a]);
    assert(joined(seq![a], seq![',']) == a);
    assert(joined(v, seq![',']) =~= s);
}

/// A setting that is not given has its default: trading is not in earnest unless it is asked for.
pub proof fn law_settings_have_defaults(vars: Seq<Field>, device: Seq<char>)
    ensures
        ({
            let s = settings(vars, device);
            &&& var(vars, "THETADATA_API_KEY"@) is None ==> s.thetadata_key.len() == 0
            &&& var(vars, "OMS_LOG_PATH"@) is None ==> s.oms_log_path
                == "/var/log/trading/oms.jsonl"@
            &&& var(vars, "TRADIER_SANDBOX"@) is None ==> s.tradier_sandbox
            &&& var(vars, "TRADOVATE_DEMO"@) is None ==> s.tradovate_demo
            &&& var(vars, "TRADIER_SANDBOX"@) matches Some(v) ==> (s.tradier_sandbox <==> v
                == "true"@ || v == "1"@)
            &&& var(vars, "TRADOVATE_DEMO"@) matches Some(v) ==> (s.tradovate_demo <==> v
                == "true"@ || v == "1"@)
        }),
{
}

/// The client number is the number that is written; no entry, an empty one, and one with a
/// character that is not a digit after the first, count as zero.
pub proof fn law_client_numbers_are_read(vars: Seq<Field>, device: Seq<char>, n: i64, i: int)
    ensures
        var(vars, "TRADOVATE_CID"@) == Some(signed_decimal(n as int)) ==> settings(
            vars,
            device,
        ).tradovate_cid == n,
        var(vars, "TRADOVATE_CID"@) is None ==> settings(vars, device).tradovate_cid == 0,
        var(vars, "TRADOVATE_CID"@) matches Some(v) ==> (v.len() == 0 ==> settings(
            vars,
            device,
        ).tradovate_cid == 0),
        var(vars, "TRADOVATE_CID"@) matches Some(v) ==> (0 < i < v.len() && !('0' <= v[i]
            <= '9') ==> settings(vars, device).tradovate_cid == 0),
{
    law_signed_numbers_read_back(n);
    if let Some(v) = var(vars, "TRADOVATE_CID"@) {
        if 0 < i < v.len() && !('0' <= v[i] <= '9') {
            assert(!is_digit(v[i]));
            assert(v.skip(1)[i - 1] == v[i]);
            assert(!all_digits(v));
            assert(!all_digits(v.skip(1)));
        }
    }
}

/// Seven variables must be set; the one that is reported missing is the first of them without an
/// entry, in the order of this list.
pub proof fn law_the_first_missing_variable_is_reported(vars: Seq<Field>)
    ensures
        (exists|k: int| first_missing(vars, k)) <==> {
            ||| var(vars, "DATABENTO_API_KEY"@) is None
            ||| var(vars, "ANTHROPIC_API_KEY"@) is None
            ||| var(vars, "TRADIER_TOKEN"@) is None
            ||| var(vars, "TRADIER_ACCOUNT_ID"@) is None
            ||| var(vars, "TRADOVATE_USERNAME"@) is None
            ||| var(vars, "TRADOVATE_PASSWORD"@) is None
            ||| var(vars, "TRADOVATE_SECRET"@) is None
        },
        forall|k: int| #[trigger]
            first_missing(vars, k) ==> demanded()[k] == if var(vars, "DATABENTO_API_KEY"@) is None {
                "DATABENTO_API_KEY"@
            } else if var(vars, "ANTHROPIC_API_KEY"@) is None {
                "ANTHROPIC_API_KEY"@
            } else if var(vars, "TRADIER_TOKEN"@) is None {
                "TRADIER_TOKEN"@
            } else if var(vars, "TRADIER_ACCOUNT_ID"@) is None {
                "TRADIER_ACCOUNT_ID"@
            } else if var(vars, "TRADOVATE_USERNAME"@) is None {
                "TRADOVATE_USERNAME"@
            } else if var(vars, "TRADOVATE_PASSWORD"@) is None {
                "TRADOVATE_PASSWORD"@
            } else {
                "TRADOVATE_SECRET"@
            },
{
    let d: Seq<Seq<char>> = demanded();
    assert(d[0] == "DATABENTO_API_KEY"@);
    assert(d[1] == "ANTHROPIC_API_KEY"@);
    assert(d[2] == "TRADIER_TOKEN"@);
    assert(d[3] == "TRADIER_ACCOUNT_ID"@);
    assert(d[4] == "TRADOVATE_USERNAME"@);
    assert(d[5] == "TRADOVATE_PASSWORD"@);
    assert(d[6] == "TRADOVATE_SECRET"@);
    let first: int = if var(vars, d[0]) is None {
        0
    } else if var(vars, d[1]) is None {
        1
    } else if var(vars, d[2]) is None {
        2
    } else if var(vars, d[3]) is None {
        3
    } else if var(vars, d[4]) is None {
        4
    } else if var(vars, d[5]) is None {
        5
    } else {
        6
    };
    if var(vars, d[first]) is None {
        assert(first_missing(vars, first));
    }
}

/// A run that trades nothing in earnest has no key, name or account of a broker, and uses the
/// brokers' test systems and a log of its own.
pub proof fn law_dry_runs_use_nothing_real(key: Seq<char>, device: Seq<char>)
    ensures
        ({
            let s = dry_run_settings(key, device);
            &&& s.tradier_sandbox
            &&& s.tradovate_demo
            &&& s.thetadata_key == "dry-run"@
            &&& s.databento_key == "dry-run"@
            &&& s.tradier_token == "dry-run"@
            &&& s.tradier_account_id == "dry-run"@
            &&& s.tradovate_username == "dry-run"@
            &&& s.tradovate_password == "dry-run"@
            &&& s.tradovate_secret == "dry-run"@
            &&& s.tradovate_cid == 0
            &&& s.equity_roots == seq!["SPY"@]
            &&& s.cme_symbols == seq!["ES.FUT"@]
            &&& s.oms_log_path == "/tmp/zeta_dryrun.jsonl"@
            &&& s.anthropic_key == key
            &&& s.tradovate_device_id == device
        }),
{
}

} // verus!
