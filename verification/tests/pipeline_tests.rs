//! Scenario tests driving the metering pipeline step machine.

use std::str::FromStr;

use withdrawals_meterer::pipeline::{
    Anomaly, Command, Event, MetricSample, StoreError, WithdrawalsMeter,
};
use withdrawals_meterer::token::{native_token, token_label, Amount, TokenId, WithdrawalRecord};

fn token(last: u8) -> TokenId {
    let mut bytes = [0u8; 20];
    bytes[19] = last;
    TokenId { bytes }
}

fn record(t: TokenId, amount: u64) -> WithdrawalRecord {
    WithdrawalRecord { storage_id: 1, token: t, amount: Amount::from_u64(amount) }
}

struct RunResult {
    emitted: Vec<MetricSample>,
    skipped: Vec<Anomaly>,
    fetches: Vec<TokenId>,
    outcome: Result<(), String>,
}

/// Drive one batch to completion: performs fetches against `store`, treats a
/// sample as emitted unless `parse_fails` rejects its value.
fn drive(
    meter: &mut WithdrawalsMeter,
    batch: &Vec<WithdrawalRecord>,
    store: &mut dyn FnMut(&TokenId) -> Result<Option<u32>, String>,
    parse_fails: &dyn Fn(&str) -> bool,
) -> RunResult {
    let mut run = meter.begin_batch();
    let mut ev = Event::Proceed;
    let mut out = RunResult {
        emitted: Vec::new(),
        skipped: Vec::new(),
        fetches: Vec::new(),
        outcome: Ok(()),
    };
    loop {
        match meter.step(batch, &mut run, ev) {
            Command::Fetch(t) => {
                out.fetches.push(t);
                ev = match store(&t) {
                    Ok(d) => Event::Fetched(d),
                    Err(message) => Event::StoreFailed(StoreError { message }),
                };
            }
            Command::Emit(s) => {
                if parse_fails(&s.value) {
                    ev = Event::EmitFailed;
                } else {
                    out.emitted.push(s);
                    ev = Event::Emitted;
                }
            }
            Command::Skipped(a) => {
                out.skipped.push(a);
                ev = Event::Proceed;
            }
            Command::Continue => {
                ev = Event::Proceed;
            }
            Command::Finished(r) => {
                out.outcome = r.map_err(|e| e.message);
                return out;
            }
        }
    }
}

fn count_fetches(out: &RunResult, t: &TokenId) -> usize {
    out.fetches.iter().filter(|f| f.bytes == t.bytes).count()
}

#[test]
fn empty_batch_finishes_cleanly() {
    let mut meter = WithdrawalsMeter::new(String::from("wf"));
    let batch = Vec::new();
    let out = drive(&mut meter, &batch, &mut |_| panic!("no fetch expected"), &|_| false);
    assert!(out.outcome.is_ok());
    assert!(out.emitted.is_empty());
    assert!(out.skipped.is_empty());
    assert!(out.fetches.is_empty());
}

#[test]
fn registered_token_is_fetched_once_per_meter() {
    let a = token(1);
    let mut meter = WithdrawalsMeter::new(String::from("wf"));
    let batch = vec![record(a, 1_000_000), record(a, 2_000_000)];
    let out = drive(&mut meter, &batch, &mut |_| Ok(Some(6)), &|_| false);
    assert!(out.outcome.is_ok());
    assert_eq!(out.emitted.len(), 2);
    assert_eq!(count_fetches(&out, &a), 1);
    assert!(meter.knows_token(&a));
    assert_eq!(out.emitted[0].value, "1.000000");
    assert_eq!(out.emitted[1].value, "2.000000");
}

#[test]
fn native_token_resolves_to_18_decimals_without_fetch() {
    let mut meter = WithdrawalsMeter::new(String::from("finalizer"));
    let batch = vec![record(native_token(), 1_000_000_000_000_000_000)];
    let out = drive(&mut meter, &batch, &mut |_| panic!("no fetch expected"), &|_| false);
    assert!(out.outcome.is_ok());
    assert_eq!(out.emitted.len(), 1);
    assert_eq!(out.emitted[0].value, "1.000000000000000000");
    assert_eq!(out.emitted[0].name, "finalizer_withdrawals");
    assert_eq!(out.emitted[0].token_label, token_label(&native_token()));
}

#[test]
fn unknown_token_is_skipped_and_rest_processed() {
    let unknown = token(2);
    let known = token(3);
    let mut meter = WithdrawalsMeter::new(String::from("wf"));
    let batch = vec![record(unknown, 500), record(known, 1500)];
    let out = drive(
        &mut meter,
        &batch,
        &mut |t| if t.bytes == known.bytes { Ok(Some(2)) } else { Ok(None) },
        &|_| false,
    );
    assert!(out.outcome.is_ok());
    assert_eq!(out.skipped, vec![Anomaly::UnknownToken]);
    assert_eq!(out.emitted.len(), 1);
    assert_eq!(out.emitted[0].value, "15.00");
    // the miss is not cached: a later batch asks the store again
    assert!(!meter.knows_token(&unknown));
    let batch2 = vec![record(unknown, 500)];
    let out2 = drive(&mut meter, &batch2, &mut |_| Ok(None), &|_| false);
    assert_eq!(count_fetches(&out2, &unknown), 1);
}

#[test]
fn unparsable_amount_is_skipped_and_rest_processed() {
    let a = token(4);
    let b = token(5);
    let mut meter = WithdrawalsMeter::new(String::from("wf"));
    let batch = vec![record(a, 700), record(b, 900)];
    // the sink rejects the first item's value
    let out = drive(
        &mut meter,
        &batch,
        &mut |_| Ok(Some(2)),
        &|v| v == "7.00",
    );
    assert!(out.outcome.is_ok());
    assert_eq!(out.skipped, vec![Anomaly::FormatError]);
    assert_eq!(out.emitted.len(), 1);
    assert_eq!(out.emitted[0].value, "9.00");
}

#[test]
fn oversized_exponent_is_skipped_and_rest_processed() {
    let a = token(6);
    let b = token(7);
    let mut meter = WithdrawalsMeter::new(String::from("wf"));
    let batch = vec![record(a, 700), record(b, 900)];
    let out = drive(
        &mut meter,
        &batch,
        &mut |t| if t.bytes == a.bytes { Ok(Some(100)) } else { Ok(Some(1)) },
        &|_| false,
    );
    assert!(out.outcome.is_ok());
    assert_eq!(out.skipped, vec![Anomaly::FormatError]);
    assert_eq!(out.emitted.len(), 1);
    assert_eq!(out.emitted[0].value, "90.0");
}

#[test]
fn store_failure_aborts_batch_but_prior_emissions_stand() {
    let a = token(8);
    let b = token(9);
    let c = token(10);
    let mut meter = WithdrawalsMeter::new(String::from("wf"));
    let batch = vec![record(a, 100), record(b, 200), record(c, 300)];
    let out = drive(
        &mut meter,
        &batch,
        &mut |t| {
            if t.bytes == a.bytes {
                Ok(Some(1))
            } else {
                Err(String::from("connection reset"))
            }
        },
        &|_| false,
    );
    assert_eq!(out.outcome, Err(String::from("connection reset")));
    // the first item's emission stands
    assert_eq!(out.emitted.len(), 1);
    assert_eq!(out.emitted[0].value, "10.0");
    // the third item was never looked at
    assert_eq!(count_fetches(&out, &c), 0);
}

#[test]
fn end_to_end_batch_of_three() {
    let a = token(11);
    let b = token(12);
    let mut meter = WithdrawalsMeter::new(String::from("wf"));
    let batch = vec![
        record(a, 1_000_000_000_000_000_000),
        record(b, 42),
        record(a, 500_000_000_000_000_000),
    ];
    let out = drive(
        &mut meter,
        &batch,
        &mut |t| if t.bytes == a.bytes { Ok(Some(18)) } else { Ok(None) },
        &|_| false,
    );
    assert!(out.outcome.is_ok());
    assert_eq!(out.emitted.len(), 2);
    assert_eq!(f64::from_str(&out.emitted[0].value).unwrap(), 1.0);
    assert_eq!(f64::from_str(&out.emitted[1].value).unwrap(), 0.5);
    assert_eq!(out.emitted[0].token_label, token_label(&a));
    assert_eq!(out.emitted[1].token_label, token_label(&a));
    assert_eq!(out.skipped, vec![Anomaly::UnknownToken]);
    assert_eq!(count_fetches(&out, &a), 1);
    assert_eq!(count_fetches(&out, &b), 1);
    assert_eq!(count_fetches(&out, &native_token()), 0);
    assert_eq!(out.emitted[0].name, "wf_withdrawals");
}
