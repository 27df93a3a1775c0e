//! The metering pipeline: one withdrawal batch is processed as a sequence of
//! small steps. Each step consumes the outcome of the previous outside action
//! (a decimals fetch against the store, or a metric emission) and decides the
//! next one, so that per-item failures are isolated while a store failure
//! aborts the batch.

use vstd::prelude::*;

use crate::cache::{TokenDecimalsCache, NATIVE_DECIMALS};
use crate::scale::{scale, scaled_chars, MAX_SCALE_DECIMALS};
use crate::token::{hex_label, native_token_bytes, token_label, RecordModel, TokenId,
    WithdrawalRecord};

verus! {

/// A store failure, as reported by the persistence collaborator.
#[derive(Debug)]
pub struct StoreError {
    pub message: String,
}

/// One gauge update, ready for the metrics sink. The value is the full
/// precision decimal text of the scaled amount; the sink converts it to its
/// own numeric form at the edge.
#[derive(Debug)]
pub struct MetricSample {
    pub name: String,
    pub value: String,
    pub token_label: String,
}

/// The mathematical content of a metric sample.
pub struct SampleModel {
    pub name: Seq<char>,
    pub value: Seq<char>,
    pub token_label: Seq<char>,
}

impl View for MetricSample {
    type V = SampleModel;

    open spec fn view(&self) -> SampleModel {
        SampleModel { name: self.name@, value: self.value@, token_label: self.token_label@ }
    }
}

/// A recoverable per-item anomaly: the withdrawal is skipped and only logged.
#[derive(Clone, Copy, Debug, PartialEq, Eq, Structural)]
pub enum Anomaly {
    /// The token has no registered decimals.
    UnknownToken,
    /// The scaled amount cannot be represented for emission.
    FormatError,
}

/// Where one batch run stands between steps.
#[derive(Clone, Copy, Debug, PartialEq, Eq, Structural)]
pub enum Phase {
    /// The next item (if any) has not been looked at yet.
    Ready,
    /// A decimals fetch for the current item is outstanding.
    AwaitingFetch,
    /// A metric emission for the current item is outstanding.
    AwaitingEmit,
    /// The batch is over; no further step is taken.
    Done,
}

/// What the caller reports back into a step.
#[derive(Debug)]
pub enum Event {
    /// No outside action was pending (the first step, or after a skip).
    Proceed,
    /// The store answered a decimals fetch: the value, or no such token.
    Fetched(Option<u32>),
    /// The store failed with an infrastructure error.
    StoreFailed(StoreError),
    /// The pending sample was emitted.
    Emitted,
    /// The pending sample could not be represented by the sink.
    EmitFailed,
}

/// The model of an event.
pub enum EventModel {
    Proceed,
    Fetched(Option<u32>),
    StoreFailed(Seq<char>),
    Emitted,
    EmitFailed,
}

impl View for Event {
    type V = EventModel;

    open spec fn view(&self) -> EventModel {
        match self {
            Event::Proceed => EventModel::Proceed,
            Event::Fetched(d) => EventModel::Fetched(*d),
            Event::StoreFailed(e) => EventModel::StoreFailed(e.message@),
            Event::Emitted => EventModel::Emitted,
            Event::EmitFailed => EventModel::EmitFailed,
        }
    }
}

/// What the caller is asked to do after a step.
#[derive(Debug)]
pub enum Command {
    /// Ask the store for this token's decimals, then report the outcome.
    Fetch(TokenId),
    /// Hand this sample to the metrics sink, then report the outcome.
    Emit(MetricSample),
    /// The current item was skipped for the given anomaly; log it and step on.
    Skipped(Anomaly),
    /// Nothing to do for this item any more; step on.
    Continue,
    /// The batch is over: clean success, or the propagated store error.
    Finished(Result<(), StoreError>),
}

/// The model of a command.
pub enum CommandModel {
    Fetch(Seq<u8>),
    Emit(SampleModel),
    Skipped(Anomaly),
    Continue,
    Finished(Result<(), Seq<char>>),
}

impl View for Command {
    type V = CommandModel;

    open spec fn view(&self) -> CommandModel {
        match self {
            Command::Fetch(t) => CommandModel::Fetch(t@),
            Command::Emit(s) => CommandModel::Emit(s@),
            Command::Skipped(a) => CommandModel::Skipped(*a),
            Command::Continue => CommandModel::Continue,
            Command::Finished(r) => CommandModel::Finished(
                match r {
                    Ok(u) => Ok(*u),
                    Err(e) => Err(e.message@),
                },
            ),
        }
    }
}

/// State of withdrawals volume metering: the component label that namespaces
/// the emitted metric, and the token-decimals cache.
pub struct WithdrawalsMeter {
    component_name: String,
    cache: TokenDecimalsCache,
}

/// The model of a meter: its metric namespace and its cache contents.
pub struct MeterModel {
    pub component: Seq<char>,
    pub cache: Map<Seq<u8>, u32>,
}

impl View for WithdrawalsMeter {
    type V = MeterModel;

    closed spec fn view(&self) -> MeterModel {
        MeterModel { component: self.component_name@, cache: self.cache@ }
    }
}

/// One batch run: the position within the batch and the pending action.
pub struct BatchRun {
    pos: usize,
    phase: Phase,
}

/// The model of a batch run.
pub struct RunModel {
    pub pos: int,
    pub phase: Phase,
}

impl View for BatchRun {
    type V = RunModel;

    closed spec fn view(&self) -> RunModel {
        RunModel { pos: self.pos as int, phase: self.phase }
    }
}

/// The batch as the specification sees it.
pub open spec fn batch_model(b: Seq<WithdrawalRecord>) -> Seq<RecordModel> {
    b.map_values(|r: WithdrawalRecord| r@)
}

/// The name of the emitted gauge, namespaced by the component.
pub open spec fn metric_name_model(component: Seq<char>) -> Seq<char> {
    component + "_withdrawals"@
}

/// The sample emitted for one record whose token has `d` decimals.
pub open spec fn sample_model(component: Seq<char>, r: RecordModel, d: u32) -> SampleModel {
    SampleModel {
        name: metric_name_model(component),
        value: scaled_chars(r.amount, d as nat),
        token_label: hex_label(r.token),
    }
}

/// A run makes sense against a batch: the position is within range, and an
/// item is current whenever an outside action is pending for it.
pub open spec fn run_wf(run: RunModel, batch: Seq<RecordModel>) -> bool {
    &&& 0 <= run.pos <= batch.len()
    &&& (run.phase is AwaitingFetch || run.phase is AwaitingEmit) ==> run.pos < batch.len()
}

/// Which events answer which pending action.
pub open spec fn event_fits(phase: Phase, ev: EventModel) -> bool {
    match phase {
        Phase::Ready => ev is Proceed,
        Phase::AwaitingFetch => ev is Fetched || ev is StoreFailed,
        Phase::AwaitingEmit => ev is Emitted || ev is EmitFailed,
        Phase::Done => false,
    }
}

/// The step taken for the current item once its decimals are in hand: emit
/// its sample where the exponent is scalable, otherwise skip the item.
pub open spec fn item_step_model(component: Seq<char>, r: RecordModel, d: u32, pos: int) -> (
    RunModel,
    CommandModel,
) {
    if d <= MAX_SCALE_DECIMALS {
        (
            RunModel { pos, phase: Phase::AwaitingEmit },
            CommandModel::Emit(sample_model(component, r, d)),
        )
    } else {
        (RunModel { pos: pos + 1, phase: Phase::Ready }, CommandModel::Skipped(Anomaly::FormatError))
    }
}

/// The whole transition relation of one step, as a function: from the meter,
/// the run, the batch and the reported event to the new meter, the new run
/// and the commanded action.
pub open spec fn step_model(
    m: MeterModel,
    run: RunModel,
    batch: Seq<RecordModel>,
    ev: EventModel,
) -> (MeterModel, RunModel, CommandModel) {
    match run.phase {
        Phase::Ready => {
            if run.pos >= batch.len() {
                (
                    m,
                    RunModel { pos: run.pos, phase: Phase::Done },
                    CommandModel::Finished(Ok(())),
                )
            } else {
                let r = batch[run.pos];
                if m.cache.contains_key(r.token) {
                    let (run2, cmd) = item_step_model(m.component, r, m.cache[r.token], run.pos);
                    (m, run2, cmd)
                } else {
                    (
                        m,
                        RunModel { pos: run.pos, phase: Phase::AwaitingFetch },
                        CommandModel::Fetch(r.token),
                    )
                }
            }
        },
        Phase::AwaitingFetch => {
            match ev {
                EventModel::Fetched(Some(d)) => {
                    let r = batch[run.pos];
                    let d_used = if m.cache.contains_key(r.token) {
                        m.cache[r.token]
                    } else {
                        d
                    };
                    let m2 = MeterModel {
                        component: m.component,
                        cache: if m.cache.contains_key(r.token) {
                            m.cache
                        } else {
                            m.cache.insert(r.token, d)
                        },
                    };
                    let (run2, cmd) = item_step_model(m.component, r, d_used, run.pos);
                    (m2, run2, cmd)
                },
                EventModel::Fetched(None) => (
                    m,
                    RunModel { pos: run.pos + 1, phase: Phase::Ready },
                    CommandModel::Skipped(Anomaly::UnknownToken),
                ),
                EventModel::StoreFailed(e) => (
                    m,
                    RunModel { pos: run.pos, phase: Phase::Done },
                    CommandModel::Finished(Err(e)),
                ),
                _ => (m, run, CommandModel::Continue),
            }
        },
        Phase::AwaitingEmit => {
            match ev {
                EventModel::Emitted => (
                    m,
                    RunModel { pos: run.pos + 1, phase: Phase::Ready },
                    CommandModel::Continue,
                ),
                EventModel::EmitFailed => (
                    m,
                    RunModel { pos: run.pos + 1, phase: Phase::Ready },
                    CommandModel::Skipped(Anomaly::FormatError),
                ),
                _ => (m, run, CommandModel::Continue),
            }
        },
        Phase::Done => (m, run, CommandModel::Continue),
    }
}

/// Append the fixed gauge suffix to the component label.
fn metric_name(component: &String) -> (r: String)
    ensures
        r@ == metric_name_model(component@),
{
    let mut r = component.clone();
    r.append("_withdrawals");
    r
}

impl WithdrawalsMeter {
    /// The internal invariant: the cache keys are unique.
    pub closed spec fn wf(self) -> bool {
        self.cache.wf()
    }

    /// Create a new meter. Metric names are derived from `component_name`,
    /// and the cache starts with the native asset at 18 decimals.
    pub fn new(component_name: String) -> (m: Self)
        ensures
            m.wf(),
            m@.component == component_name@,
            m@.cache == Map::<Seq<u8>, u32>::empty().insert(native_token_bytes(), NATIVE_DECIMALS),
    {
        WithdrawalsMeter { component_name, cache: TokenDecimalsCache::new() }
    }

    /// Whether the meter already knows this token's decimals.
    pub fn knows_token(&self, t: &TokenId) -> (r: bool)
        requires
            self.wf(),
        ensures
            r == self@.cache.contains_key(t@),
    {
        self.cache.lookup(t).is_some()
    }

    /// Start a run over a batch; the first event to report is `Proceed`.
    pub fn begin_batch(&self) -> (run: BatchRun)
        ensures
            run@.pos == 0,
            run@.phase is Ready,
    {
        BatchRun { pos: 0, phase: Phase::Ready }
    }

    /// The step for the current item once its decimals `d` are known.
    fn item_step(&self, w: &WithdrawalRecord, d: u32, run: &mut BatchRun) -> (cmd: Command)
        requires
            old(run)@.pos < usize::MAX,
        ensures
            ({
                let (run2, cmd2) = item_step_model(self@.component, w@, d, old(run)@.pos);
                final(run)@ == run2 && cmd@ == cmd2
            }),
    {
        if d <= MAX_SCALE_DECIMALS {
            let value = scale(&w.amount, d);
            let name = metric_name(&self.component_name);
            let label = token_label(&w.token);
            run.phase = Phase::AwaitingEmit;
            Command::Emit(MetricSample { name, value, token_label: label })
        } else {
            run.pos = run.pos + 1;
            run.phase = Phase::Ready;
            Command::Skipped(Anomaly::FormatError)
        }
    }

    /// One step of a batch run. The caller reports what came of the action
    /// the previous step commanded, and is told the next action. The whole
    /// transition is pinned by [`step_model`].
    pub fn step(&mut self, batch: &Vec<WithdrawalRecord>, run: &mut BatchRun, event: Event) -> (cmd:
        Command)
        requires
            old(self).wf(),
            run_wf(old(run)@, batch_model(batch@)),
            event_fits(old(run)@.phase, event@),
        ensures
            final(self).wf(),
            run_wf(final(run)@, batch_model(batch@)),
            ({
                let (m2, run2, cmd2) = step_model(
                    old(self)@,
                    old(run)@,
                    batch_model(batch@),
                    event@,
                );
                final(self)@ == m2 && final(run)@ == run2 && cmd@ == cmd2
            }),
    {
        let n = batch.len();
        proof {
            assert(batch_model(batch@).len() == batch@.len());
        }
        match run.phase {
            Phase::Ready => {
                if run.pos >= n {
                    run.phase = Phase::Done;
                    Command::Finished(Ok(()))
                } else {
                    let w = &batch[run.pos];
                    proof {
                        assert(batch_model(batch@)[run.pos as int] == batch@[run.pos as int]@);
                    }
                    match self.cache.lookup(&w.token) {
                        Some(d) => self.item_step(w, d, run),
                        None => {
                            run.phase = Phase::AwaitingFetch;
                            Command::Fetch(w.token)
                        },
                    }
                }
            },
            Phase::AwaitingFetch => {
                proof {
                    assert(run.pos < n);
                }
                match event {
                    Event::Fetched(Some(d)) => {
                        let w = &batch[run.pos];
                        proof {
                            assert(batch_model(batch@)[run.pos as int] == batch@[run.pos as int]@);
                        }
                        let d_used = match self.cache.lookup(&w.token) {
                            Some(d0) => d0,
                            None => {
                                self.cache.record(&w.token, d);
                                d
                            },
                        };
                        self.item_step(w, d_used, run)
                    },
                    Event::Fetched(None) => {
                        run.pos = run.pos + 1;
                        run.phase = Phase::Ready;
                        Command::Skipped(Anomaly::UnknownToken)
                    },
                    Event::StoreFailed(e) => {
                        run.phase = Phase::Done;
                        Command::Finished(Err(e))
                    },
                    _ => {
                        proof {
                            assert(false);
                        }
                        Command::Continue
                    },
                }
            },
            Phase::AwaitingEmit => {
                proof {
                    assert(run.pos < n);
                }
                match event {
                    Event::Emitted => {
                        run.pos = run.pos + 1;
                        run.phase = Phase::Ready;
                        Command::Continue
                    },
                    Event::EmitFailed => {
                        run.pos = run.pos + 1;
                        run.phase = Phase::Ready;
                        Command::Skipped(Anomaly::FormatError)
                    },
                    _ => {
                        proof {
                            assert(false);
                        }
                        Command::Continue
                    },
                }
            },
            Phase::Done => {
                proof {
                    assert(false);
                }
                Command::Continue
            },
        }
    }
}

} // verus!
