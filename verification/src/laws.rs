//! The guarantees of the metering pipeline, stated and proved over its
//! transition relation [`step_model`].

use vstd::prelude::*;

use crate::cache::NATIVE_DECIMALS;
use crate::pipeline::{
    event_fits, run_wf, sample_model, step_model, Anomaly, CommandModel, EventModel,
    MeterModel, Phase, RunModel,
};
use crate::scale::MAX_SCALE_DECIMALS;
use crate::token::{native_token_bytes, RecordModel};

verus! {

/// A step never forgets and never overwrites a cache entry: whatever the
/// event, every registered token stays registered with the same decimals,
/// and the metric namespace does not change.
pub proof fn lemma_cache_monotone(
    m: MeterModel,
    run: RunModel,
    batch: Seq<RecordModel>,
    ev: EventModel,
)
    requires
        run_wf(run, batch),
        event_fits(run.phase, ev),
    ensures
        step_model(m, run, batch, ev).0.component == m.component,
        forall|t: Seq<u8>|
            #[trigger] m.cache.contains_key(t) ==> step_model(m, run, batch, ev).0.cache.contains_key(t)
                && step_model(m, run, batch, ev).0.cache[t] == m.cache[t],
{
}

/// A fetch is commanded only for the current item's token, and only when the
/// cache holds no entry for it; asking changes nothing yet.
pub proof fn lemma_fetch_only_on_miss(
    m: MeterModel,
    run: RunModel,
    batch: Seq<RecordModel>,
    ev: EventModel,
)
    requires
        run_wf(run, batch),
        event_fits(run.phase, ev),
        step_model(m, run, batch, ev).2 is Fetch,
    ensures
        run.phase is Ready,
        run.pos < batch.len(),
        step_model(m, run, batch, ev).2 == CommandModel::Fetch(batch[run.pos].token),
        !m.cache.contains_key(batch[run.pos].token),
        step_model(m, run, batch, ev).0 == m,
{
}

/// A token with registered decimals resolves from the cache: no step ever
/// commands a fetch for it, and its registration survives the step. Hence a
/// token is fetched at most once per meter with a successful outcome: after
/// [`lemma_fetched_token_registered`] it is registered for good.
pub proof fn lemma_no_refetch(
    m: MeterModel,
    run: RunModel,
    batch: Seq<RecordModel>,
    ev: EventModel,
    t: Seq<u8>,
)
    requires
        run_wf(run, batch),
        event_fits(run.phase, ev),
        m.cache.contains_key(t),
    ensures
        ({
            let (m2, run2, cmd) = step_model(m, run, batch, ev);
            &&& cmd != CommandModel::Fetch(t)
            &&& m2.cache.contains_key(t)
            &&& m2.cache[t] == m.cache[t]
        }),
{
    if step_model(m, run, batch, ev).2 is Fetch {
        lemma_fetch_only_on_miss(m, run, batch, ev);
    }
    lemma_cache_monotone(m, run, batch, ev);
}

/// Stepping up to an item whose token is registered with `d` decimals
/// resolves without any fetch: the cache is untouched, and the commanded
/// action is the emission of the item's sample scaled by `d` (or the skip of
/// the item where the exponent is beyond the scalable range).
pub proof fn lemma_cached_token_resolves(
    m: MeterModel,
    run: RunModel,
    batch: Seq<RecordModel>,
    d: u32,
)
    requires
        run_wf(run, batch),
        run.phase is Ready,
        run.pos < batch.len(),
        m.cache.contains_key(batch[run.pos].token),
        m.cache[batch[run.pos].token] == d,
    ensures
        ({
            let (m2, run2, cmd) = step_model(m, run, batch, EventModel::Proceed);
            &&& m2 == m
            &&& !(cmd is Fetch)
            &&& d <= MAX_SCALE_DECIMALS ==> {
                &&& cmd == CommandModel::Emit(sample_model(m.component, batch[run.pos], d))
                &&& run2 == (RunModel { pos: run.pos, phase: Phase::AwaitingEmit })
            }
            &&& d > MAX_SCALE_DECIMALS ==> {
                &&& cmd == CommandModel::Skipped(Anomaly::FormatError)
                &&& run2 == (RunModel { pos: run.pos + 1, phase: Phase::Ready })
            }
        }),
{
}

/// After the store answers a fetch with a value, the current item's token is
/// registered: every later occurrence resolves from the cache.
pub proof fn lemma_fetched_token_registered(
    m: MeterModel,
    run: RunModel,
    batch: Seq<RecordModel>,
    d: u32,
)
    requires
        run_wf(run, batch),
        run.phase is AwaitingFetch,
    ensures
        step_model(m, run, batch, EventModel::Fetched(Some(d))).0.cache.contains_key(
            batch[run.pos].token,
        ),
{
}

/// The native-asset pseudo-token always resolves to 18 decimals without any
/// fetch. Its registration is seeded at construction and, by
/// [`lemma_cache_monotone`], survives every step.
pub proof fn lemma_native_resolves_without_fetch(
    m: MeterModel,
    run: RunModel,
    batch: Seq<RecordModel>,
)
    requires
        run_wf(run, batch),
        run.phase is Ready,
        run.pos < batch.len(),
        m.cache.contains_key(native_token_bytes()),
        m.cache[native_token_bytes()] == NATIVE_DECIMALS,
        batch[run.pos].token == native_token_bytes(),
    ensures
        ({
            let (m2, run2, cmd) = step_model(m, run, batch, EventModel::Proceed);
            &&& m2 == m
            &&& cmd == CommandModel::Emit(sample_model(m.component, batch[run.pos], NATIVE_DECIMALS))
            &&& run2 == (RunModel { pos: run.pos, phase: Phase::AwaitingEmit })
        }),
{
    lemma_cached_token_resolves(m, run, batch, NATIVE_DECIMALS);
}

/// A withdrawal whose token the store does not know is skipped and only the
/// position moves: the meter is unchanged, the run is ready at the next
/// item, so the remaining withdrawals of the batch are still processed.
pub proof fn lemma_unknown_token_skipped(m: MeterModel, run: RunModel, batch: Seq<RecordModel>)
    requires
        run_wf(run, batch),
        run.phase is AwaitingFetch,
    ensures
        ({
            let (m2, run2, cmd) = step_model(m, run, batch, EventModel::Fetched(None));
            &&& cmd == CommandModel::Skipped(Anomaly::UnknownToken)
            &&& m2 == m
            &&& run2 == (RunModel { pos: run.pos + 1, phase: Phase::Ready })
            &&& run_wf(run2, batch)
        }),
{
}

/// A withdrawal whose sample the sink cannot represent is skipped and only
/// the position moves: the meter is unchanged, the run is ready at the next
/// item, so the remaining withdrawals of the batch are still processed.
pub proof fn lemma_format_failure_skipped(m: MeterModel, run: RunModel, batch: Seq<RecordModel>)
    requires
        run_wf(run, batch),
        run.phase is AwaitingEmit,
    ensures
        ({
            let (m2, run2, cmd) = step_model(m, run, batch, EventModel::EmitFailed);
            &&& cmd == CommandModel::Skipped(Anomaly::FormatError)
            &&& m2 == m
            &&& run2 == (RunModel { pos: run.pos + 1, phase: Phase::Ready })
            &&& run_wf(run2, batch)
        }),
{
}

/// A withdrawal whose token resolves to an exponent beyond the scalable
/// range is likewise skipped, with the resolved value still recorded.
pub proof fn lemma_unscalable_exponent_skipped(
    m: MeterModel,
    run: RunModel,
    batch: Seq<RecordModel>,
    d: u32,
)
    requires
        run_wf(run, batch),
        run.phase is AwaitingFetch,
        d > MAX_SCALE_DECIMALS,
        !m.cache.contains_key(batch[run.pos].token),
    ensures
        ({
            let (m2, run2, cmd) = step_model(m, run, batch, EventModel::Fetched(Some(d)));
            &&& cmd == CommandModel::Skipped(Anomaly::FormatError)
            &&& m2.cache == m.cache.insert(batch[run.pos].token, d)
            &&& run2 == (RunModel { pos: run.pos + 1, phase: Phase::Ready })
            &&& run_wf(run2, batch)
        }),
{
}

/// A store infrastructure failure during decimals resolution aborts the rest
/// of the batch: the step reports the batch finished with exactly that
/// error, the run is done and no event fits it any more (no further item is
/// looked at), and the meter is left as it was. Samples emitted for earlier
/// items were handed to the sink when they were commanded; nothing here
/// retracts them.
pub proof fn lemma_store_failure_aborts(
    m: MeterModel,
    run: RunModel,
    batch: Seq<RecordModel>,
    e: Seq<char>,
)
    requires
        run_wf(run, batch),
        run.phase is AwaitingFetch,
    ensures
        ({
            let (m2, run2, cmd) = step_model(m, run, batch, EventModel::StoreFailed(e));
            &&& cmd == CommandModel::Finished(Err(e))
            &&& m2 == m
            &&& run2 == (RunModel { pos: run.pos, phase: Phase::Done })
            &&& forall|ev2: EventModel| !event_fits(run2.phase, ev2)
        }),
{
}

/// A step leaves the run well formed against the same batch.
pub proof fn lemma_run_wf_preserved(
    m: MeterModel,
    run: RunModel,
    batch: Seq<RecordModel>,
    ev: EventModel,
)
    requires
        run_wf(run, batch),
        event_fits(run.phase, ev),
    ensures
        run_wf(step_model(m, run, batch, ev).1, batch),
{
}

/// The commands issued along one run: element `k` is what the step consuming
/// `evs[k]` commanded.
pub open spec fn trace_commands(
    m: MeterModel,
    run: RunModel,
    batch: Seq<RecordModel>,
    evs: Seq<EventModel>,
) -> Seq<CommandModel>
    decreases evs.len(),
{
    if evs.len() == 0 {
        Seq::empty()
    } else {
        let (m2, run2, c) = step_model(m, run, batch, evs[0]);
        seq![c] + trace_commands(m2, run2, batch, evs.drop_first())
    }
}

/// One command is issued for each event consumed.
pub proof fn lemma_trace_commands_len(
    m: MeterModel,
    run: RunModel,
    batch: Seq<RecordModel>,
    evs: Seq<EventModel>,
)
    ensures
        trace_commands(m, run, batch, evs).len() == evs.len(),
    decreases evs.len(),
{
    if evs.len() > 0 {
        let (m2, run2, c) = step_model(m, run, batch, evs[0]);
        lemma_trace_commands_len(m2, run2, batch, evs.drop_first());
    }
}

/// Each event of the sequence answers what the run was waiting for when it
/// was consumed.
pub open spec fn trace_fits(
    m: MeterModel,
    run: RunModel,
    batch: Seq<RecordModel>,
    evs: Seq<EventModel>,
) -> bool
    decreases evs.len(),
{
    evs.len() == 0 || {
        &&& event_fits(run.phase, evs[0])
        &&& {
            let (m2, run2, c) = step_model(m, run, batch, evs[0]);
            trace_fits(m2, run2, batch, evs.drop_first())
        }
    }
}

/// A token registered at the start of a run is never fetched during it.
pub proof fn lemma_registered_never_fetched_in_trace(
    m: MeterModel,
    run: RunModel,
    batch: Seq<RecordModel>,
    evs: Seq<EventModel>,
    t: Seq<u8>,
)
    requires
        run_wf(run, batch),
        trace_fits(m, run, batch, evs),
        m.cache.contains_key(t),
    ensures
        forall|k: int|
            0 <= k < evs.len() ==> trace_commands(m, run, batch, evs)[k] != CommandModel::Fetch(t),
    decreases evs.len(),
{
    if evs.len() > 0 {
        let (m2, run2, c) = step_model(m, run, batch, evs[0]);
        lemma_no_refetch(m, run, batch, evs[0], t);
        lemma_run_wf_preserved(m, run, batch, evs[0]);
        lemma_registered_never_fetched_in_trace(m2, run2, batch, evs.drop_first(), t);
        lemma_trace_commands_len(m2, run2, batch, evs.drop_first());
        let cmds = trace_commands(m, run, batch, evs);
        assert(cmds == seq![c] + trace_commands(m2, run2, batch, evs.drop_first()));
        assert forall|k: int| 0 <= k < evs.len() implies cmds[k] != CommandModel::Fetch(t) by {
            if k > 0 {
                assert(cmds[k] == trace_commands(m2, run2, batch, evs.drop_first())[k - 1]);
            }
        }
    }
}

/// Across one batch run a token is fetched at most once with success: once a
/// commanded fetch for `t` is answered with a registered value, no later step
/// of the run commands a fetch for `t` again. (An unanswered token — the
/// store knows no decimals for it — may be asked about again; that re-attempt
/// is deliberate.)
pub proof fn lemma_no_second_fetch(
    m: MeterModel,
    run: RunModel,
    batch: Seq<RecordModel>,
    evs: Seq<EventModel>,
    t: Seq<u8>,
    d: u32,
    i: int,
)
    requires
        run_wf(run, batch),
        trace_fits(m, run, batch, evs),
        0 <= i,
        i + 1 < evs.len(),
        trace_commands(m, run, batch, evs)[i] == CommandModel::Fetch(t),
        evs[i + 1] == EventModel::Fetched(Some(d)),
    ensures
        forall|k: int|
            i < k < evs.len() ==> trace_commands(m, run, batch, evs)[k] != CommandModel::Fetch(t),
    decreases i,
{
    let (m2, run2, c) = step_model(m, run, batch, evs[0]);
    let cmds = trace_commands(m, run, batch, evs);
    let cmds2 = trace_commands(m2, run2, batch, evs.drop_first());
    lemma_trace_commands_len(m, run, batch, evs);
    lemma_trace_commands_len(m2, run2, batch, evs.drop_first());
    assert(cmds == seq![c] + cmds2);
    lemma_run_wf_preserved(m, run, batch, evs[0]);
    if i == 0 {
        // the step consuming evs[0] commanded the fetch: the run now awaits
        // it, for the current item's token t
        lemma_fetch_only_on_miss(m, run, batch, evs[0]);
        assert(run2.phase is AwaitingFetch);
        assert(t == batch[run.pos].token);
        assert(run2.pos == run.pos);
        // the step consuming evs[1] == Fetched(Some(d)) registers t
        let (m3, run3, c3) = step_model(m2, run2, batch, evs.drop_first()[0]);
        assert(evs.drop_first()[0] == evs[1]);
        assert(trace_fits(m2, run2, batch, evs.drop_first()));
        assert(event_fits(run2.phase, evs[1]));
        assert(trace_fits(m3, run3, batch, evs.drop_first().drop_first()));
        lemma_fetched_token_registered(m2, run2, batch, d);
        assert(m3.cache.contains_key(t));
        lemma_run_wf_preserved(m2, run2, batch, evs[1]);
        // and itself commands an emission or a skip, never a fetch
        assert(!(c3 is Fetch));
        // from then on t stays registered and is never fetched
        lemma_registered_never_fetched_in_trace(
            m3,
            run3,
            batch,
            evs.drop_first().drop_first(),
            t,
        );
        let cmds3 = trace_commands(m3, run3, batch, evs.drop_first().drop_first());
        lemma_trace_commands_len(m3, run3, batch, evs.drop_first().drop_first());
        assert(cmds2 == seq![c3] + cmds3);
        assert forall|k: int| 0 < k < evs.len() implies cmds[k] != CommandModel::Fetch(t) by {
            assert(cmds[k] == cmds2[k - 1]);
            if k > 1 {
                assert(cmds2[k - 1] == cmds3[k - 2]);
            }
        }
    } else {
        assert(cmds[i] == cmds2[i - 1]);
        assert(evs.drop_first()[i - 1 + 1] == evs[i + 1]);
        lemma_no_second_fetch(m2, run2, batch, evs.drop_first(), t, d, i - 1);
        assert forall|k: int| i < k < evs.len() implies cmds[k] != CommandModel::Fetch(t) by {
            assert(cmds[k] == cmds2[k - 1]);
        }
    }
}

/// A batch is reported cleanly finished exactly when every item has been
/// dealt with: at the end of the batch, with no action pending.
pub proof fn lemma_clean_finish(m: MeterModel, run: RunModel, batch: Seq<RecordModel>)
    requires
        run_wf(run, batch),
        run.phase is Ready,
        run.pos == batch.len(),
    ensures
        ({
            let (m2, run2, cmd) = step_model(m, run, batch, EventModel::Proceed);
            &&& cmd == CommandModel::Finished(Ok(()))
            &&& m2 == m
            &&& run2 == (RunModel { pos: run.pos, phase: Phase::Done })
        }),
{
}

} // verus!
