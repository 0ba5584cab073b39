use crate::codec::{be64, push_be64};
use crate::command::request::RequestView;
use crate::command::{reply, write_value_reply, Answer, Dispatch, DispatchError, DispatchResult, Request};
use crate::hop::{Hop, HopView};
use crate::metrics::{Metric, Metrics};
use crate::state::dash::{byte_map_contents, byte_map_insert, byte_map_new};
use crate::state::value::{copy_bytes, Value, ValueView};
use dashmap::DashMap;
use vstd::prelude::*;
use vstd::utf8::encode_utf8;

verus! {

/// Answers the engine's counters as a map from their names to their
/// values.
pub struct Stats;

/// The key under which a counter is reported: its name's bytes.
pub open spec fn metric_key(metric: Metric) -> Seq<u8> {
    encode_utf8(metric.spec_name()@)
}

/// `m` with the counter's entry added, if the counter has a value that
/// fits in an `i64`: the value as eight big-endian bytes.
pub open spec fn with_counter(metrics: Metrics, metric: Metric, m: Map<Seq<u8>, Seq<u8>>) -> Map<
    Seq<u8>,
    Seq<u8>,
> {
    match metrics.count(metric) {
        Some(c) => if c <= i64::MAX {
            m.insert(metric_key(metric), be64(c))
        } else {
            m
        },
        None => m,
    }
}

/// The reported counters: commands errored, commands successful and
/// sessions started.
pub open spec fn stats_map(metrics: Metrics) -> Map<Seq<u8>, Seq<u8>> {
    with_counter(
        metrics,
        Metric::SessionsStarted,
        with_counter(
            metrics,
            Metric::CommandsSuccessful,
            with_counter(metrics, Metric::CommandsErrored, Map::empty()),
        ),
    )
}

impl Stats {
    fn add_counter(map: &mut DashMap<Vec<u8>, Vec<u8>>, metrics: &Metrics, metric: Metric)
        ensures
            byte_map_contents(*final(map)) == with_counter(
                *metrics,
                metric,
                byte_map_contents(*old(map)),
            ),
    {
        match metrics.counter(metric) {
            Some(count) => {
                if count <= 9223372036854775807u64 {
                    let key = copy_bytes(metric.name().as_bytes());
                    let mut value: Vec<u8> = Vec::new();
                    push_be64(&mut value, count);
                    assert(value@ =~= be64(count));
                    byte_map_insert(map, key, value);
                }
            },
            None => {},
        }
    }
}

impl Dispatch for Stats {
    open spec fn panics(hop: HopView, req: RequestView) -> bool {
        false
    }

    open spec fn answer(hop: HopView, req: RequestView) -> (Answer, Map<Seq<u8>, ValueView>) {
        if req.key_type is Some {
            (Err(DispatchError::KeyTypeUnexpected), hop.state)
        } else {
            (reply(ValueView::ByteMap(stats_map(hop.metrics))), hop.state)
        }
    }

    fn dispatch(hop: &mut Hop, req: &Request, resp: &mut Vec<u8>) -> (r: DispatchResult<()>) {
        if req.key_type().is_some() {
            return Err(DispatchError::KeyTypeUnexpected);
        }
        let mut map = byte_map_new();
        let metrics = hop.metrics();
        Self::add_counter(&mut map, metrics, Metric::CommandsErrored);
        Self::add_counter(&mut map, metrics, Metric::CommandsSuccessful);
        Self::add_counter(&mut map, metrics, Metric::SessionsStarted);
        let value = Value::ByteMap(map);
        write_value_reply(resp, &value);
        Ok(())
    }
}

} // verus!
