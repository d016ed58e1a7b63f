use crate::config::Config;
use crate::config::ConfigError;
use vstd::prelude::*;

verus! {

/// Generator provides an instance that can generate unique ids for a given
/// node id. It is a single-owner state machine: calls mutate `last_ts` and
/// `last_seq_id`, so concurrent callers must serialise access themselves.
pub struct Generator {
    pub config: Config,
    pub node_id: u64,
    pub last_ts: u64,
    pub last_seq_id: u64,
}

/// The sequence value at which a same-millisecond call triggers the forced
/// one-millisecond wait and a reset of the counter. This is half the nominal
/// capacity of the sequence field, `1 << (node_id_shift - 1)`, a deliberate
/// choice kept for compatibility with deployments that already issue ids this
/// way: the top half of the sequence space is left unused, halving the
/// per-node throughput before the wait sets in.
pub open spec fn sequence_threshold(c: Config) -> u64 {
    1u64 << ((c.spec_node_id_shift() - 1) as u64)
}

impl Generator {
    /// The generator's invariant: its config is valid, its node id fits the
    /// node field, and its sequence counter sits below the reset threshold.
    /// Construction establishes this and every call preserves it.
    pub open spec fn wf(&self) -> bool {
        &&& self.config.wf()
        &&& self.node_id < (1u64 << self.config.node_id_bit_count)
        &&& self.last_seq_id < sequence_threshold(self.config)
    }

    /// Returns a generator with the given config for a given node id, exactly
    /// when the node id fits in `node_id_bit_count` bits; returns
    /// [`ConfigError::NodeIdOutOfRange`] otherwise. The same config should be
    /// used across all nodes of a cluster.
    pub fn from(config: Config, node_id: u64) -> (r: Result<Generator, ConfigError>)
        requires
            config.wf(),
        ensures
            match r {
                Ok(g) => {
                    &&& node_id < (1u64 << config.node_id_bit_count)
                    &&& g.config == config
                    &&& g.node_id == node_id
                    &&& g.last_ts == 0
                    &&& g.last_seq_id == 0
                    &&& g.wf()
                },
                Err(e) => {
                    &&& node_id >= (1u64 << config.node_id_bit_count)
                    &&& e == ConfigError::NodeIdOutOfRange
                },
            },
    {
        proof {
            lemma_threshold_bounds(config);
            lemma_shl_u64_bounds(config.node_id_bit_count);
        }
        let max_node_id: u64 = (1u64 << config.node_id_bit_count()) - 1;
        if node_id > max_node_id {
            Err(ConfigError::NodeIdOutOfRange)
        } else {
            Ok(Generator { config, node_id, last_ts: 0, last_seq_id: 0 })
        }
    }

    /// Returns the next unique id for the clock value `curr_ts`, in a sequence
    /// maintained per millisecond window: a fresh millisecond records `curr_ts`
    /// and restarts the sequence; the same (or an earlier) millisecond advances
    /// the sequence, and on reaching [`sequence_threshold`] records `curr_ts`
    /// and resets the sequence to zero. The caller owns the clock: it passes
    /// the current milliseconds since its epoch, and when [`Self::would_block`]
    /// holds it should wait one millisecond before this call, as backpressure
    /// against exhausting the sequence window.
    pub fn next_id(&mut self, curr_ts: u64) -> (id: u64)
        requires
            old(self).wf(),
        ensures
            *final(self) == spec_stepped(*old(self), curr_ts),
            id == spec_id(*old(self), curr_ts),
            final(self).wf(),
    {
        proof {
            lemma_threshold_bounds(self.config);
        }
        if curr_ts <= self.last_ts {
            self.last_seq_id = self.last_seq_id + 1;
            if self.last_seq_id == (1u64 << (self.config.node_id_shift() - 1)) {
                self.last_ts = curr_ts;
                self.last_seq_id = 0;
            }
        } else {
            self.last_ts = curr_ts;
            self.last_seq_id = 0;
        }
        (curr_ts << self.config.timestamp_shift()) | (self.node_id << self.config.node_id_shift())
            | self.last_seq_id
    }

    /// True exactly when the next call to [`Self::next_id`] with this clock
    /// value resets the sequence counter; a caller that wants the documented
    /// backpressure waits one millisecond before making that call.
    pub fn would_block(&self, curr_ts: u64) -> (b: bool)
        requires
            self.wf(),
        ensures
            b == spec_would_block(*self, curr_ts),
    {
        proof {
            lemma_threshold_bounds(self.config);
        }
        curr_ts <= self.last_ts && self.last_seq_id + 1 == (1u64 << (self.config.node_id_shift()
            - 1))
    }
}

/// True exactly when a call with clock value `curr` falls in the same (or an
/// earlier) millisecond as the last one and the incremented sequence counter
/// reaches [`sequence_threshold`]. On that call the generator resets its
/// counter, and a caller should first wait one millisecond as backpressure.
pub open spec fn spec_would_block(g: Generator, curr: u64) -> bool {
    curr <= g.last_ts && g.last_seq_id + 1 == sequence_threshold(g.config)
}

/// The sequence counter after a call with clock value `curr`: within the same
/// millisecond it advances by one, except that reaching the threshold resets
/// it to zero; a fresh millisecond also starts it at zero.
pub open spec fn spec_next_seq(g: Generator, curr: u64) -> u64 {
    if curr <= g.last_ts {
        if g.last_seq_id + 1 == sequence_threshold(g.config) {
            0u64
        } else {
            (g.last_seq_id + 1) as u64
        }
    } else {
        0u64
    }
}

/// The recorded millisecond after a call with clock value `curr`: unchanged
/// within the same millisecond, and set to `curr` on a fresh millisecond or
/// on a threshold reset.
pub open spec fn spec_next_ts(g: Generator, curr: u64) -> u64 {
    if curr <= g.last_ts && g.last_seq_id + 1 != sequence_threshold(g.config) {
        g.last_ts
    } else {
        curr
    }
}

/// The whole generator state after a call with clock value `curr`.
pub open spec fn spec_stepped(g: Generator, curr: u64) -> Generator {
    Generator { last_ts: spec_next_ts(g, curr), last_seq_id: spec_next_seq(g, curr), ..g }
}

/// An id as the bit fields compose it: the timestamp in the top bits, the
/// node id in the middle, the sequence counter in the low bits. A timestamp
/// wider than the timestamp field is silently truncated by the shift, exactly
/// as the executable composition truncates it.
pub open spec fn spec_pack(c: Config, ts: u64, node: u64, seq: u64) -> u64 {
    (ts << c.spec_timestamp_shift()) | (node << c.spec_node_id_shift()) | seq
}

/// The id returned by a call with clock value `curr`: the clock value itself
/// in the timestamp field, the node id, and the freshly advanced (or reset)
/// sequence counter.
pub open spec fn spec_id(g: Generator, curr: u64) -> u64 {
    spec_pack(g.config, curr, g.node_id, spec_next_seq(g, curr))
}

/// The ids issued along a trace of clock readings, one per call, starting
/// from the state `g`.
pub open spec fn spec_ids(g: Generator, clocks: Seq<u64>) -> Seq<u64>
    decreases clocks.len(),
{
    if clocks.len() == 0 {
        Seq::empty()
    } else {
        seq![spec_id(g, clocks[0])] + spec_ids(spec_stepped(g, clocks[0]), clocks.drop_first())
    }
}

/// A trace of clock readings whose calls all behave well from state `g`,
/// given that the reading before the trace was `prev_clock`: every reading
/// fits the timestamp field, the clock never runs backwards, and whenever a
/// call resets the sequence counter the clock has advanced since the call
/// before it (the one-millisecond backpressure wait took effect).
pub open spec fn admissible_from(g: Generator, prev_clock: u64, clocks: Seq<u64>) -> bool
    decreases clocks.len(),
{
    clocks.len() == 0 || {
        &&& clocks[0] < (1u64 << g.config.timestamp_bit_count)
        &&& prev_clock <= clocks[0]
        &&& (spec_would_block(g, clocks[0]) ==> prev_clock < clocks[0])
        &&& admissible_from(spec_stepped(g, clocks[0]), clocks[0], clocks.drop_first())
    }
}

/// A trace of clock readings whose calls all behave well from state `g`. The
/// first call carries no condition beyond its reading fitting the timestamp
/// field; each later one is constrained as [`admissible_from`] says.
pub open spec fn admissible_clocks(g: Generator, clocks: Seq<u64>) -> bool {
    clocks.len() == 0 || {
        &&& clocks[0] < (1u64 << g.config.timestamp_bit_count)
        &&& admissible_from(spec_stepped(g, clocks[0]), clocks[0], clocks.drop_first())
    }
}

/// `1 << e` on a `u64`, for any shift within the word, is at least 1 and at
/// most `1 << 63`.
pub proof fn lemma_shl_u64_bounds(e: u64)
    requires
        e <= 63,
    ensures
        1 <= (1u64 << e) <= 0x8000_0000_0000_0000u64,
{
    assert(e <= 63 ==> 1u64 <= (1u64 << e) <= 0x8000_0000_0000_0000u64) by (bit_vector);
}

/// Bounds on the reset threshold of a valid config: it lies between 8 (from
/// the four-bit sequence floor) and `1 << 62`, and below the nominal capacity
/// `1 << node_id_shift` of the sequence field.
pub proof fn lemma_threshold_bounds(c: Config)
    requires
        c.wf(),
    ensures
        8 <= sequence_threshold(c) <= 0x4000_0000_0000_0000u64,
        sequence_threshold(c) < (1u64 << c.spec_node_id_shift()),
{
    let nsft: u64 = c.spec_node_id_shift();
    let em1: u64 = (nsft - 1) as u64;
    assert(4 <= nsft <= 63);
    assert(em1 == nsft - 1);
    assert(3 <= em1 && em1 + 1 == nsft && nsft <= 63 ==> 8u64 <= (1u64 << em1)
        <= 0x4000_0000_0000_0000u64 && (1u64 << em1) < (1u64 << nsft)) by (bit_vector);
}

/// A step preserves the generator's invariant, leaves its config and node id
/// untouched, and never records a millisecond older than the clock value it
/// was given.
pub proof fn lemma_stepped_wf(g: Generator, curr: u64)
    requires
        g.wf(),
    ensures
        spec_stepped(g, curr).wf(),
        spec_stepped(g, curr).config == g.config,
        spec_stepped(g, curr).node_id == g.node_id,
        spec_stepped(g, curr).last_seq_id == spec_next_seq(g, curr),
        curr <= spec_stepped(g, curr).last_ts,
{
    lemma_threshold_bounds(g.config);
}

/// Burst behaviour within one millisecond window: as long as the threshold is
/// not reached, each call advances the sequence counter by exactly one; the
/// call that reaches it resets the counter to zero and records the clock value
/// it was given.
pub proof fn lemma_same_millisecond_burst(g: Generator, curr: u64)
    requires
        g.wf(),
        curr <= g.last_ts,
    ensures
        !spec_would_block(g, curr) ==> spec_next_seq(g, curr) == g.last_seq_id + 1,
        spec_would_block(g, curr) ==> spec_next_seq(g, curr) == 0 && spec_stepped(
            g,
            curr,
        ).last_ts == curr,
{
}

/// Field recovery: an id composed of in-range fields gives each field back.
/// Shifting right by the timestamp shift yields the timestamp; the node id and
/// the sequence counter come back under their masks.
pub proof fn lemma_pack_fields(c: Config, ts: u64, node: u64, seq: u64)
    requires
        c.wf(),
        ts < (1u64 << c.timestamp_bit_count),
        node < (1u64 << c.node_id_bit_count),
        seq < (1u64 << c.spec_node_id_shift()),
    ensures
        spec_pack(c, ts, node, seq) >> c.spec_timestamp_shift() == ts,
        (spec_pack(c, ts, node, seq) >> c.spec_node_id_shift()) & (((1u64
            << c.node_id_bit_count) - 1) as u64) == node,
        spec_pack(c, ts, node, seq) & (((1u64 << c.spec_node_id_shift()) - 1) as u64) == seq,
{
    let tb: u64 = c.timestamp_bit_count;
    let nb: u64 = c.node_id_bit_count;
    let tsft: u64 = c.spec_timestamp_shift();
    let nsft: u64 = c.spec_node_id_shift();
    assert(tsft == 63 - tb && nsft == 63 - tb - nb);
    assert((((ts << tsft) | (node << nsft) | seq) >> tsft == ts) && ((((ts << tsft) | (node
        << nsft) | seq) >> nsft) & (((1u64 << nb) - 1) as u64) == node) && (((ts << tsft) | (node << nsft)
        | seq) & (((1u64 << nsft) - 1) as u64) == seq)) by (bit_vector)
        requires
            tb + nb <= 59,
            tsft == 63 - tb,
            nsft == 63 - tb - nb,
            ts < (1u64 << tb),
            node < (1u64 << nb),
            seq < (1u64 << nsft),
    ;
}

/// Ids of one node order as their fields do: a later millisecond, or the same
/// millisecond with a larger sequence counter, composes to a strictly larger
/// id.
pub proof fn lemma_pack_increases(c: Config, ts1: u64, seq1: u64, ts2: u64, seq2: u64, node: u64)
    requires
        c.wf(),
        ts1 < (1u64 << c.timestamp_bit_count),
        ts2 < (1u64 << c.timestamp_bit_count),
        node < (1u64 << c.node_id_bit_count),
        seq1 < (1u64 << c.spec_node_id_shift()),
        seq2 < (1u64 << c.spec_node_id_shift()),
        ts1 < ts2 || (ts1 == ts2 && seq1 < seq2),
    ensures
        spec_pack(c, ts1, node, seq1) < spec_pack(c, ts2, node, seq2),
{
    let tb: u64 = c.timestamp_bit_count;
    let nb: u64 = c.node_id_bit_count;
    let tsft: u64 = c.spec_timestamp_shift();
    let nsft: u64 = c.spec_node_id_shift();
    assert(tsft == 63 - tb && nsft == 63 - tb - nb);
    assert(((ts1 << tsft) | (node << nsft) | seq1) < ((ts2 << tsft) | (node << nsft)
        | seq2)) by (bit_vector)
        requires
            tb + nb <= 59,
            tsft == 63 - tb,
            nsft == 63 - tb - nb,
            ts1 < (1u64 << tb),
            ts2 < (1u64 << tb),
            node < (1u64 << nb),
            seq1 < (1u64 << nsft),
            seq2 < (1u64 << nsft),
            ts1 < ts2 || (ts1 == ts2 && seq1 < seq2),
    ;
}

/// Field recovery for a generated id: with a clock value that fits the
/// timestamp field, the id returned by a call gives back that clock value,
/// the generator's node id, and the sequence counter the call recorded.
pub proof fn lemma_id_recovers_fields(g: Generator, curr: u64)
    requires
        g.wf(),
        curr < (1u64 << g.config.timestamp_bit_count),
    ensures
        spec_id(g, curr) >> g.config.spec_timestamp_shift() == curr,
        (spec_id(g, curr) >> g.config.spec_node_id_shift()) & (((1u64
            << g.config.node_id_bit_count) - 1) as u64) == g.node_id,
        spec_id(g, curr) & (((1u64 << g.config.spec_node_id_shift()) - 1) as u64) == spec_next_seq(g, curr),
{
    lemma_threshold_bounds(g.config);
    lemma_pack_fields(g.config, curr, g.node_id, spec_next_seq(g, curr));
}

/// The induction behind the monotonicity law: if the id issued just before an
/// admissible trace carried the clock value `prev_clock` and the sequence
/// counter now recorded in `g`, then every id of the trace exceeds it, and the
/// ids of the trace strictly increase among themselves.
proof fn lemma_ids_increasing_from(g: Generator, prev_clock: u64, clocks: Seq<u64>)
    requires
        g.wf(),
        prev_clock <= g.last_ts,
        prev_clock < (1u64 << g.config.timestamp_bit_count),
        admissible_from(g, prev_clock, clocks),
    ensures
        spec_ids(g, clocks).len() == clocks.len(),
        forall|j: int|
            0 <= j < clocks.len() ==> spec_pack(g.config, prev_clock, g.node_id, g.last_seq_id)
                < spec_ids(g, clocks)[j],
        forall|i: int, j: int|
            0 <= i < j < clocks.len() ==> spec_ids(g, clocks)[i] < spec_ids(g, clocks)[j],
    decreases clocks.len(),
{
    if clocks.len() > 0 {
        let c0 = clocks[0];
        let g1 = spec_stepped(g, c0);
        let s0 = spec_next_seq(g, c0);
        let prev_id = spec_pack(g.config, prev_clock, g.node_id, g.last_seq_id);
        let id0 = spec_id(g, c0);
        lemma_threshold_bounds(g.config);
        lemma_stepped_wf(g, c0);
        if prev_clock == c0 {
            // the reset case is excluded here by admissibility, so the
            // sequence counter advances within the same millisecond
            assert(!spec_would_block(g, c0));
            assert(s0 == g.last_seq_id + 1);
        }
        lemma_pack_increases(g.config, prev_clock, g.last_seq_id, c0, s0, g.node_id);
        assert(prev_id < id0);
        lemma_ids_increasing_from(g1, c0, clocks.drop_first());
        let ids = spec_ids(g, clocks);
        let rest = spec_ids(g1, clocks.drop_first());
        assert(ids == seq![id0] + rest);
        assert(id0 == spec_pack(g1.config, c0, g1.node_id, g1.last_seq_id));
        assert forall|j: int| 0 <= j < clocks.len() implies prev_id < ids[j] by {
            if j == 0 {
                assert(ids[0] == id0);
            } else {
                assert(ids[j] == rest[j - 1]);
                assert(id0 < rest[j - 1]);
            }
        }
        assert forall|i: int, j: int| 0 <= i < j < clocks.len() implies ids[i] < ids[j] by {
            if i == 0 {
                assert(ids[0] == id0);
                assert(ids[j] == rest[j - 1]);
                assert(id0 < rest[j - 1]);
            } else {
                assert(ids[i] == rest[i - 1]);
                assert(ids[j] == rest[j - 1]);
                assert(rest[i - 1] < rest[j - 1]);
            }
        }
    }
}

/// Monotonicity: along any admissible trace of clock readings, the ids one
/// generator returns strictly increase in call order.
pub proof fn lemma_ids_strictly_increasing(g: Generator, clocks: Seq<u64>)
    requires
        g.wf(),
        admissible_clocks(g, clocks),
    ensures
        spec_ids(g, clocks).len() == clocks.len(),
        forall|i: int, j: int|
            0 <= i < j < clocks.len() ==> spec_ids(g, clocks)[i] < spec_ids(g, clocks)[j],
{
    if clocks.len() > 0 {
        let c0 = clocks[0];
        let g1 = spec_stepped(g, c0);
        let id0 = spec_id(g, c0);
        lemma_stepped_wf(g, c0);
        lemma_ids_increasing_from(g1, c0, clocks.drop_first());
        let ids = spec_ids(g, clocks);
        let rest = spec_ids(g1, clocks.drop_first());
        assert(ids == seq![id0] + rest);
        assert(id0 == spec_pack(g1.config, c0, g1.node_id, g1.last_seq_id));
        assert forall|i: int, j: int| 0 <= i < j < clocks.len() implies ids[i] < ids[j] by {
            if i == 0 {
                assert(ids[0] == id0);
                assert(ids[j] == rest[j - 1]);
                assert(id0 < rest[j - 1]);
            } else {
                assert(ids[i] == rest[i - 1]);
                assert(ids[j] == rest[j - 1]);
                assert(rest[i - 1] < rest[j - 1]);
            }
        }
    }
}

/// Uniqueness: along any admissible trace of clock readings, no two calls on
/// one generator return the same id.
pub proof fn lemma_ids_unique(g: Generator, clocks: Seq<u64>)
    requires
        g.wf(),
        admissible_clocks(g, clocks),
    ensures
        spec_ids(g, clocks).len() == clocks.len(),
        forall|i: int, j: int|
            0 <= i < clocks.len() && 0 <= j < clocks.len() && i != j ==> spec_ids(g, clocks)[i]
                != spec_ids(g, clocks)[j],
{
    lemma_ids_strictly_increasing(g, clocks);
    assert forall|i: int, j: int|
        0 <= i < clocks.len() && 0 <= j < clocks.len() && i != j implies spec_ids(g, clocks)[i]
        != spec_ids(g, clocks)[j] by {
        if i < j {
            assert(spec_ids(g, clocks)[i] < spec_ids(g, clocks)[j]);
        } else {
            assert(spec_ids(g, clocks)[j] < spec_ids(g, clocks)[i]);
        }
    }
}

} // verus!
