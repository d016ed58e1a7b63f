use vstd::prelude::*;

verus! {

/// Number of usable bits in a generated id: the top bit of the 64-bit word is
/// reserved (left zero) so that ids stay non-negative when read as signed.
pub const UID_BIT_COUNT: u64 = 63;

/// Milliseconds in a (non-leap) year, used to report the timestamp headroom.
pub const MILLISECONDS_IN_YEAR: u64 = 1_000 * 86_400 * 365;

/// Default width of the timestamp field.
pub const DEFAULT_TIMESTAMP_BIT_COUNT: u64 = 42;

/// Default width of the node-id field.
pub const DEFAULT_NODE_ID_BIT_COUNT: u64 = 11;

/// Floor on the width of the sequence field, guaranteeing at least sixteen
/// ids per millisecond per node whatever the configured widths.
pub const MIN_SEQUENCE_ID_BIT_COUNT: u64 = 4;

/// The two configuration errors; both are detected at construction time and
/// neither can arise once a value has been built.
#[derive(Clone, Copy, Debug, PartialEq, Eq, Structural)]
pub enum ConfigError {
    /// `timestamp_bit_count + node_id_bit_count + MIN_SEQUENCE_ID_BIT_COUNT`
    /// exceeds [`UID_BIT_COUNT`].
    FieldsTooWide,
    /// The node id does not fit in `node_id_bit_count` bits.
    NodeIdOutOfRange,
}

/// Config controls the UID generation, mainly controlling the number of nodes
/// and number of unique ids per millisecond that a node can generate. This is
/// a tradeoff between how fast you need to generate unique ids and across how
/// many servers.
///
/// A `Config` is immutable once built and may be freely copied; every
/// generator of one cluster must be built from the same `Config`.
#[derive(Clone, Copy, Debug, PartialEq, Eq, Structural)]
pub struct Config {
    pub timestamp_bit_count: u64,
    pub node_id_bit_count: u64,
}

/// The numeric facts behind a configuration, for reporting: how many nodes it
/// addresses, how many ids one node (and the whole cluster) can issue per
/// millisecond, and for how many years the timestamp field lasts.
#[derive(Clone, Copy, Debug, PartialEq, Eq, Structural)]
pub struct Summary {
    pub max_nodes: u64,
    pub max_load_per_node: u64,
    pub max_load_total: u64,
    pub max_lifetime_years: u64,
}

impl Config {
    /// The configured widths fit in the usable bit budget, leaving at least
    /// [`MIN_SEQUENCE_ID_BIT_COUNT`] bits for the sequence field. Every
    /// constructed `Config` satisfies this; it is never violated later.
    pub open spec fn wf(&self) -> bool {
        self.timestamp_bit_count + self.node_id_bit_count + MIN_SEQUENCE_ID_BIT_COUNT
            <= UID_BIT_COUNT
    }

    /// How far the timestamp is shifted left inside an id.
    pub open spec fn spec_timestamp_shift(&self) -> u64 {
        (UID_BIT_COUNT - self.timestamp_bit_count) as u64
    }

    /// How far the node id is shifted left inside an id; this is also the
    /// width of the sequence field.
    pub open spec fn spec_node_id_shift(&self) -> u64 {
        (UID_BIT_COUNT - self.timestamp_bit_count - self.node_id_bit_count) as u64
    }

    /// Config::default generates a config with default values of 42 bits for
    /// timestamp and 11 bits for nodes, giving a millisecond window with 2048
    /// nodes at a time. This can be customised using the `from` method.
    pub fn default() -> (c: Config)
        ensures
            c.timestamp_bit_count == DEFAULT_TIMESTAMP_BIT_COUNT,
            c.node_id_bit_count == DEFAULT_NODE_ID_BIT_COUNT,
            c.wf(),
    {
        match Config::from(DEFAULT_TIMESTAMP_BIT_COUNT, DEFAULT_NODE_ID_BIT_COUNT) {
            Ok(c) => c,
            Err(_) => {
                // 42 + 11 + 4 <= 63: the default widths always fit, so this
                // arm is provably unreachable
                proof {
                    assert(false);
                }
                Config {
                    timestamp_bit_count: DEFAULT_TIMESTAMP_BIT_COUNT,
                    node_id_bit_count: DEFAULT_NODE_ID_BIT_COUNT,
                }
            },
        }
    }

    /// Config::from generates a config to be used by a generator to generate
    /// ids. It returns the config exactly when the two widths plus the
    /// sequence floor fit in [`UID_BIT_COUNT`] bits, and
    /// [`ConfigError::FieldsTooWide`] otherwise.
    pub fn from(timestamp_bit_count: u64, node_id_bit_count: u64) -> (r: Result<
        Config,
        ConfigError,
    >)
        ensures
            match r {
                Ok(c) => {
                    &&& timestamp_bit_count + node_id_bit_count + MIN_SEQUENCE_ID_BIT_COUNT
                        <= UID_BIT_COUNT
                    &&& c.timestamp_bit_count == timestamp_bit_count
                    &&& c.node_id_bit_count == node_id_bit_count
                    &&& c.wf()
                },
                Err(e) => {
                    &&& timestamp_bit_count + node_id_bit_count + MIN_SEQUENCE_ID_BIT_COUNT
                        > UID_BIT_COUNT
                    &&& e == ConfigError::FieldsTooWide
                },
            },
    {
        if timestamp_bit_count > UID_BIT_COUNT || node_id_bit_count > UID_BIT_COUNT
            || timestamp_bit_count + node_id_bit_count + MIN_SEQUENCE_ID_BIT_COUNT
            > UID_BIT_COUNT {
            Err(ConfigError::FieldsTooWide)
        } else {
            Ok(Config { timestamp_bit_count, node_id_bit_count })
        }
    }

    pub fn timestamp_bit_count(&self) -> (r: u64)
        ensures
            r == self.timestamp_bit_count,
    {
        self.timestamp_bit_count
    }

    pub fn node_id_bit_count(&self) -> (r: u64)
        ensures
            r == self.node_id_bit_count,
    {
        self.node_id_bit_count
    }

    pub fn timestamp_shift(&self) -> (r: u64)
        requires
            self.wf(),
        ensures
            r == self.spec_timestamp_shift(),
    {
        UID_BIT_COUNT - self.timestamp_bit_count
    }

    pub fn node_id_shift(&self) -> (r: u64)
        requires
            self.wf(),
        ensures
            r == self.spec_node_id_shift(),
    {
        UID_BIT_COUNT - (self.timestamp_bit_count + self.node_id_bit_count)
    }

    /// The numeric facts of this configuration. Presentation of the numbers is
    /// the caller's concern; this only computes them.
    pub fn describe(&self) -> (s: Summary)
        requires
            self.wf(),
        ensures
            s.max_nodes == 1u64 << self.node_id_bit_count,
            s.max_load_per_node == 1u64 << self.spec_node_id_shift(),
            s.max_load_total == 1u64 << ((self.node_id_bit_count + self.spec_node_id_shift())
                as u64),
            s.max_lifetime_years == (1u64 << self.timestamp_bit_count) / MILLISECONDS_IN_YEAR,
    {
        let node_id_shift: u64 = self.node_id_shift();
        Summary {
            max_nodes: 1u64 << self.node_id_bit_count,
            max_load_per_node: 1u64 << node_id_shift,
            max_load_total: 1u64 << (self.node_id_bit_count + node_id_shift),
            max_lifetime_years: (1u64 << self.timestamp_bit_count) / MILLISECONDS_IN_YEAR,
        }
    }
}

} // verus!
