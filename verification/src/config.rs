//! The relayer configuration as plain data: global settings, and the
//! connections and paths that are to be relayed.

use std::time::Duration;
use vstd::prelude::*;

verus! {

/// The duration that `Duration::from_secs` builds from a number of whole seconds.
pub uninterp spec fn duration_from_secs(secs: u64) -> Duration;

/// `core::time::Duration::from_secs` builds a duration from whole seconds. It
/// depends on its argument alone and never fails; the contract gives the
/// result its name and claims nothing else of it.
pub assume_specification[ Duration::from_secs ](secs: u64) -> (duration: Duration)
    ensures
        duration == duration_from_secs(secs),
;

/// The timeout that a configuration has when it names none: ten seconds.
pub fn default_timeout() -> (timeout: Duration)
    ensures
        timeout == duration_from_secs(10),
{
    Duration::from_secs(10)
}

/// The gas limit that a chain has when its configuration names none.
pub fn default_gas() -> (gas: u64)
    ensures
        gas == 200_000,
{
    200_000
}

/// How the relayer picks what to relay.
#[derive(Clone, Debug)]
pub enum Strategy {
    Naive,
}

impl Default for Strategy {
    fn default() -> (strategy: Self)
        ensures
            strategy == Strategy::Naive,
    {
        Strategy::Naive
    }
}

/// Settings that hold for every chain.
#[derive(Debug)]
pub struct GlobalConfig {
    pub timeout: Duration,
    pub strategy: Strategy,
}

impl Clone for GlobalConfig {
    fn clone(&self) -> (copy: Self)
        ensures
            copy == *self,
    {
        let strategy = match self.strategy {
            Strategy::Naive => Strategy::Naive,
        };
        GlobalConfig { timeout: self.timeout, strategy }
    }
}

impl Default for GlobalConfig {
    fn default() -> (config: Self)
        ensures
            config.timeout == duration_from_secs(10),
            config.strategy == Strategy::Naive,
    {
        GlobalConfig { timeout: default_timeout(), strategy: Strategy::default() }
    }
}

/// One end of a connection: a client, and optionally one connection of it.
/// Without a connection identifier every connection of the client is meant.
#[derive(Clone, Debug)]
pub struct ConnectionEnd {
    pub client_id: String,
    pub connection_id: Option<String>,
}

/// The direction in which packets flow along a path.
#[derive(Clone, Debug)]
pub enum Direction {
    Unidirectional,
    Bidirectional,
}

impl Default for Direction {
    fn default() -> (direction: Self)
        ensures
            direction == Direction::Bidirectional,
    {
        Direction::Bidirectional
    }
}

/// A pair of ports to relay between. A missing port stands for any port.
#[derive(Clone, Debug)]
pub struct RelayPath {
    pub src_port: Option<String>,
    pub dest_port: Option<String>,
    pub direction: Direction,
}

/// A connection to relay over. A missing end stands for any end, and missing
/// paths for every port in both directions.
#[derive(Clone, Debug)]
pub struct Connection {
    pub src: Option<ConnectionEnd>,
    pub dest: Option<ConnectionEnd>,
    pub paths: Option<Vec<RelayPath>>,
}

} // verus!
