//! Resource figures of a container, computed from the statistics that the
//! Docker daemon reports for it.

use crate::utils::format::{round_div_even, round_div_even_u128};
use vstd::prelude::*;

verus! {

/// Bytes a container received and sent on one network.
#[derive(Clone, Copy, Debug, PartialEq, Eq)]
pub struct NetworkUsage {
    pub rx_bytes: u64,
    pub tx_bytes: u64,
}

/// The statistics the daemon reports for a container: the container's and
/// the host's cumulative CPU time now and at the previous reading, the
/// number of CPUs (`online_cpus`, or failing that the number of per-CPU
/// counters), memory in use and its limit, and each network's traffic.
#[derive(Clone, Debug, PartialEq, Eq)]
pub struct ContainerStats {
    pub cpu_total_usage: u64,
    pub precpu_total_usage: u64,
    pub system_cpu_usage: u64,
    pub presystem_cpu_usage: u64,
    pub online_cpus: u64,
    pub percpu_count: u64,
    pub memory_usage: u64,
    pub memory_limit: u64,
    pub networks: Vec<NetworkUsage>,
}

/// The figures shown for a container; percentages in tenths of a percent.
#[derive(Clone, Copy, Debug, PartialEq, Eq)]
pub struct Metrics {
    pub cpu_percent_tenths: u64,
    pub memory_usage: u64,
    pub memory_limit: u64,
    pub memory_percent_tenths: u64,
    pub network_rx: u64,
    pub network_tx: u64,
}

/// `x`, or the largest `u64` when `x` is larger.
pub open spec fn saturate(x: nat) -> u64 {
    if x > u64::MAX {
        u64::MAX
    } else {
        x as u64
    }
}

/// The number of CPUs the statistics count.
pub open spec fn cpu_count(s: ContainerStats) -> nat {
    if s.online_cpus > 0 {
        s.online_cpus as nat
    } else {
        s.percpu_count as nat
    }
}

/// The CPU use since the previous reading, in tenths of a percent of one
/// CPU: the container's share of the host's CPU time times the number of
/// CPUs, rounded half to even; zero unless both times grew.
pub open spec fn cpu_tenths(s: ContainerStats) -> u64 {
    if s.cpu_total_usage > s.precpu_total_usage && s.system_cpu_usage > s.presystem_cpu_usage {
        saturate(
            round_div_even(
                (s.cpu_total_usage - s.precpu_total_usage) as nat * cpu_count(s) * 1000,
                (s.system_cpu_usage - s.presystem_cpu_usage) as nat,
            ),
        )
    } else {
        0
    }
}

/// Memory in use as tenths of a percent of the limit, rounded half to
/// even; zero without a limit.
pub open spec fn memory_tenths(s: ContainerStats) -> u64 {
    if s.memory_limit > 0 {
        saturate(round_div_even(s.memory_usage as nat * 1000, s.memory_limit as nat))
    } else {
        0
    }
}

/// Bytes received over all the networks.
pub open spec fn total_rx(ns: Seq<NetworkUsage>) -> nat
    decreases ns.len(),
{
    if ns.len() == 0 {
        0
    } else {
        total_rx(ns.drop_last()) + ns.last().rx_bytes as nat
    }
}

/// Bytes sent over all the networks.
pub open spec fn total_tx(ns: Seq<NetworkUsage>) -> nat
    decreases ns.len(),
{
    if ns.len() == 0 {
        0
    } else {
        total_tx(ns.drop_last()) + ns.last().tx_bytes as nat
    }
}

/// The figures for a container with the given statistics; all zero when
/// there are none.
pub open spec fn metrics_of(stats: Option<ContainerStats>) -> Metrics {
    match stats {
        Some(s) => Metrics {
            cpu_percent_tenths: cpu_tenths(s),
            memory_usage: s.memory_usage,
            memory_limit: s.memory_limit,
            memory_percent_tenths: memory_tenths(s),
            network_rx: saturate(total_rx(s.networks@)),
            network_tx: saturate(total_tx(s.networks@)),
        },
        None => Metrics {
            cpu_percent_tenths: 0,
            memory_usage: 0,
            memory_limit: 0,
            memory_percent_tenths: 0,
            network_rx: 0,
            network_tx: 0,
        },
    }
}

/// `a + b`, or the largest `u64` when that is larger.
fn add_saturating(a: u64, b: u64) -> (r: u64)
    ensures
        r == saturate(a as nat + b as nat),
{
    if a > u64::MAX - b {
        u64::MAX
    } else {
        a + b
    }
}

impl ContainerStats {
    /// CPU use in tenths of a percent of one CPU.
    pub fn cpu_percent_tenths(&self) -> (r: u64)
        ensures
            r == cpu_tenths(*self),
    {
        if !(self.cpu_total_usage > self.precpu_total_usage
            && self.system_cpu_usage > self.presystem_cpu_usage) {
            return 0;
        }
        let cd = self.cpu_total_usage - self.precpu_total_usage;
        let sd = self.system_cpu_usage - self.presystem_cpu_usage;
        let cpus: u64 = if self.online_cpus > 0 {
            self.online_cpus
        } else {
            self.percpu_count
        };
        let a: u128 = cd as u128 * 1000;
        let ghost exact: nat = cd as nat * cpus as nat * 1000;
        assert(exact == a * cpus) by (nonlinear_arith)
            requires
                exact == cd as nat * cpus as nat * 1000,
                a == cd * 1000,
        ;
        if cpus as u128 > u128::MAX / a {
            proof {
                assert(exact > u128::MAX) by (nonlinear_arith)
                    requires
                        exact == a * cpus,
                        cpus > u128::MAX / a,
                        a > 0,
                ;
                assert(exact / (sd as nat) >= 0x1_0000_0000_0000_0000) by (nonlinear_arith)
                    requires
                        exact > u128::MAX,
                        0 < sd <= u64::MAX,
                ;
            }
            return u64::MAX;
        }
        proof {
            assert(a * cpus <= u128::MAX) by (nonlinear_arith)
                requires
                    cpus <= u128::MAX / a,
                    a > 0,
            ;
        }
        let n: u128 = a * (cpus as u128);
        let r = round_div_even_u128(n, sd as u128);
        if r > u64::MAX as u128 {
            u64::MAX
        } else {
            r as u64
        }
    }

    /// Memory in use in tenths of a percent of the limit.
    pub fn memory_percent_tenths(&self) -> (r: u64)
        ensures
            r == memory_tenths(*self),
    {
        if self.memory_limit == 0 {
            return 0;
        }
        let n: u128 = self.memory_usage as u128 * 1000;
        let r = round_div_even_u128(n, self.memory_limit as u128);
        if r > u64::MAX as u128 {
            u64::MAX
        } else {
            r as u64
        }
    }

    /// The figures shown for a container with these statistics.
    pub fn metrics(&self) -> (m: Metrics)
        ensures
            m == metrics_of(Some(*self)),
    {
        let mut rx: u64 = 0;
        let mut tx: u64 = 0;
        let n = self.networks.len();
        let mut i: usize = 0;
        while i < n
            invariant
                n == self.networks@.len(),
                i <= n,
                rx == saturate(total_rx(self.networks@.take(i as int))),
                tx == saturate(total_tx(self.networks@.take(i as int))),
            decreases n - i,
        {
            let net = self.networks[i];
            assert(self.networks@.take(i + 1).drop_last() =~= self.networks@.take(i as int));
            rx = add_saturating(rx, net.rx_bytes);
            tx = add_saturating(tx, net.tx_bytes);
            i = i + 1;
        }
        assert(self.networks@.take(n as int) =~= self.networks@);
        Metrics {
            cpu_percent_tenths: self.cpu_percent_tenths(),
            memory_usage: self.memory_usage,
            memory_limit: self.memory_limit,
            memory_percent_tenths: self.memory_percent_tenths(),
            network_rx: rx,
            network_tx: tx,
        }
    }
}

impl Metrics {
    /// The figures for a container whose statistics are `stats`, or all
    /// zero when none were read.
    pub fn of(stats: &Option<ContainerStats>) -> (m: Metrics)
        ensures
            m == metrics_of(*stats),
    {
        match stats {
            Some(s) => s.metrics(),
            None => Metrics {
                cpu_percent_tenths: 0,
                memory_usage: 0,
                memory_limit: 0,
                memory_percent_tenths: 0,
                network_rx: 0,
                network_tx: 0,
            },
        }
    }
}

} // verus!
