//! Process-wide state: the configuration and the RTP port allocator.

use vstd::prelude::*;
use crate::config::Config;
use crate::errors::SipError;

verus! {

/// Mutable state shared by one manager: the configuration and a
/// monotonically stepping RTP port allocator that wraps inside the
/// configured range.
pub struct SipContext {
    pub config: Config,
    next_udp_port: u16,
}

/// The next port the allocator will hand out after `p`, inside
/// `[start, end]`.
pub open spec fn step_port(start: u16, end: u16, p: u16) -> u16 {
    if p + 2 > end {
        start
    } else {
        (p + 2) as u16
    }
}

/// The allocator position after `k` allocations from a fresh context.
pub open spec fn port_after(start: u16, end: u16, k: nat) -> u16
    decreases k,
{
    if k == 0 {
        start
    } else {
        step_port(start, end, port_after(start, end, (k - 1) as nat))
    }
}

impl SipContext {
    /// The port the next allocation will return.
    pub closed spec fn spec_next_port(&self) -> u16 {
        self.next_udp_port
    }

    /// The configuration this context was built from.
    pub closed spec fn spec_config(&self) -> Config {
        self.config
    }

    /// Borrows the configuration.
    pub fn config_ref(&self) -> (r: &Config)
        ensures
            *r == self.spec_config(),
    {
        &self.config
    }

    /// The allocator stays inside the configured range.
    pub closed spec fn wf(&self) -> bool {
        self.config.rtp_port_start <= self.next_udp_port <= self.config.rtp_port_end
    }

    /// Builds the context; the RTP port range must not be empty.
    pub fn from_config(config: Config) -> (r: Result<SipContext, SipError>)
        ensures
            r is Ok <==> config.rtp_port_start <= config.rtp_port_end,
            r matches Ok(c) ==> c.spec_config() == config && c.spec_next_port()
                == config.rtp_port_start && c.wf(),
            r matches Err(e) ==> e == SipError::InvalidPortRange,
    {
        if config.rtp_port_start > config.rtp_port_end {
            return Err(SipError::InvalidPortRange);
        }
        let next_udp_port = config.rtp_port_start;
        Ok(SipContext { config, next_udp_port })
    }

    /// Hands out the next RTP port and steps the allocator by two,
    /// wrapping to the start of the range when it would pass the end.
    pub fn get_next_udp_port(&mut self) -> (r: u16)
        requires
            old(self).wf(),
        ensures
            r == old(self).spec_next_port(),
            old(self).spec_config().rtp_port_start <= r <= old(self).spec_config().rtp_port_end,
            final(self).spec_config() == old(self).spec_config(),
            final(self).spec_next_port() == step_port(
                old(self).spec_config().rtp_port_start,
                old(self).spec_config().rtp_port_end,
                old(self).spec_next_port(),
            ),
            final(self).wf(),
    {
        let port = self.next_udp_port;
        let wraps = self.config.rtp_port_end < 2 || self.next_udp_port > self.config.rtp_port_end
            - 2;
        if wraps {
            self.next_udp_port = self.config.rtp_port_start;
        } else {
            self.next_udp_port = self.next_udp_port + 2;
        }
        port
    }
}

/// Before the allocator wraps, the `k`-th allocation from a fresh
/// context returns `start + 2k`.
pub proof fn lemma_port_after_no_wrap(start: u16, end: u16, k: nat)
    requires
        start <= end,
        2 * k <= end - start,
    ensures
        port_after(start, end, k) == start + 2 * k,
    decreases k,
{
    if k > 0 {
        lemma_port_after_no_wrap(start, end, (k - 1) as nat);
    }
}

/// The allocator hands out distinct even ports inside `[start, end]`
/// until it wraps: when the range starts even, any two allocations made
/// before the wrap return different even ports within the range.
pub proof fn lemma_ports_distinct_even_in_range(start: u16, end: u16, i: nat, j: nat)
    requires
        start % 2 == 0,
        start <= end,
        2 * i <= end - start,
        2 * j <= end - start,
        i != j,
    ensures
        port_after(start, end, i) != port_after(start, end, j),
        port_after(start, end, i) % 2 == 0,
        start <= port_after(start, end, i) <= end,
{
    lemma_port_after_no_wrap(start, end, i);
    lemma_port_after_no_wrap(start, end, j);
}

} // verus!
