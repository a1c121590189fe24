use vstd::prelude::*;

verus! {

/// Smallest retransmission timeout, in nanoseconds (one second).
pub const RTO_MIN_NS: u64 = 1_000_000_000;

/// Largest retransmission timeout, in nanoseconds (sixty seconds).
pub const RTO_MAX_NS: u64 = 60_000_000_000;

/// Clamps a candidate timeout into the allowed band.
pub open spec fn clamp_rto(x: int) -> int {
    if x < RTO_MIN_NS {
        RTO_MIN_NS as int
    } else if x > RTO_MAX_NS {
        RTO_MAX_NS as int
    } else {
        x
    }
}

/// The retransmission-timeout estimator: smoothed round-trip time and its
/// variance, folded as `SRTT <- (1-1/8)*SRTT + (1/8)*R` and
/// `RTTVAR <- (1-1/4)*RTTVAR + (1/4)*|SRTT-R|`, with
/// `RTO = SRTT + 4*RTTVAR` clamped to one band. Integer arithmetic in
/// nanoseconds; samples are capped at the band's top first.
pub struct RtoCalculator {
    srtt: u64,
    rttvar: u64,
    rto: u64,
    has_sample: bool,
}

impl RtoCalculator {
    pub closed spec fn srtt_spec(self) -> u64 {
        self.srtt
    }

    pub closed spec fn rttvar_spec(self) -> u64 {
        self.rttvar
    }

    pub closed spec fn rto_spec(self) -> u64 {
        self.rto
    }

    pub closed spec fn has_sample_spec(self) -> bool {
        self.has_sample
    }

    pub closed spec fn wf(self) -> bool {
        &&& self.srtt <= RTO_MAX_NS
        &&& self.rttvar <= RTO_MAX_NS
        &&& RTO_MIN_NS <= self.rto <= RTO_MAX_NS
    }

    /// A fresh estimator: no samples yet, timeout at the band's floor.
    pub fn new() -> (r: Self)
        ensures
            r.wf(),
            !r.has_sample_spec(),
            r.rto_spec() == RTO_MIN_NS,
    {
        RtoCalculator { srtt: 0, rttvar: 0, rto: RTO_MIN_NS, has_sample: false }
    }

    /// Folds one round-trip sample into the estimate.
    pub fn add_sample(&mut self, rtt_ns: u64)
        requires
            old(self).wf(),
        ensures
            final(self).wf(),
            final(self).has_sample_spec(),
            ({
                let r = if rtt_ns > RTO_MAX_NS {
                    RTO_MAX_NS as int
                } else {
                    rtt_ns as int
                };
                if !old(self).has_sample_spec() {
                    &&& final(self).srtt_spec() == r
                    &&& final(self).rttvar_spec() == r / 2
                } else {
                    let diff = if old(self).srtt_spec() >= r {
                        old(self).srtt_spec() - r
                    } else {
                        r - old(self).srtt_spec()
                    };
                    &&& final(self).srtt_spec() == old(self).srtt_spec() - old(
                        self,
                    ).srtt_spec() / 8 + r / 8
                    &&& final(self).rttvar_spec() == old(self).rttvar_spec() - old(
                        self,
                    ).rttvar_spec() / 4 + diff / 4
                }
            }),
            final(self).rto_spec() == clamp_rto(
                final(self).srtt_spec() + 4 * final(self).rttvar_spec(),
            ),
    {
        let r: u64 = if rtt_ns > RTO_MAX_NS {
            RTO_MAX_NS
        } else {
            rtt_ns
        };
        if !self.has_sample {
            self.srtt = r;
            self.rttvar = r / 2;
            self.has_sample = true;
        } else {
            let diff: u64 = if self.srtt >= r {
                self.srtt - r
            } else {
                r - self.srtt
            };
            self.rttvar = self.rttvar - self.rttvar / 4 + diff / 4;
            self.srtt = self.srtt - self.srtt / 8 + r / 8;
        }
        let cand: u64 = self.srtt + 4 * self.rttvar;
        self.rto = if cand < RTO_MIN_NS {
            RTO_MIN_NS
        } else if cand > RTO_MAX_NS {
            RTO_MAX_NS
        } else {
            cand
        };
    }

    /// The current retransmission timeout, in nanoseconds.
    pub fn rto(&self) -> (r: u64)
        requires
            self.wf(),
        ensures
            r == self.rto_spec(),
            RTO_MIN_NS <= r <= RTO_MAX_NS,
    {
        self.rto
    }
}

} // verus!
