//! The adaptive scheduling policy of the threaded disk-I/O strategy: a
//! rolling high-percentile latency estimator and a congestion-control
//! state machine that ramps concurrency up exponentially while latency
//! stays flat, backs off when it degrades, and then probes again
//! linearly.  The system cannot tell saturation it caused from outside
//! contention, so it is conservative in both directions.  The worker
//! threads themselves live outside this crate; they feed observed
//! latencies in and read the concurrency target out.

use vstd::prelude::*;

verus! {

/// A sorted rolling window of the most recent completion latencies.
#[derive(Debug)]
pub struct LatencyEstimator {
    pub samples: Vec<u64>,
    pub cap: usize,
}

pub open spec fn sorted_u64(s: Seq<u64>) -> bool {
    forall|i: int, j: int| 0 <= i <= j < s.len() ==> s[i] <= s[j]
}

/// Insertion into a sorted window, before the first larger sample.
pub open spec fn sorted_insert(s: Seq<u64>, x: u64) -> Seq<u64>
    decreases s.len(),
{
    if s.len() == 0 {
        seq![x]
    } else if s[0] <= x {
        seq![s[0]] + sorted_insert(s.subrange(1, s.len() as int), x)
    } else {
        seq![x] + s
    }
}

/// Inserting at the first position holding a larger sample is what the
/// recursive insertion computes.
proof fn lemma_sorted_insert_at(s: Seq<u64>, x: u64, i: int)
    requires
        0 <= i <= s.len(),
        forall|j: int| 0 <= j < i ==> s[j] <= x,
        i == s.len() || s[i] > x,
    ensures
        sorted_insert(s, x) == s.insert(i, x),
    decreases i,
{
    if s.len() == 0 {
        assert(sorted_insert(s, x) =~= s.insert(0, x));
    } else if i == 0 {
        assert(s[0] > x);
        assert(sorted_insert(s, x) =~= s.insert(0, x));
    } else {
        assert(s[0] <= x);
        let tail = s.subrange(1, s.len() as int);
        assert forall|j: int| 0 <= j < i - 1 implies tail[j] <= x by {
            assert(tail[j] == s[j + 1]);
        }
        if i - 1 < tail.len() {
            assert(tail[i - 1] == s[i]);
        }
        lemma_sorted_insert_at(tail, x, i - 1);
        assert(seq![s[0]] + tail.insert(i - 1, x) =~= s.insert(i, x));
    }
}

impl LatencyEstimator {
    pub open spec fn wf(&self) -> bool {
        &&& self.cap >= 1
        &&& self.samples@.len() <= self.cap
        &&& sorted_u64(self.samples@)
    }

    pub fn new(cap: usize) -> (r: LatencyEstimator)
        requires
            cap >= 1,
        ensures
            r.wf(),
            r.samples@.len() == 0,
            r.cap == cap,
    {
        LatencyEstimator { samples: Vec::new(), cap }
    }

    /// Admits one observation, keeping the window sorted; once the
    /// window is full, the smallest sample is what falls out.
    pub fn observe(&mut self, x: u64)
        requires
            old(self).wf(),
        ensures
            final(self).wf(),
            final(self).cap == old(self).cap,
            final(self).samples@.len() >= 1,
            final(self).samples@ == if old(self).samples@.len() < old(self).cap {
                sorted_insert(old(self).samples@, x)
            } else {
                sorted_insert(old(self).samples@, x).subrange(
                    1,
                    sorted_insert(old(self).samples@, x).len() as int,
                )
            },
    {
        // Find the insertion slot that keeps the window sorted.
        let mut i: usize = 0;
        while i < self.samples.len() && self.samples[i] <= x
            invariant
                i <= self.samples@.len(),
                forall|j: int| 0 <= j < i ==> self.samples@[j] <= x,
            decreases self.samples@.len() - i,
        {
            i += 1;
        }
        let ghost pre = self.samples@;
        self.samples.insert(i, x);
        proof {
            assert(self.samples@ == pre.insert(i as int, x));
            lemma_sorted_insert_at(pre, x, i as int);
            assert forall|a: int, b: int| 0 <= a <= b < self.samples@.len()
                implies self.samples@[a] <= self.samples@[b] by {
                let s = self.samples@;
                if a < i && b < i {
                } else if a >= i + 1 && b >= i + 1 {
                    assert(s[a] == pre[a - 1]);
                    assert(s[b] == pre[b - 1]);
                } else if a == i && b == i {
                } else if a < i && b == i {
                    assert(s[a] == pre[a]);
                    assert(s[b] == x);
                } else if a == i && b > i {
                    assert(s[a] == x);
                    assert(s[b] == pre[b - 1]);
                    assert(pre[b - 1] > x || pre[b - 1] >= x) by {
                        assert(!(pre[i as int] <= x) || i == pre.len());
                    }
                } else {
                    assert(s[a] == pre[a]);
                    assert(s[b] == pre[b - 1]);
                }
            }
            assert(self.samples@.contains(x)) by {
                assert(self.samples@[i as int] == x);
            }
        }
        if self.samples.len() > self.cap {
            let ghost pre2 = self.samples@;
            let _ = self.samples.remove(0);
            proof {
                assert(self.samples@ =~= pre2.subrange(1, pre2.len() as int));
                assert forall|a: int, b: int| 0 <= a <= b < self.samples@.len()
                    implies self.samples@[a] <= self.samples@[b] by {
                    assert(self.samples@[a] == pre2[a + 1]);
                    assert(self.samples@[b] == pre2[b + 1]);
                }
            }
        }
    }

    /// The index of the high-percentile sample: four fifths of the way
    /// up the sorted window.
    pub open spec fn percentile_index(len: int) -> int {
        (len - 1) - (len - 1) / 5
    }

    /// A high percentile of the window: the sample four fifths of the
    /// way up the sorted window, so that jitter in the tail does not
    /// throttle the pool by itself.
    pub fn high_percentile(&self) -> (r: u64)
        requires
            self.wf(),
            self.samples@.len() >= 1,
        ensures
            self.samples@.contains(r),
            forall|j: int| 0 <= j <= Self::percentile_index(self.samples@.len() as int)
                ==> self.samples@[j] <= r,
    {
        let len = self.samples.len();
        let idx = (len - 1) - (len - 1) / 5;
        let r = self.samples[idx];
        proof {
            assert(self.samples@[idx as int] == r);
            assert(self.samples@.contains(r));
        }
        r
    }
}

/// The phases of the control loop.
#[derive(Debug, Clone, Copy, PartialEq, Eq, Structural)]
pub enum PoolPhase {
    /// Doubling concurrency while latency stays flat.
    RampUp,
    /// Holding at the current level.
    Steady,
    /// Backed off after degradation; probing again linearly.
    Backoff,
}

/// The decision state: the current phase, the concurrency target, the
/// bound the pool was built with, and the flat-latency baseline the
/// ramp is measured against.
#[derive(Debug)]
pub struct AdaptivePolicy {
    pub phase: PoolPhase,
    pub concurrency: usize,
    pub max_workers: usize,
    pub baseline: u64,
}

impl AdaptivePolicy {
    pub open spec fn wf(&self) -> bool {
        1 <= self.concurrency <= self.max_workers
    }

    pub fn new(max_workers: usize, baseline: u64) -> (r: AdaptivePolicy)
        requires
            max_workers >= 1,
        ensures
            r.wf(),
            r.phase is RampUp,
            r.concurrency == 1,
            r.max_workers == max_workers,
            r.baseline == baseline,
    {
        AdaptivePolicy { phase: PoolPhase::RampUp, concurrency: 1, max_workers, baseline }
    }

    /// Whether an observed high-percentile latency still counts as
    /// flat: within double the baseline.
    pub open spec fn flat_spec(&self, p: u64) -> bool {
        p <= self.baseline * 2 || self.baseline == 0
    }

    fn flat(&self, p: u64) -> (r: bool)
        ensures
            r == self.flat_spec(p),
    {
        if self.baseline == 0 {
            true
        } else if self.baseline > u64::MAX / 2 {
            // Doubling would overflow; any latency this far out counts
            // as flat against such a baseline.
            proof {
                assert(p <= self.baseline * 2);
            }
            true
        } else {
            p <= self.baseline * 2
        }
    }

    /// One step of the control loop, fed the current high-percentile
    /// latency: ramp up exponentially while flat, back off to half on
    /// degradation, then probe upward one worker at a time.
    pub fn observe_latency(&mut self, p: u64)
        requires
            old(self).wf(),
        ensures
            final(self).wf(),
            final(self).max_workers == old(self).max_workers,
            ({
                let was_flat = old(self).flat_spec(p);
                match old(self).phase {
                    PoolPhase::RampUp => if was_flat {
                        (if old(self).concurrency * 2 <= old(self).max_workers {
                            final(self).concurrency == old(self).concurrency * 2
                                && final(self).phase is RampUp
                        } else {
                            final(self).concurrency == old(self).max_workers
                                && final(self).phase is Steady
                        })
                    } else {
                        final(self).phase is Backoff
                            && final(self).concurrency == if old(self).concurrency / 2 >= 1 {
                                old(self).concurrency / 2
                            } else {
                                1
                            }
                    },
                    PoolPhase::Steady => if was_flat {
                        *final(self) == *old(self)
                    } else {
                        final(self).phase is Backoff
                            && final(self).concurrency == if old(self).concurrency / 2 >= 1 {
                                old(self).concurrency / 2
                            } else {
                                1
                            }
                    },
                    PoolPhase::Backoff => if was_flat {
                        (if old(self).concurrency + 1 <= old(self).max_workers {
                            final(self).concurrency == old(self).concurrency + 1
                                && final(self).phase is Backoff
                        } else {
                            final(self).concurrency == old(self).max_workers
                                && final(self).phase is Steady
                        })
                    } else {
                        final(self).phase is Backoff
                            && final(self).concurrency == if old(self).concurrency / 2 >= 1 {
                                old(self).concurrency / 2
                            } else {
                                1
                            }
                    },
                }
            }),
    {
        let was_flat = self.flat(p);
        if !was_flat {
            let half = self.concurrency / 2;
            self.concurrency = if half >= 1 { half } else { 1 };
            self.phase = PoolPhase::Backoff;
            return;
        }
        match self.phase {
            PoolPhase::RampUp => {
                if self.concurrency <= self.max_workers / 2 {
                    self.concurrency = self.concurrency * 2;
                } else {
                    self.concurrency = self.max_workers;
                    self.phase = PoolPhase::Steady;
                }
            },
            PoolPhase::Steady => {},
            PoolPhase::Backoff => {
                if self.concurrency < self.max_workers {
                    self.concurrency = self.concurrency + 1;
                } else {
                    self.concurrency = self.max_workers;
                    self.phase = PoolPhase::Steady;
                }
            },
        }
    }
}

} // verus!
