//! Replay-protection and ordering tokens. A manager issues nonces under
//! one of three strategies chosen at construction; its counter state is
//! scoped to the one manager instance, never global.

use vstd::prelude::*;

verus! {

/// Relies on `std::time::SystemTime::now`: the wall clock as milliseconds
/// since the Unix epoch. Nothing is promised of the value: monotonicity of
/// anything built on it must not rest on the clock.
#[verifier::external_body]
pub fn current_timestamp_millis() -> (r: u64) {
    std::time::SystemTime::now().duration_since(std::time::UNIX_EPOCH).map(
        |d| d.as_millis() as u64,
    ).unwrap_or(0)
}

/// How a manager derives each nonce.
#[derive(Clone, Copy, PartialEq, Eq, Structural)]
pub enum NonceStrategy {
    /// The wall clock in milliseconds; best-effort ordering only, two calls
    /// within one millisecond may collide.
    Timestamp,
    /// A plain counter from a fixed origin: strictly unique and ordered
    /// within the manager, whatever the call rate.
    Counter,
    /// A coarse timestamp with a fine sub-counter: strictly increasing even
    /// when many nonces land in the same millisecond.
    TimestampWithCounter,
}

/// Issues nonces under the strategy fixed at construction. State lives for
/// the manager's lifetime and resets only by constructing a new manager.
pub struct NonceManager {
    pub strategy: NonceStrategy,
    /// The next value to issue under the counter strategy.
    pub counter: u64,
    /// The last value issued under the high-frequency strategy.
    pub last: u64,
}

impl NonceManager {
    /// A fresh manager; the counter strategy starts at origin zero.
    pub fn new(strategy: NonceStrategy) -> (r: NonceManager)
        ensures
            r.strategy == strategy,
            r.counter == 0,
            r.last == 0,
    {
        NonceManager { strategy, counter: 0, last: 0 }
    }

    /// Issues the next nonce.
    ///
    /// Under the counter strategy the result is the current counter and the
    /// counter steps by one (holding at the ceiling of its range). Under
    /// the high-frequency strategy the result strictly exceeds the last
    /// issued value until that value reaches the ceiling. Under the
    /// timestamp strategy the result is whatever the clock read, and no
    /// state changes.
    pub fn next_nonce(&mut self) -> (r: u64)
        ensures
            final(self).strategy == old(self).strategy,
            old(self).strategy is Counter ==> {
                &&& r == old(self).counter
                &&& final(self).counter == (if old(self).counter < u64::MAX {
                    old(self).counter + 1
                } else {
                    u64::MAX as int
                })
                &&& final(self).last == old(self).last
            },
            old(self).strategy is Timestamp ==> *final(self) == *old(self),
            old(self).strategy is TimestampWithCounter ==> {
                &&& final(self).last == r
                &&& final(self).counter == old(self).counter
                &&& (old(self).last < u64::MAX ==> r > old(self).last)
            },
    {
        match self.strategy {
            NonceStrategy::Timestamp => current_timestamp_millis(),
            NonceStrategy::Counter => {
                let r = self.counter;
                if self.counter < u64::MAX {
                    self.counter = self.counter + 1;
                }
                r
            },
            NonceStrategy::TimestampWithCounter => {
                let ts = current_timestamp_millis();
                let shifted: u64 = if ts <= (u64::MAX >> 10) {
                    ts << 10u64
                } else {
                    u64::MAX
                };
                let r: u64 = if shifted > self.last {
                    shifted
                } else if self.last < u64::MAX {
                    self.last + 1
                } else {
                    u64::MAX
                };
                self.last = r;
                r
            },
        }
    }
}

impl Clone for NonceManager {
    fn clone(&self) -> (r: Self)
        ensures
            r == *self,
    {
        NonceManager { strategy: self.strategy, counter: self.counter, last: self.last }
    }
}

/// Nonces that strictly increase from call to call never repeat: in any
/// record of issued nonces where each entry exceeds the one before it, all
/// entries are pairwise distinct. The counter strategy issues such a record
/// while its counter stays below the ceiling, and the high-frequency
/// strategy does so whatever the clock returns.
pub proof fn lemma_increasing_nonces_distinct(ns: Seq<u64>)
    requires
        forall|k: int| 0 < k < ns.len() ==> ns[k - 1] < #[trigger] ns[k],
    ensures
        forall|i: int, j: int| 0 <= i < j < ns.len() ==> ns[i] != ns[j],
{
    assert forall|i: int, j: int| 0 <= i < j < ns.len() implies ns[i] != ns[j] by {
        lemma_increasing_prefix(ns, i, j);
    }
}

proof fn lemma_increasing_prefix(ns: Seq<u64>, i: int, j: int)
    requires
        forall|k: int| 0 < k < ns.len() ==> ns[k - 1] < #[trigger] ns[k],
        0 <= i < j < ns.len(),
    ensures
        ns[i] < ns[j],
    decreases j - i,
{
    if j == i + 1 {
        assert(ns[j - 1] < ns[j]);
    } else {
        lemma_increasing_prefix(ns, i, j - 1);
        assert(ns[j - 1] < ns[j]);
    }
}

} // verus!
