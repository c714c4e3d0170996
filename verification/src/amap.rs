use vstd::prelude::*;

verus! {

use vstd::rwlock::{RwLock, RwLockPredicate};
use crate::error::MatmulError;

/// The lock invariant of [`AmapMetrics`]: the store holds exactly the names
/// it was registered with, in registration order; only the counts may move.
pub struct AmapInv {
    pub keys: Seq<Seq<char>>,
}

impl RwLockPredicate<Vec<(String, i64)>> for AmapInv {
    open spec fn inv(self, v: Vec<(String, i64)>) -> bool {
        &&& v@.len() == self.keys.len()
        &&& forall|t: int| 0 <= t < v@.len() ==> (#[trigger] v@[t]).0@ == self.keys[t]
    }
}

/// Named counters over a fixed name set: every counter is registered at
/// construction and no call can add or remove one afterwards. Counting takes
/// `&self`, so one instance can be shared across threads.
pub struct AmapMetrics {
    data: RwLock<Vec<(String, i64)>, AmapInv>,
}

impl AmapMetrics {
    /// The names this instance was registered with, in order.
    pub closed spec fn keys(&self) -> Seq<Seq<char>> {
        self.data.pred().keys
    }

    /// Register one counter per name, each starting at zero.
    pub fn new(metric_names: &[&str]) -> (r: AmapMetrics)
        ensures
            r.keys() == metric_names@.map_values(|s: &str| s@),
    {
        let ghost keys = metric_names@.map_values(|s: &str| s@);
        let mut store: Vec<(String, i64)> = Vec::new();
        let mut i: usize = 0;
        while i < metric_names.len()
            invariant
                i <= metric_names@.len(),
                keys == metric_names@.map_values(|s: &str| s@),
                store@.len() == i,
                forall|t: int| 0 <= t < i ==> (#[trigger] store@[t]).0@ == keys[t],
            decreases metric_names@.len() - i,
        {
            store.push((metric_names[i].to_owned(), 0));
            i = i + 1;
        }
        AmapMetrics { data: RwLock::new(store, Ghost(AmapInv { keys })) }
    }

    /// Add one to `key`'s counter; a name that was never registered is
    /// rejected. Counters wrap at the 64-bit bounds.
    pub fn incr(&self, key: &str) -> (r: Result<(), MatmulError>)
        ensures
            r is Ok <==> self.keys().contains(key@),
            r matches Err(e) ==> e == MatmulError::UnknownMetric,
    {
        let k = key.to_owned();
        let (mut store, handle) = self.data.acquire_write();
        let n = store.len();
        let mut i: usize = 0;
        while i < n
            invariant
                self.data.inv(store),
                n == store@.len(),
                i <= n,
                forall|t: int| 0 <= t < i ==> (#[trigger] store@[t]).0@ != key@,
                k@ == key@,
                handle.rwlock() == self.data,
            decreases n - i,
        {
            if store[i].0 == k {
                let name = store[i].0.clone();
                let count = store[i].1;
                store.set(i, (name, count.wrapping_add(1)));
                proof {
                    assert(store@[i as int].0@ == self.keys()[i as int]);
                    assert(self.keys().contains(key@));
                }
                handle.release_write(store);
                return Ok(());
            }
            i = i + 1;
        }
        handle.release_write(store);
        proof {
            assert forall|t: int| 0 <= t < self.keys().len() implies self.keys()[t] != key@ by {
                assert(store@[t].0@ == self.keys()[t]);
            }
        }
        Err(MatmulError::UnknownMetric)
    }

    /// A copy of the counters as they stood at one instant: one per
    /// registered name, in registration order.
    pub fn snapshot(&self) -> (r: Vec<(String, i64)>)
        ensures
            r@.len() == self.keys().len(),
            forall|t: int| 0 <= t < r@.len() ==> (#[trigger] r@[t]).0@ == self.keys()[t],
    {
        let handle = self.data.acquire_read();
        let copy = crate::metrics::copy_store(handle.borrow());
        handle.release_read();
        copy
    }
}

} // verus!
