use vstd::prelude::*;

verus! {

use vstd::rwlock::{RwLock, RwLockPredicate};
use vstd::string::StringExecFns;
use crate::error::MatmulError;
use crate::text::{i64_text, push_i64_decimal};

/// No counter name occurs twice in the store.
pub open spec fn unique_keys(s: Seq<(String, i64)>) -> bool {
    forall|t1: int, t2: int|
        #![trigger s[t1], s[t2]]
        0 <= t1 < t2 < s.len() ==> s[t1].0@ != s[t2].0@
}

/// The lock invariant of [`Metrics`]: whatever the interleaving of callers,
/// the guarded store never repeats a name.
pub struct MetricsInv {}

impl RwLockPredicate<Vec<(String, i64)>> for MetricsInv {
    open spec fn inv(self, v: Vec<(String, i64)>) -> bool {
        unique_keys(v@)
    }
}

/// Named counters behind a reader-writer lock. Counting and reading take
/// `&self`, so one instance can be shared across threads; the lock invariant
/// carries the store's well-formedness between calls.
pub struct Metrics {
    data: RwLock<Vec<(String, i64)>, MetricsInv>,
}

/// Add one to `key`'s counter in a plain store, appending the counter at one
/// if the key is new. Counters wrap at the 64-bit bounds.
fn store_incr(store: &mut Vec<(String, i64)>, key: String)
    requires
        unique_keys(old(store)@),
    ensures
        unique_keys(final(store)@),
        (forall|t: int| 0 <= t < old(store)@.len() ==> (#[trigger] old(store)@[t]).0@ != key@)
            ==> final(store)@ == old(store)@.push((key, 1i64)),
        forall|t: int|
            0 <= t < old(store)@.len() && (#[trigger] old(store)@[t]).0@ == key@
                ==> final(store)@ == old(store)@.update(
                t,
                (old(store)@[t].0, old(store)@[t].1.wrapping_add(1)),
            ),
{
    let n = store.len();
    let mut i: usize = 0;
    while i < n
        invariant
            unique_keys(store@),
            *store == *old(store),
            n == store@.len(),
            i <= n,
            forall|t: int| 0 <= t < i ==> (#[trigger] store@[t]).0@ != key@,
        decreases n - i,
    {
        if store[i].0 == key {
            let name = store[i].0.clone();
            let count = store[i].1;
            store.set(i, (name, count.wrapping_add(1)));
            return;
        }
        i = i + 1;
    }
    store.push((key, 1));
}

/// Copy a store pair by pair.
pub(crate) fn copy_store(store: &Vec<(String, i64)>) -> (r: Vec<(String, i64)>)
    ensures
        r@ == store@,
{
    let mut out: Vec<(String, i64)> = Vec::new();
    let mut i: usize = 0;
    while i < store.len()
        invariant
            i <= store@.len(),
            out@.len() == i,
            forall|t: int| 0 <= t < i ==> out@[t] == store@[t],
        decreases store@.len() - i,
    {
        out.push((store[i].0.clone(), store[i].1));
        i = i + 1;
    }
    proof {
        assert(out@ =~= store@);
    }
    out
}

/// The text of the counters from index `t` on: one `name: count` line each.
pub open spec fn store_text(s: Seq<(String, i64)>, t: int) -> Seq<char>
    decreases s.len() - t,
{
    if t < 0 || t >= s.len() {
        Seq::empty()
    } else {
        s[t].0@ + seq![':', ' '] + i64_text(s[t].1) + seq!['\n'] + store_text(s, t + 1)
    }
}

/// Render a counter store as text, one `name: count` line per counter, in
/// store order.
pub fn render_store(store: &Vec<(String, i64)>) -> (r: String)
    ensures
        r@ == store_text(store@, 0),
{
    let mut out = String::new();
    let mut i: usize = 0;
    while i < store.len()
        invariant
            i <= store@.len(),
            out@ + store_text(store@, i as int) == store_text(store@, 0),
        decreases store@.len() - i,
    {
        let ghost before = out@;
        out.append(store[i].0.as_str());
        proof {
            reveal_strlit(": ");
        }
        out.append(": ");
        push_i64_decimal(&mut out, store[i].1);
        proof {
            reveal_strlit("\n");
        }
        out.append("\n");
        proof {
            assert(out@ + store_text(store@, i as int + 1) =~= before + store_text(
                store@,
                i as int,
            ));
        }
        i = i + 1;
    }
    out
}

impl Metrics {
    /// An empty set of counters.
    pub fn new() -> Metrics {
        Metrics { data: RwLock::new(Vec::new(), Ghost(MetricsInv {})) }
    }

    /// Add one to `key`'s counter, registering it first if it is new.
    /// The lock cannot be poisoned, so counting never fails.
    pub fn incr(&self, key: String) -> (r: Result<(), MatmulError>)
        ensures
            r is Ok,
    {
        let (mut store, handle) = self.data.acquire_write();
        store_incr(&mut store, key);
        handle.release_write(store);
        Ok(())
    }

    /// A copy of the counters as they stood at one instant; no name repeats.
    pub fn snapshot(&self) -> (r: Result<Vec<(String, i64)>, MatmulError>)
        ensures
            r is Ok,
            r matches Ok(v) ==> unique_keys(v@),
    {
        let handle = self.data.acquire_read();
        let copy = copy_store(handle.borrow());
        handle.release_read();
        Ok(copy)
    }
}

} // verus!
