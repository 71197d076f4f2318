//! How many connections are open at a time.

use std::sync::Arc;
use std::sync::atomic::{AtomicUsize, Ordering};
use vstd::prelude::*;

verus! {

/// Counts the connections that are open. All copies count the same ones.
#[derive(Debug)]
pub struct ConnectionCounter(Arc<AtomicUsize>);

/// Stands for one open connection until it is dropped.
#[derive(Debug)]
pub struct ConnectionPermit(Arc<AtomicUsize>);

/// The count with one more connection, if the limit allows one.
#[verifier::allow_in_spec]
pub fn one_more(current: usize, limit: usize) -> Option<usize>
    returns
        (if current < limit {
            Some((current + 1) as usize)
        } else {
            None
        }),
{
    if current < limit {
        Some(current + 1)
    } else {
        None
    }
}

/// Counts one more connection through `std::sync::atomic::AtomicUsize::fetch_update`,
/// which hands back the count that it found: as `Ok` where [`one_more`] gave a new
/// count for it, as `Err` where it gave none.
#[verifier::external_body]
fn count_up(counter: &AtomicUsize, limit: usize) -> (found: Result<usize, usize>)
    ensures
        match found {
            Ok(current) => one_more(current, limit) is Some,
            Err(current) => one_more(current, limit) is None,
        },
{
    counter.fetch_update(
        Ordering::AcqRel,
        Ordering::Acquire,
        |current| one_more(current, limit),
    )
}

/// Whether counting up on a counter may find this: the count that was there, as `Ok`
/// where one more was counted, as `Err` where the limit was reached.
pub closed spec fn counted_up(
    counter: Arc<AtomicUsize>,
    limit: usize,
    found: Result<usize, usize>,
) -> bool {
    call_ensures(count_up, (&*counter, limit), found)
}

/// Takes from the count through `std::sync::atomic::AtomicUsize::fetch_sub`, which
/// does not panic: it wraps around.
#[verifier::external_body]
fn count_down(counter: &AtomicUsize, by: usize)
    opens_invariants none
    no_unwind
{
    counter.fetch_sub(by, Ordering::AcqRel);
}

/// Whether the count of a counter was taken down by one.
pub closed spec fn counted_down(counter: Arc<AtomicUsize>) -> bool {
    call_ensures(count_down, (&*counter, 1usize), ())
}

impl ConnectionCounter {
    /// What the counter counts with.
    pub closed spec fn counter(&self) -> Arc<AtomicUsize> {
        self.0
    }

    /// Whether the counter was made, and counts none.
    pub closed spec fn begins(&self) -> bool {
        call_ensures(AtomicUsize::new, (0,), *self.0)
    }

    /// Whether the counter was read, and counted so many.
    pub closed spec fn reads(&self, active: usize) -> bool {
        call_ensures(AtomicUsize::load, (&*self.0, Ordering::Acquire), active)
    }

    /// Opens a connection, if fewer than the limit are open. Others may open and close
    /// connections at any time: the count that was found decides.
    pub fn try_acquire(&self, limit: usize) -> (permit: Option<ConnectionPermit>)
        ensures
            exists|found: Result<usize, usize>| #[trigger]
                counted_up(self.counter(), limit, found) && match found {
                    Ok(current) => {
                        &&& one_more(current, limit) is Some
                        &&& permit matches Some(p)
                        &&& p.counter() == self.counter()
                    },
                    Err(current) => one_more(current, limit) is None && permit is None,
                },
    {
        let found = count_up(&self.0, limit);
        assert(counted_up(self.counter(), limit, found));
        self.granted(found)
    }

    /// The permit for what counting up has found.
    fn granted(&self, found: Result<usize, usize>) -> (permit: Option<ConnectionPermit>)
        ensures
            match found {
                Ok(_) => permit matches Some(p) && p.counter() == self.counter(),
                Err(_) => permit is None,
            },
    {
        match found {
            Ok(_) => Some(ConnectionPermit(self.0.clone())),
            Err(_) => None,
        }
    }

    /// How many connections are open. Others may open and close connections at any
    /// time.
    pub fn active(&self) -> (active: usize)
        ensures
            self.reads(active),
    {
        self.0.load(Ordering::Acquire)
    }
}

impl Default for ConnectionCounter {
    fn default() -> (counter: Self)
        ensures
            counter.begins(),
    {
        ConnectionCounter(Arc::new(AtomicUsize::new(0)))
    }
}

impl Clone for ConnectionCounter {
    fn clone(&self) -> (copy: Self)
        ensures
            copy.counter() == self.counter(),
    {
        ConnectionCounter(self.0.clone())
    }
}

impl ConnectionPermit {
    /// What the permit is counted with.
    pub closed spec fn counter(&self) -> Arc<AtomicUsize> {
        self.0
    }
}

impl Drop for ConnectionPermit {
    fn drop(&mut self)
        ensures
            counted_down(old(self).counter()),
        opens_invariants none
        no_unwind
    {
        count_down(&self.0, 1);
    }
}

/// A connection is counted where fewer than the limit are open, and then one more is; the
/// limit is never passed.
pub proof fn the_limit_is_never_passed(current: usize, limit: usize)
    ensures
        current < limit ==> one_more(current, limit) is Some && one_more(current, limit)->0 == current + 1,
        one_more(current, limit) matches Some(more) ==> more <= limit,
        current >= limit ==> one_more(current, limit) is None,
{
}

} // verus!
