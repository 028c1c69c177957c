use std::collections::VecDeque;
use vstd::prelude::*;

use crate::error::{ErrorKind, RedisError};
use crate::RedisResult;

verus! {

/// The state of a pool: its idle connections, oldest first, its capacity,
/// and whether it is closed.
pub struct PoolView<C> {
    pub idles: Seq<C>,
    pub capacity: nat,
    pub closed: bool,
}

/// What a checkout does.
pub enum Checkout<C> {
    /// The pool is closed: the checkout fails.
    Refused,
    /// The oldest idle connection is handed out.
    Reuse(C),
    /// No connection is idle: the caller dials a new one.
    Dial,
}

impl<C> PoolView<C> {
    /// The pool's invariant: never more idle connections than its capacity,
    /// and none once closed.
    pub open spec fn wf(self) -> bool {
        &&& self.idles.len() <= self.capacity
        &&& self.closed ==> self.idles.len() == 0
    }

    pub open spec fn checkout(self) -> Checkout<C> {
        if self.closed {
            Checkout::Refused
        } else if self.idles.len() > 0 {
            Checkout::Reuse(self.idles[0])
        } else {
            Checkout::Dial
        }
    }

    /// The state after a checkout.
    pub open spec fn after_checkout(self) -> PoolView<C> {
        if !self.closed && self.idles.len() > 0 {
            PoolView { idles: self.idles.drop_first(), ..self }
        } else {
            self
        }
    }

    /// The state after `conn` is checked in: dropped where the pool is closed
    /// or holds nothing; otherwise appended as the newest, after the oldest is
    /// evicted where the pool is full.
    pub open spec fn after_checkin(self, conn: C) -> PoolView<C> {
        if self.closed || self.capacity == 0 {
            self
        } else if self.idles.len() >= self.capacity {
            PoolView { idles: self.idles.drop_first().push(conn), ..self }
        } else {
            PoolView { idles: self.idles.push(conn), ..self }
        }
    }

    /// The state after the pool is closed.
    pub open spec fn after_close(self) -> PoolView<C> {
        PoolView { idles: Seq::empty(), closed: true, ..self }
    }
}

/// An operation on a pool, for stating what holds after several of them.
pub enum PoolOp<C> {
    Checkout,
    Checkin(C),
    Close,
}

/// The state after the operations, in order.
pub open spec fn run_ops<C>(v: PoolView<C>, ops: Seq<PoolOp<C>>) -> PoolView<C>
    decreases ops.len(),
{
    if ops.len() == 0 {
        v
    } else {
        let next = match ops[0] {
            PoolOp::Checkout => v.after_checkout(),
            PoolOp::Checkin(c) => v.after_checkin(c),
            PoolOp::Close => v.after_close(),
        };
        run_ops(next, ops.drop_first())
    }
}

/// Whatever checkouts, checkins and closes happen in sequence, the pool never
/// holds more idle connections than its capacity, and none once closed.
pub proof fn law_pool_bounds<C>(v: PoolView<C>, ops: Seq<PoolOp<C>>)
    requires
        v.wf(),
    ensures
        run_ops(v, ops).wf(),
        run_ops(v, ops).capacity == v.capacity,
    decreases ops.len(),
{
    if ops.len() > 0 {
        let next = match ops[0] {
            PoolOp::Checkout => v.after_checkout(),
            PoolOp::Checkin(c) => v.after_checkin(c),
            PoolOp::Close => v.after_close(),
        };
        law_pool_bounds(next, ops.drop_first());
    }
}

/// Checking a connection into a full open pool evicts the oldest idle
/// connection and keeps the others, in order, with the new one last.
pub proof fn law_pool_evicts_oldest<C>(v: PoolView<C>, conn: C)
    requires
        v.wf(),
        !v.closed,
        v.capacity > 0,
        v.idles.len() == v.capacity,
    ensures
        v.after_checkin(conn).idles == v.idles.subrange(1, v.idles.len() as int).push(conn),
        v.after_checkin(conn).idles.len() == v.capacity,
{
}

/// The last `cap` items of `s`, in order (all of them where there are fewer).
pub open spec fn newest<C>(s: Seq<C>, cap: nat) -> Seq<C> {
    if s.len() <= cap {
        s
    } else {
        s.subrange(s.len() - cap, s.len() as int)
    }
}

/// Checking each connection in, in order.
pub open spec fn checkins<C>(conns: Seq<C>) -> Seq<PoolOp<C>> {
    conns.map_values(|c: C| PoolOp::Checkin(c))
}

proof fn lemma_newest_append<C>(a: Seq<C>, b: Seq<C>, cap: nat)
    ensures
        newest(newest(a, cap) + b, cap) == newest(a + b, cap),
{
    let x = newest(a, cap);
    if a.len() > cap {
        assert(newest(x + b, cap) =~= newest(a + b, cap)) by {
            let l = newest(x + b, cap);
            let r = newest(a + b, cap);
            assert forall|i: int| 0 <= i < l.len() implies l[i] == r[i] by {
                let k = (x + b).len() - l.len() + i;
                if k < x.len() {
                    assert(x[k] == a[a.len() - cap + k]);
                }
            }
        }
    } else {
        assert(x == a);
    }
}

/// Connections checked into an open pool in sequence, with nothing checked
/// out in between, leave exactly the newest `capacity` of all the idle ones,
/// in the order they were checked in: the oldest are the ones evicted.
pub proof fn law_checkins_keep_newest<C>(v: PoolView<C>, conns: Seq<C>)
    requires
        v.wf(),
        !v.closed,
        v.capacity >= 1,
    ensures
        run_ops(v, checkins(conns)).idles == newest(v.idles + conns, v.capacity),
        run_ops(v, checkins(conns)).idles.len() <= v.capacity,
        !run_ops(v, checkins(conns)).closed,
    decreases conns.len(),
{
    if conns.len() == 0 {
        assert(v.idles + conns =~= v.idles);
    } else {
        let c = conns[0];
        let rest = conns.drop_first();
        let v1 = v.after_checkin(c);
        assert(checkins(conns)[0] == PoolOp::Checkin(c));
        assert(checkins(conns).drop_first() =~= checkins(rest));
        assert(v1.idles =~= newest(v.idles.push(c), v.capacity));
        law_checkins_keep_newest(v1, rest);
        lemma_newest_append(v.idles.push(c), rest, v.capacity);
        assert(v.idles.push(c) + rest =~= v.idles + conns);
    }
}

/// Once closed, a pool stays closed and empty whatever follows: every checkout
/// is refused and every checkin leaves it empty.
pub proof fn law_closed_pool<C>(v: PoolView<C>, ops: Seq<PoolOp<C>>)
    ensures
        run_ops(v.after_close(), ops).closed,
        run_ops(v.after_close(), ops).idles.len() == 0,
        run_ops(v.after_close(), ops).checkout() is Refused,
{
    lemma_closed_stays(v.after_close(), ops);
}

proof fn lemma_closed_stays<C>(v: PoolView<C>, ops: Seq<PoolOp<C>>)
    requires
        v.closed,
        v.idles.len() == 0,
    ensures
        run_ops(v, ops).closed,
        run_ops(v, ops).idles.len() == 0,
    decreases ops.len(),
{
    if ops.len() > 0 {
        let next = match ops[0] {
            PoolOp::Checkout => v.after_checkout(),
            PoolOp::Checkin(c) => v.after_checkin(c),
            PoolOp::Close => v.after_close(),
        };
        lemma_closed_stays(next, ops.drop_first());
    }
}

/// A bounded pool of idle connections to one address.
///
/// Dropping the pool drops every idle connection it holds.
pub struct ConnectionPool<C> {
    addr: String,
    capacity: usize,
    idles: VecDeque<C>,
    closed: bool,
}

impl<C> ConnectionPool<C> {
    pub closed spec fn view(&self) -> PoolView<C> {
        PoolView { idles: self.idles@, capacity: self.capacity as nat, closed: self.closed }
    }

    /// The address that new connections are dialled to.
    pub closed spec fn spec_address(&self) -> Seq<char> {
        self.addr@
    }

    /// An open pool with no idle connection.
    pub fn new(capacity: usize, addr: String) -> (r: Self)
        ensures
            r@ == (PoolView::<C> { idles: Seq::empty(), capacity: capacity as nat, closed: false }),
            r.spec_address() == addr@,
    {
        ConnectionPool { addr, capacity, idles: VecDeque::new(), closed: false }
    }

    /// Checks out a connection: fails with a `ClientError` once the pool is
    /// closed, hands out the oldest idle connection where there is one, and
    /// otherwise gives `None`, for the caller to dial `address()`.
    pub fn get(&mut self) -> (r: RedisResult<Option<C>>)
        ensures
            final(self)@ == old(self)@.after_checkout(),
            final(self).spec_address() == old(self).spec_address(),
            match old(self)@.checkout() {
                Checkout::Refused => r matches Err(e) && e.kind() == ErrorKind::ClientError,
                Checkout::Reuse(c) => r == Ok::<Option<C>, RedisError>(Some(c)),
                Checkout::Dial => r matches Ok(None),
            },
    {
        if self.closed {
            return Err(RedisError::custom(ErrorKind::ClientError, "Connection pool closed"));
        }
        match self.idles.pop_front() {
            Some(conn) => Ok(Some(conn)),
            None => Ok(None),
        }
    }

    /// Checks a connection in.
    pub fn put(&mut self, conn: C)
        ensures
            final(self)@ == old(self)@.after_checkin(conn),
            final(self).spec_address() == old(self).spec_address(),
    {
        if self.closed || self.capacity == 0 {
            return;
        }
        if self.idles.len() >= self.capacity {
            let _ = self.idles.pop_front();
        }
        self.idles.push_back(conn);
    }

    /// Closes the pool and drops every idle connection. Closing twice is the
    /// same as closing once.
    pub fn close(&mut self)
        ensures
            final(self)@ == old(self)@.after_close(),
            final(self).spec_address() == old(self).spec_address(),
    {
        self.closed = true;
        self.idles.clear();
    }

    pub fn idle_count(&self) -> (r: usize)
        ensures
            r == self@.idles.len(),
    {
        self.idles.len()
    }

    pub fn is_closed(&self) -> (r: bool)
        ensures
            r == self@.closed,
    {
        self.closed
    }

    pub fn capacity(&self) -> (r: usize)
        ensures
            r == self@.capacity,
    {
        self.capacity
    }

    pub fn address(&self) -> (r: &str)
        ensures
            r@ == self.spec_address(),
    {
        self.addr.as_str()
    }
}

} // verus!
