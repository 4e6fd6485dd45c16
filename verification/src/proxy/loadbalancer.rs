//! Round-robin selection among the backends of one virtual host.

use crate::util::retreated;
use crate::util::step_down;
use std::ops::Deref;
use std::sync::atomic::AtomicUsize;
use std::sync::atomic::Ordering;
use vstd::prelude::*;

verus! {

/// A resolved network address: an IP address and a port, as plain numbers.
/// Backends are given as endpoints, and so are the two ends of a client's
/// connection.
#[derive(Clone, Copy, Debug, PartialEq, Eq, Structural)]
#[allow(inconsistent_fields)]
pub enum Endpoint {
    /// An IPv4 socket address; `ip` holds the four octets, first octet
    /// highest.
    V4 { ip: u32, port: u16 },
    /// An IPv6 socket address; `ip` holds the sixteen octets, first octet
    /// highest.
    V6 { ip: u128, port: u16, flowinfo: u32, scope_id: u32 },
}

/// Which backend a cursor selects among `len` of them: the cursor modulo
/// `len`, and none where there is no backend.
pub open spec fn slot(cursor: nat, len: nat) -> Option<nat> {
    if len == 0 {
        None
    } else {
        Some(cursor % len)
    }
}

/// What a balancer is made of, apart from its cursor.
pub struct BalancerView {
    pub ppv2: bool,
    pub backends: Seq<Endpoint>,
}

/// The backends of one virtual host and the cursor that rotates over them.
///
/// The cursor is shared by all connections of the host. A selection moves it
/// up by one, the end of a connection moves it down by one, so it counts the
/// connections in flight and picks the next backend at the same time.
pub struct Balancer {
    ppv2: bool,
    backends: Vec<Endpoint>,
    count: AtomicUsize,
}

impl View for Balancer {
    type V = BalancerView;

    closed spec fn view(&self) -> BalancerView {
        BalancerView { ppv2: self.ppv2, backends: self.backends@ }
    }
}

impl Balancer {
    /// The backend that a cursor selects.
    pub open spec fn spec_backend_at(&self, cursor: usize) -> Option<Endpoint> {
        match slot(cursor as nat, self@.backends.len()) {
            Some(index) => Some(self@.backends[index as int]),
            None => None,
        }
    }

    /// A balancer over `backends`, in this order, with its cursor at zero.
    pub fn new(ppv2: bool, backends: Vec<Endpoint>) -> (r: Self)
        ensures
            r@ == (BalancerView { ppv2, backends: backends@ }),
    {
        Balancer { ppv2, backends, count: AtomicUsize::new(0) }
    }

    /// Whether connections to this host carry a proxy-protocol header.
    pub fn is_ppv2(&self) -> (r: bool)
        ensures
            r == self@.ppv2,
    {
        self.ppv2
    }

    /// The backend that a given cursor value selects: the one at `cursor`
    /// modulo the number of backends, none where there is no backend.
    pub fn backend_at(&self, cursor: usize) -> (r: Option<&Endpoint>)
        ensures
            match r {
                Some(backend) => self.spec_backend_at(cursor) == Some(*backend),
                None => self.spec_backend_at(cursor) is None,
            },
    {
        let len = self.backends.len();
        if len == 0 {
            None
        } else {
            Some(&self.backends[cursor % len])
        }
    }

    /// Selects a backend and moves the cursor up by one.
    ///
    /// The backend is the one that the cursor's present value selects
    /// (`backend_at`). Other connections move the cursor too, so of that value
    /// nothing is known here: the result is one of the backends, and none
    /// exactly where the list is empty.
    pub fn take(&self) -> (r: Option<&Endpoint>)
        ensures
            r is Some <==> self@.backends.len() > 0,
            r matches Some(backend) ==> exists|cursor: usize|
                self.spec_backend_at(cursor) == Some(*backend),
    {
        let cursor = self.count.load(Ordering::Relaxed);
        let server = self.backend_at(cursor);
        self.count.fetch_add(1, Ordering::Relaxed);
        server
    }

    /// Moves the cursor down by one, unless it stands at zero.
    pub fn release(&self) {
        step_down(&self.count);
    }
}

/// A reservation on a balancer for the time of one connection. Giving it up
/// moves the balancer's cursor down by one.
pub struct GuardBalancer<'a>(&'a Balancer);

impl<'a> GuardBalancer<'a> {
    /// The balancer that the reservation is on.
    pub closed spec fn spec_balancer(&self) -> &'a Balancer {
        self.0
    }

    /// A reservation on `inner`.
    pub fn new(inner: &'a Balancer) -> (r: Self)
        ensures
            r.spec_balancer() == inner,
    {
        GuardBalancer(inner)
    }

    /// Gives the reservation up.
    pub fn release(self) {
        self.0.release();
    }
}

impl<'a> Deref for GuardBalancer<'a> {
    type Target = Balancer;

    /// The balancer that the reservation is on.
    fn deref(&self) -> (r: &Balancer)
        ensures
            r == self.spec_balancer(),
    {
        self.0
    }
}

// ---------------------------------------------------------------------------
// What holds of the rotation
// ---------------------------------------------------------------------------

/// The next cursor value selects the next backend, and the one after the last
/// backend is the first again.
pub proof fn lemma_rotation_step(cursor: nat, len: nat)
    requires
        len > 0,
    ensures
        slot(cursor + 1, len) == Some((slot(cursor, len)->Some_0 + 1) % len),
        slot(cursor, len)->Some_0 < len,
{
    vstd::arithmetic::div_mod::lemma_mod_bound(cursor as int, len as int);
    vstd::arithmetic::div_mod::lemma_add_mod_noop(cursor as int, 1, len as int);
    vstd::arithmetic::div_mod::lemma_mod_bound(1, len as int);
    if len > 1 {
        vstd::arithmetic::div_mod::lemma_small_mod(1, len);
    } else {
        assert(1int % 1int == 0);
    }
}

/// Selections that follow each other without a release in between go through
/// the backends in order and start over behind the last: the selection that
/// is `steps` after cursor zero picks backend `steps` modulo their number.
/// With three backends the first four selections pick the first, the second,
/// the third and the first again.
pub proof fn lemma_round_robin(len: nat, steps: nat)
    requires
        len > 0,
    ensures
        slot(steps, len) == Some(steps % len),
        steps < len ==> slot(steps, len) == Some(steps),
        slot(steps + len, len) == slot(steps, len),
{
    if steps < len {
        vstd::arithmetic::div_mod::lemma_small_mod(steps, len);
    }
    vstd::arithmetic::div_mod::lemma_mod_add_multiples_vanish(steps as int, len as int);
}

/// A release undoes a selection: a connection that ends before the next one
/// begins leaves the cursor where it found it, so the next connection is sent
/// to the same backend.
pub proof fn lemma_release_undoes_take(cursor: nat, len: nat)
    ensures
        retreated(cursor + 1) == cursor,
        slot(retreated(cursor + 1), len) == slot(cursor, len),
        retreated(0) == 0,
{
}

} // verus!
