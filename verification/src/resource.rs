//! The resource ledger: an append-ordered record of provisioned networks
//! and services, rolled back exactly once in reverse registration order,
//! with teardown failures collected rather than raised.

use vstd::prelude::*;

use crate::service::Network;
use crate::service::Service;

verus! {

/// A provisioned, teardown-able resource: an isolated network or one
/// container-backed service attached to such a network.
#[derive(Debug)]
pub enum Resource {
    Network(Network),
    Service(Service),
}

/// Whether `r` is the network resource carrying `name`.
pub open spec fn is_network_named(r: Resource, name: Seq<char>) -> bool {
    r matches Resource::Network(n) && n.name@ == name
}

/// A service resource is never registered before its owning network
/// resource: every service entry is preceded by a network entry of the
/// network it is attached to.
pub open spec fn ledger_wf(s: Seq<Resource>) -> bool {
    forall|i: int|
        #![trigger s[i]]
        0 <= i < s.len() ==> match s[i] {
            Resource::Service(sv) => exists|j: int|
                0 <= j < i && is_network_named(#[trigger] s[j], sv.net.name@),
            Resource::Network(_) => true,
        }
}

/// Whether the ledger holds a network resource carrying `name`.
pub open spec fn has_network(s: Seq<Resource>, name: Seq<char>) -> bool {
    exists|j: int| 0 <= j < s.len() && is_network_named(#[trigger] s[j], name)
}

/// Registering a network never breaks the ledger's ordering invariant.
pub(crate) proof fn lemma_ledger_push_network(s: Seq<Resource>, net: Network)
    requires
        ledger_wf(s),
    ensures
        ledger_wf(s.push(Resource::Network(net))),
{
    let t = s.push(Resource::Network(net));
    assert forall|i: int| 0 <= i < t.len() implies match #[trigger] t[i] {
        Resource::Service(sv) => exists|j: int|
            0 <= j < i && is_network_named(#[trigger] t[j], sv.net.name@),
        Resource::Network(_) => true,
    } by {
        if i < s.len() {
            assert(t[i] == s[i]);
            match s[i] {
                Resource::Service(sv) => {
                    let j = choose|j: int|
                        0 <= j < i && is_network_named(#[trigger] s[j], sv.net.name@);
                    assert(t[j] == s[j]);
                    assert(is_network_named(t[j], sv.net.name@));
                },
                Resource::Network(_) => {},
            }
        }
    }
}

/// Registering a service whose network is already in the ledger keeps the
/// ordering invariant.
pub(crate) proof fn lemma_ledger_push_service(s: Seq<Resource>, sv: Service)
    requires
        ledger_wf(s),
        has_network(s, sv.net.name@),
    ensures
        ledger_wf(s.push(Resource::Service(sv))),
        has_network(s.push(Resource::Service(sv)), sv.net.name@),
{
    let t = s.push(Resource::Service(sv));
    assert forall|i: int| 0 <= i < t.len() implies match #[trigger] t[i] {
        Resource::Service(sv2) => exists|j: int|
            0 <= j < i && is_network_named(#[trigger] t[j], sv2.net.name@),
        Resource::Network(_) => true,
    } by {
        if i < s.len() {
            assert(t[i] == s[i]);
            match s[i] {
                Resource::Service(sv2) => {
                    let j = choose|j: int|
                        0 <= j < i && is_network_named(#[trigger] s[j], sv2.net.name@);
                    assert(t[j] == s[j]);
                    assert(is_network_named(t[j], sv2.net.name@));
                },
                Resource::Network(_) => {},
            }
        } else {
            assert(t[i] == Resource::Service(sv));
            let j = choose|j: int| 0 <= j < s.len() && is_network_named(#[trigger] s[j], sv.net.name@);
            assert(t[j] == s[j]);
            assert(is_network_named(t[j], sv.net.name@));
        }
    }
    let j = choose|j: int| 0 <= j < s.len() && is_network_named(#[trigger] s[j], sv.net.name@);
    assert(t[j] == s[j]);
    assert(is_network_named(t[j], sv.net.name@));
}

/// A network registration keeps every network already present.
pub(crate) proof fn lemma_push_keeps_network(s: Seq<Resource>, r: Resource, name: Seq<char>)
    requires
        has_network(s, name),
    ensures
        has_network(s.push(r), name),
{
    let j = choose|j: int| 0 <= j < s.len() && is_network_named(#[trigger] s[j], name);
    assert(s.push(r)[j] == s[j]);
    assert(is_network_named(s.push(r)[j], name));
}

/// The suite-scoped ledger: an append-ordered record of every resource
/// provisioned so far, consumed exactly once by reverse-order cleanup.
pub struct Resources {
    items: Vec<Resource>,
}

impl View for Resources {
    type V = Seq<Resource>;

    closed spec fn view(&self) -> Seq<Resource> {
        self.items@
    }
}

impl Resources {
    pub fn new() -> (r: Self)
        ensures
            r@ == Seq::<Resource>::empty(),
    {
        Resources { items: Vec::new() }
    }

    /// Append a freshly created resource. Callers register immediately upon
    /// successful creation, before any later fallible step, so that a
    /// failure further on still rolls back everything created so far.
    pub fn register(&mut self, resource: Resource)
        ensures
            final(self)@ == old(self)@.push(resource),
    {
        self.items.push(resource);
    }

    pub fn len(&self) -> (n: usize)
        ensures
            n == self@.len(),
    {
        self.items.len()
    }

    pub fn get(&self, i: usize) -> (r: &Resource)
        requires
            i < self@.len(),
        ensures
            *r == self@[i as int],
    {
        &self.items[i]
    }

    /// Consume the ledger and start its one rollback pass.
    pub fn cleanup(self) -> (c: Cleanup)
        ensures
            c.wf(),
            c.registered() == self@,
            c.remaining() == self@,
            c.torn_down() == Seq::<Resource>::empty(),
            c.reported() == Seq::<String>::empty(),
    {
        let ghost full = self.items@;
        let c = Cleanup {
            pending: self.items,
            failures: Vec::new(),
            full: Ghost(full),
            done: Ghost(Seq::empty()),
        };
        proof {
            assert(c.pending@ =~= c.full@.take(c.pending@.len() as int));
            assert(c.done@ =~= c.full@.reverse().take(0));
        }
        c
    }
}

impl Default for Resources {
    fn default() -> (r: Self)
        ensures
            r@ == Seq::<Resource>::empty(),
    {
        Resources::new()
    }
}

/// The single rollback pass over a consumed ledger. It hands out the
/// registered resources in strict reverse-registration order, and collects
/// teardown failures without ever skipping or stopping early.
pub struct Cleanup {
    pending: Vec<Resource>,
    failures: Vec<String>,
    full: Ghost<Seq<Resource>>,
    done: Ghost<Seq<Resource>>,
}

impl Cleanup {
    /// Everything the consumed ledger held, in registration order.
    pub closed spec fn registered(&self) -> Seq<Resource> {
        self.full@
    }

    /// The resources handed out for teardown so far, in teardown order.
    pub closed spec fn torn_down(&self) -> Seq<Resource> {
        self.done@
    }

    /// The resources not yet handed out, in registration order.
    pub closed spec fn remaining(&self) -> Seq<Resource> {
        self.pending@
    }

    /// The teardown failures recorded so far, in the order they came.
    pub closed spec fn reported(&self) -> Seq<String> {
        self.failures@
    }

    pub closed spec fn wf(&self) -> bool {
        &&& self.pending@.len() <= self.full@.len()
        &&& self.pending@ == self.full@.take(self.pending@.len() as int)
        &&& self.done@ == self.full@.reverse().take(
            self.full@.len() - self.pending@.len(),
        )
    }

    /// Yield the next resource to tear down: always the most recently
    /// registered one still pending, or None once every entry was processed.
    pub fn next_teardown(&mut self) -> (r: Option<Resource>)
        requires
            old(self).wf(),
        ensures
            final(self).wf(),
            final(self).registered() == old(self).registered(),
            final(self).reported() == old(self).reported(),
            old(self).remaining().len() == 0 ==> r is None
                && final(self).remaining() == old(self).remaining()
                && final(self).torn_down() == old(self).torn_down(),
            old(self).remaining().len() > 0 ==> (r matches Some(res)
                && res == old(self).remaining().last()
                && final(self).remaining() == old(self).remaining().drop_last()
                && final(self).torn_down() == old(self).torn_down().push(res)),
    {
        match self.pending.pop() {
            None => None,
            Some(res) => {
                proof {
                    let n = self.full@.len() as int;
                    let p = old(self).pending@.len() as int;
                    assert(old(self).pending@.last() == self.full@[p - 1]);
                    assert(self.full@.reverse()[n - p] == self.full@[p - 1]);
                    assert(self.pending@ =~= self.full@.take(p - 1));
                    assert(self.done@.push(res) =~= self.full@.reverse().take(n - (p - 1)));
                }
                self.done = Ghost(self.done@.push(res));
                Some(res)
            },
        }
    }

    /// Record that one teardown failed. The failure is kept for reporting,
    /// never raised, and the remaining teardowns are unaffected.
    pub fn report_failure(&mut self, message: String)
        requires
            old(self).wf(),
        ensures
            final(self).wf(),
            final(self).registered() == old(self).registered(),
            final(self).remaining() == old(self).remaining(),
            final(self).torn_down() == old(self).torn_down(),
            final(self).reported() == old(self).reported().push(message),
    {
        self.failures.push(message);
    }

    /// Hand back the collected teardown failures once the pass is over.
    pub fn into_reported(self) -> (v: Vec<String>)
        ensures
            v@ == self.reported(),
    {
        self.failures
    }
}

/// Once cleanup has processed every registered resource, the sequence of
/// teardowns is exactly the reverse of the registration order.
pub proof fn lemma_cleanup_reverses_registration(c: &Cleanup)
    requires
        c.wf(),
        c.remaining().len() == 0,
    ensures
        c.torn_down() == c.registered().reverse(),
{
    assert(c.torn_down() =~= c.registered().reverse());
}

} // verus!
