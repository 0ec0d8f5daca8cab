//! The clients that are connected, and which of them listen to broadcasts.

use vstd::prelude::*;

verus! {

/// A connected client.
#[derive(Debug, Clone, Copy, PartialEq, Eq, Structural)]
pub struct ClientSession {
    pub id: usize,
    /// Whether it listens to broadcasts.
    pub subscribed: bool,
}

/// The connected clients, in the order in which they came.
#[derive(Debug, PartialEq)]
pub struct SessionManager {
    sessions: Vec<ClientSession>,
    next_session_id: usize,
}

/// The first index of the session with this id.
pub open spec fn session_at(s: Seq<ClientSession>, id: usize) -> Option<int>
    decreases s.len(),
{
    if s.len() == 0 {
        None
    } else if s[0].id == id {
        Some(0)
    } else {
        match session_at(s.drop_first(), id) {
            Some(i) => Some(i + 1),
            None => None,
        }
    }
}

/// Where `session_at` names an index, it is the first with this id.
pub proof fn session_at_is_first(s: Seq<ClientSession>, id: usize)
    ensures
        session_at(s, id) matches Some(i) ==> 0 <= i < s.len() && s[i].id == id && forall|j: int|
            0 <= j < i ==> (#[trigger] s[j]).id != id,
        session_at(s, id) is None ==> forall|j: int|
            0 <= j < s.len() ==> (#[trigger] s[j]).id != id,
    decreases s.len(),
{
    if s.len() > 0 && s[0].id != id {
        let t = s.drop_first();
        session_at_is_first(t, id);
        assert forall|j: int| 1 <= j < s.len() implies s[j] == #[trigger] t[j - 1] by {}
        match session_at(t, id) {
            Some(i) => {
                assert forall|j: int| 0 <= j < i + 1 implies (#[trigger] s[j]).id != id by {
                    if j > 0 {
                        assert(t[j - 1].id != id);
                    }
                }
            },
            None => {
                assert forall|j: int| 0 <= j < s.len() implies (#[trigger] s[j]).id != id by {
                    if j > 0 {
                        assert(t[j - 1].id != id);
                    }
                }
            },
        }
    }
}

/// The sessions with the subscription of the first one of this id set.
pub open spec fn subscription_set(
    s: Seq<ClientSession>,
    id: usize,
    subscribed: bool,
) -> Seq<ClientSession> {
    match session_at(s, id) {
        Some(i) => s.update(i, ClientSession { id, subscribed }),
        None => s,
    }
}

/// The sessions that are left when those of this id are gone.
pub open spec fn without_id(s: Seq<ClientSession>, id: usize) -> Seq<ClientSession>
    decreases s.len(),
{
    if s.len() == 0 {
        s
    } else if s.last().id == id {
        without_id(s.drop_last(), id)
    } else {
        without_id(s.drop_last(), id).push(s.last())
    }
}

/// The ids of the sessions that listen, in order.
pub open spec fn listeners(s: Seq<ClientSession>) -> Seq<usize>
    decreases s.len(),
{
    if s.len() == 0 {
        Seq::empty()
    } else if s.last().subscribed {
        listeners(s.drop_last()).push(s.last().id)
    } else {
        listeners(s.drop_last())
    }
}

/// The sessions that are left when those that listen and could not be reached
/// are gone.
pub open spec fn reachable(s: Seq<ClientSession>, failed: Seq<usize>) -> Seq<ClientSession>
    decreases s.len(),
{
    if s.len() == 0 {
        s
    } else if s.last().subscribed && failed.contains(s.last().id) {
        reachable(s.drop_last(), failed)
    } else {
        reachable(s.drop_last(), failed).push(s.last())
    }
}

impl View for SessionManager {
    type V = Seq<ClientSession>;

    closed spec fn view(&self) -> Seq<ClientSession> {
        self.sessions@
    }
}

impl SessionManager {
    /// The id that the next client is given.
    pub closed spec fn next_id(&self) -> usize {
        self.next_session_id
    }

    /// No clients.
    pub fn new() -> (r: SessionManager)
        ensures
            r@ == Seq::<ClientSession>::empty(),
            r.next_id() == 1,
    {
        SessionManager { sessions: Vec::new(), next_session_id: 1 }
    }

    /// Register a new client, returning its session id.
    pub fn add_session(&mut self) -> (r: usize)
        requires
            old(self).next_id() < usize::MAX,
        ensures
            r == old(self).next_id(),
            final(self).next_id() == r + 1,
            final(self)@ == old(self)@.push(ClientSession { id: r, subscribed: false }),
    {
        let id: usize = self.next_session_id;
        self.next_session_id = id + 1;
        self.sessions.push(ClientSession { id, subscribed: false });
        id
    }

    /// Register a client with a pre-assigned session id.
    pub fn add_session_with_id(&mut self, id: usize)
        ensures
            final(self)@ == old(self)@.push(ClientSession { id, subscribed: false }),
            final(self).next_id() == old(self).next_id(),
    {
        self.sessions.push(ClientSession { id, subscribed: false });
    }

    /// The first index of the session with this id.
    fn position(&self, id: usize) -> (r: Option<usize>)
        ensures
            match session_at(self@, id) {
                Some(i) => r matches Some(k) && k == i,
                None => r is None,
            },
            r matches Some(i) ==> i < self.sessions.len(),
    {
        let mut i: usize = 0;
        proof {
            session_at_is_first(self@, id);
        }
        while i < self.sessions.len()
            invariant
                i <= self.sessions.len(),
                forall|j: int| 0 <= j < i ==> (#[trigger] self.sessions@[j]).id != id,
            decreases self.sessions.len() - i,
        {
            if self.sessions[i].id == id {
                proof {
                    session_at_is_first(self@, id);
                }
                return Some(i);
            }
            i = i + 1;
        }
        None
    }

    /// Remove a client session by id.
    pub fn remove_session(&mut self, id: usize)
        ensures
            final(self)@ == without_id(old(self)@, id),
            final(self).next_id() == old(self).next_id(),
    {
        let ghost all = self@;
        let mut kept: Vec<ClientSession> = Vec::new();
        let mut i: usize = 0;
        proof {
            assert(all.take(0) =~= Seq::<ClientSession>::empty());
        }
        while i < self.sessions.len()
            invariant
                self.sessions@ == all,
                self.next_session_id == old(self).next_session_id,
                i <= self.sessions.len(),
                kept@ == without_id(all.take(i as int), id),
            decreases self.sessions.len() - i,
        {
            let s: ClientSession = self.sessions[i];
            proof {
                assert(all.take(i + 1).drop_last() =~= all.take(i as int));
                assert(all.take(i + 1).last() == s);
            }
            if s.id != id {
                kept.push(s);
            }
            i = i + 1;
        }
        proof {
            assert(all.take(all.len() as int) =~= all);
        }
        self.sessions = kept;
    }

    /// Set whether a client listens to broadcasts.
    pub fn set_subscribed(&mut self, id: usize, subscribed: bool)
        ensures
            final(self)@ == subscription_set(old(self)@, id, subscribed),
            final(self).next_id() == old(self).next_id(),
    {
        match self.position(id) {
            Some(i) => {
                self.sessions.set(i, ClientSession { id, subscribed });
            },
            None => {},
        }
    }

    /// The ids of the clients that a broadcast goes to, in order.
    pub fn recipients(&self) -> (r: Vec<usize>)
        ensures
            r@ == listeners(self@),
    {
        let ghost all = self@;
        let mut out: Vec<usize> = Vec::new();
        let mut i: usize = 0;
        proof {
            assert(all.take(0) =~= Seq::<ClientSession>::empty());
        }
        while i < self.sessions.len()
            invariant
                self.sessions@ == all,
                i <= self.sessions.len(),
                out@ == listeners(all.take(i as int)),
            decreases self.sessions.len() - i,
        {
            let s: ClientSession = self.sessions[i];
            proof {
                assert(all.take(i + 1).drop_last() =~= all.take(i as int));
                assert(all.take(i + 1).last() == s);
            }
            if s.subscribed {
                out.push(s.id);
            }
            i = i + 1;
        }
        proof {
            assert(all.take(all.len() as int) =~= all);
        }
        out
    }

    /// A broadcast went out, and could not be delivered to the clients in
    /// `failed`: those of them that listen are removed.
    pub fn broadcast(&mut self, failed: &Vec<usize>)
        ensures
            final(self)@ == reachable(old(self)@, failed@),
            final(self).next_id() == old(self).next_id(),
    {
        let ghost all = self@;
        let mut kept: Vec<ClientSession> = Vec::new();
        let mut i: usize = 0;
        proof {
            assert(all.take(0) =~= Seq::<ClientSession>::empty());
        }
        while i < self.sessions.len()
            invariant
                self.sessions@ == all,
                self.next_session_id == old(self).next_session_id,
                i <= self.sessions.len(),
                kept@ == reachable(all.take(i as int), failed@),
            decreases self.sessions.len() - i,
        {
            let s: ClientSession = self.sessions[i];
            proof {
                assert(all.take(i + 1).drop_last() =~= all.take(i as int));
                assert(all.take(i + 1).last() == s);
            }
            if !(s.subscribed && has_id(failed, s.id)) {
                kept.push(s);
            }
            i = i + 1;
        }
        proof {
            assert(all.take(all.len() as int) =~= all);
        }
        self.sessions = kept;
    }

    /// An event was sent to one client; `delivered` says whether it arrived.
    /// Returns whether the client is there and got it; one that is there and
    /// did not is removed.
    pub fn send_to(&mut self, session_id: usize, delivered: bool) -> (r: bool)
        ensures
            r == (delivered && session_at(old(self)@, session_id) is Some),
            final(self)@ == match session_at(old(self)@, session_id) {
                Some(i) => if delivered {
                    old(self)@
                } else {
                    old(self)@.remove(i)
                },
                None => old(self)@,
            },
            final(self).next_id() == old(self).next_id(),
    {
        match self.position(session_id) {
            Some(i) => {
                if delivered {
                    true
                } else {
                    self.sessions.remove(i);
                    false
                }
            },
            None => false,
        }
    }
}

/// Whether `id` is among `ids`.
fn has_id(ids: &Vec<usize>, id: usize) -> (r: bool)
    ensures
        r == ids@.contains(id),
{
    let mut i: usize = 0;
    while i < ids.len()
        invariant
            i <= ids.len(),
            forall|k: int| 0 <= k < i ==> ids@[k] != id,
        decreases ids.len() - i,
    {
        if ids[i] == id {
            return true;
        }
        i = i + 1;
    }
    false
}

/// Clients that do not listen are never dropped by a broadcast, and a client
/// is dropped only where it could not be reached.
pub proof fn broadcast_keeps_the_rest(s: Seq<ClientSession>, failed: Seq<usize>)
    ensures
        forall|i: int|
            0 <= i < s.len() && (!s[i].subscribed || !failed.contains(s[i].id))
                ==> #[trigger] reachable(s, failed).contains(#[trigger] s[i]),
        forall|c: ClientSession| #[trigger]
            reachable(s, failed).contains(c) ==> s.contains(c) && (!c.subscribed
                || !failed.contains(c.id)),
    decreases s.len(),
{
    if s.len() > 0 {
        let front = s.drop_last();
        broadcast_keeps_the_rest(front, failed);
        let before = reachable(front, failed);
        let r = reachable(s, failed);
        assert forall|i: int|
            0 <= i < s.len() && (!s[i].subscribed || !failed.contains(s[i].id)) implies r.contains(
            #[trigger] s[i],
        ) by {
            if i < front.len() {
                assert(front[i] == s[i]);
                assert(before.contains(front[i]));
                let k = before.index_of(s[i]);
                assert(r[k] == s[i]);
            } else {
                assert(r[r.len() - 1] == s[i]);
            }
        }
        assert forall|c: ClientSession| #[trigger] r.contains(c) implies s.contains(c) && (
        !c.subscribed || !failed.contains(c.id)) by {
            let k = r.index_of(c);
            if k < before.len() {
                assert(before[k] == c);
                assert(before.contains(c));
                let i = front.index_of(c);
                assert(s[i] == c);
            } else {
                assert(s[s.len() - 1] == c);
            }
        }
    }
}

/// A client that leaves is gone, and the others stay in their order.
pub proof fn leaving_clients_are_gone(s: Seq<ClientSession>, id: usize)
    ensures
        without_id(s, id) == s.filter(|c: ClientSession| c.id != id),
    decreases s.len(),
{
    reveal(Seq::filter);
    if s.len() > 0 {
        leaving_clients_are_gone(s.drop_last(), id);
    }
}

/// A broadcast goes to exactly the clients that listen, in order.
pub proof fn broadcasts_go_to_listeners(s: Seq<ClientSession>)
    ensures
        listeners(s) == s.filter(|c: ClientSession| c.subscribed).map_values(
            |c: ClientSession| c.id,
        ),
    decreases s.len(),
{
    reveal(Seq::filter);
    if s.len() > 0 {
        broadcasts_go_to_listeners(s.drop_last());
        let f = |c: ClientSession| c.subscribed;
        let g = |c: ClientSession| c.id;
        assert(listeners(s) =~= s.filter(f).map_values(g));
    } else {
        assert(listeners(s) =~= s.filter(|c: ClientSession| c.subscribed).map_values(
            |c: ClientSession| c.id,
        ));
    }
}

/// After a broadcast exactly the clients that listen and could not be reached
/// are gone.
pub proof fn unreachable_listeners_are_gone(s: Seq<ClientSession>, failed: Seq<usize>)
    ensures
        reachable(s, failed) == s.filter(
            |c: ClientSession| !(c.subscribed && failed.contains(c.id)),
        ),
    decreases s.len(),
{
    reveal(Seq::filter);
    if s.len() > 0 {
        unreachable_listeners_are_gone(s.drop_last(), failed);
    }
}

/// Subscribing changes whether the first client of the number listens, and
/// nothing else.
pub proof fn subscribing_touches_one_client(
    s: Seq<ClientSession>,
    id: usize,
    on: bool,
    i: int,
)
    requires
        0 <= i < s.len(),
    ensures
        ({
            let t = subscription_set(s, id, on);
            let first = s[i].id == id && forall|j: int| 0 <= j < i ==> (#[trigger] s[j]).id != id;
            &&& t.len() == s.len()
            &&& first ==> t[i].id == id && t[i].subscribed == on
            &&& !first ==> t[i] == s[i]
        }),
{
    session_at_is_first(s, id);
}

} // verus!
