//! The session registry: an in-memory mapping from remote endpoint to
//! session record.  A session is created when a signaling exchange
//! completes, becomes `Established` at once, and is marked `Closed` when
//! the transport reports the underlying channel gone.  At most one
//! session exists per endpoint.

use vstd::prelude::*;

verus! {

use crate::message::Endpoint;

/// Lifecycle state of a session.
#[derive(Clone, Copy, Debug, PartialEq, Eq, Structural)]
pub enum Liveness {
    Negotiating,
    Established,
    Closed,
}

/// One session, identified by its remote endpoint.
#[derive(Clone, Copy, Debug, PartialEq, Eq, Structural)]
pub struct Session {
    pub remote: Endpoint,
    pub created_at: u64,
    pub liveness: Liveness,
}

/// The record held for `remote` in `entries`: the first entry with that
/// endpoint decides.  Under `Registry::wf` there is at most one such
/// entry, so "first" is simply "the" entry.
pub open spec fn record_in(entries: Seq<Session>, remote: Endpoint) -> Option<Session>
    decreases entries.len(),
{
    if entries.len() == 0 {
        None
    } else if entries[0].remote == remote {
        Some(entries[0])
    } else {
        record_in(entries.subrange(1, entries.len() as int), remote)
    }
}

/// In-memory mapping from remote endpoint to session record, in order of
/// first registration.
pub struct Registry {
    sessions: Vec<Session>,
}

impl Registry {
    /// The registered sessions, oldest first.
    pub closed spec fn entries(&self) -> Seq<Session> {
        self.sessions@
    }

    /// No two sessions share an endpoint.
    pub open spec fn wf(&self) -> bool {
        forall|i: int, j: int|
            0 <= i < j < self.entries().len() ==> (#[trigger] self.entries()[i]).remote != (
            #[trigger] self.entries()[j]).remote
    }

    /// The record held for `remote`, if a session with that endpoint
    /// exists.
    pub open spec fn record_of(&self, remote: Endpoint) -> Option<Session> {
        record_in(self.entries(), remote)
    }

    /// A session is eligible for the relay loop to receive from exactly
    /// when it is established.
    pub open spec fn routable(&self, remote: Endpoint) -> bool {
        match self.record_of(remote) {
            Some(s) => s.liveness == Liveness::Established,
            None => false,
        }
    }

    /// An empty registry: no session exists until a signaling exchange
    /// succeeds.
    pub fn new() -> (r: Registry)
        ensures
            r.entries() == Seq::<Session>::empty(),
            r.wf(),
    {
        Registry { sessions: Vec::new() }
    }

    /// How many sessions are registered, in any state.
    pub fn len(&self) -> (n: usize)
        ensures
            n == self.entries().len(),
    {
        self.sessions.len()
    }

    /// The position of the session registered for `remote`, if any.
    fn index_of(&self, remote: &Endpoint) -> (r: Option<usize>)
        ensures
            match r {
                Some(i) => i < self.entries().len() && self.entries()[i as int].remote == *remote
                    && forall|j: int|
                    0 <= j < i ==> (#[trigger] self.entries()[j]).remote != *remote,
                None => forall|j: int|
                    0 <= j < self.entries().len() ==> (#[trigger] self.entries()[j]).remote
                        != *remote,
            },
    {
        let mut i: usize = 0;
        while i < self.sessions.len()
            invariant
                i <= self.entries().len(),
                forall|j: int| 0 <= j < i ==> (#[trigger] self.entries()[j]).remote != *remote,
            decreases self.entries().len() - i,
        {
            if self.sessions[i].remote == *remote {
                return Some(i);
            }
            i = i + 1;
        }
        None
    }

    /// Looks up the session registered for `remote`.
    pub fn lookup(&self, remote: &Endpoint) -> (r: Option<Session>)
        ensures
            r == self.record_of(*remote),
    {
        let found = self.index_of(remote);
        match found {
            Some(i) => {
                proof {
                    lemma_record_in_first_match(self.entries(), i as int, *remote);
                }
                Some(self.sessions[i])
            },
            None => {
                proof {
                    lemma_record_in_absent(self.entries(), *remote);
                }
                None
            },
        }
    }

    /// Registers the session a completed signaling exchange produced:
    /// established at once, created at `now`.  A renegotiation from an
    /// endpoint that already holds a session replaces its record; every
    /// other endpoint's record is untouched.
    pub fn register(&mut self, remote: Endpoint, now: u64)
        requires
            old(self).wf(),
        ensures
            final(self).wf(),
            final(self).record_of(remote) == Some(
                Session { remote, created_at: now, liveness: Liveness::Established },
            ),
            forall|other: Endpoint|
                other != remote ==> final(self).record_of(other) == old(self).record_of(other),
            final(self).entries().len() == old(self).entries().len() + (
            if old(self).record_of(remote) is Some {
                0int
            } else {
                1int
            }),
    {
        let fresh = Session { remote, created_at: now, liveness: Liveness::Established };
        let found = self.index_of(&remote);
        match found {
            Some(i) => {
                proof {
                    lemma_record_in_first_match(self.entries(), i as int, remote);
                    lemma_record_in_unique_update(self.entries(), i as int, fresh);
                }
                self.sessions[i] = fresh;
            },
            None => {
                proof {
                    lemma_record_in_absent(self.entries(), remote);
                    lemma_record_in_push(self.entries(), fresh);
                }
                self.sessions.push(fresh);
            },
        }
    }

    /// Records what the transport adapter detected: the channel behind
    /// `remote`'s session has failed or timed out, so the session is
    /// closed.  Closing an endpoint that holds no session changes
    /// nothing; every other endpoint's record is untouched.
    pub fn mark_closed(&mut self, remote: Endpoint)
        requires
            old(self).wf(),
        ensures
            final(self).wf(),
            final(self).record_of(remote) == match old(self).record_of(remote) {
                Some(s) => Some(
                    Session { remote, created_at: s.created_at, liveness: Liveness::Closed },
                ),
                None => None::<Session>,
            },
            forall|other: Endpoint|
                other != remote ==> final(self).record_of(other) == old(self).record_of(other),
            final(self).entries().len() == old(self).entries().len(),
    {
        let found = self.index_of(&remote);
        match found {
            Some(i) => {
                let closed = Session {
                    remote,
                    created_at: self.sessions[i].created_at,
                    liveness: Liveness::Closed,
                };
                proof {
                    lemma_record_in_first_match(self.entries(), i as int, remote);
                    lemma_record_in_unique_update(self.entries(), i as int, closed);
                }
                self.sessions[i] = closed;
            },
            None => {
                proof {
                    lemma_record_in_absent(self.entries(), remote);
                }
            },
        }
    }
}

/// If the first entry for `remote` stands at position `i`, it is the
/// record the registry holds for `remote`.
proof fn lemma_record_in_first_match(entries: Seq<Session>, i: int, remote: Endpoint)
    requires
        0 <= i < entries.len(),
        entries[i].remote == remote,
        forall|j: int| 0 <= j < i ==> (#[trigger] entries[j]).remote != remote,
    ensures
        record_in(entries, remote) == Some(entries[i]),
    decreases i,
{
    if i > 0 {
        let tail = entries.subrange(1, entries.len() as int);
        lemma_record_in_first_match(tail, i - 1, remote);
    }
}

/// An endpoint no entry carries has no record.
proof fn lemma_record_in_absent(entries: Seq<Session>, remote: Endpoint)
    requires
        forall|j: int| 0 <= j < entries.len() ==> (#[trigger] entries[j]).remote != remote,
    ensures
        record_in(entries, remote) == None::<Session>,
    decreases entries.len(),
{
    if entries.len() > 0 {
        lemma_record_in_absent(entries.subrange(1, entries.len() as int), remote);
    }
}

/// Appending an entry for a new endpoint adds its record and leaves every
/// earlier record as it was.
proof fn lemma_record_in_push(entries: Seq<Session>, fresh: Session)
    ensures
        forall|r: Endpoint|
            #[trigger] record_in(entries.push(fresh), r) == if record_in(entries, r) is Some {
                record_in(entries, r)
            } else if fresh.remote == r {
                Some(fresh)
            } else {
                None::<Session>
            },
    decreases entries.len(),
{
    let pushed = entries.push(fresh);
    if entries.len() == 0 {
        assert forall|r: Endpoint|
            #[trigger] record_in(pushed, r) == if record_in(entries, r) is Some {
                record_in(entries, r)
            } else if fresh.remote == r {
                Some(fresh)
            } else {
                None::<Session>
            } by {
            assert(pushed.len() == 1);
            assert(pushed[0] == fresh);
            assert(pushed.subrange(1, pushed.len() as int) =~= Seq::<Session>::empty());
            assert(record_in(Seq::<Session>::empty(), r) is None);
        }
    } else {
        let tail = entries.subrange(1, entries.len() as int);
        lemma_record_in_push(tail, fresh);
        assert forall|r: Endpoint|
            #[trigger] record_in(pushed, r) == if record_in(entries, r) is Some {
                record_in(entries, r)
            } else if fresh.remote == r {
                Some(fresh)
            } else {
                None::<Session>
            } by {
            assert(pushed.subrange(1, pushed.len() as int) =~= tail.push(fresh));
            assert(record_in(tail.push(fresh), r) == if record_in(tail, r) is Some {
                record_in(tail, r)
            } else if fresh.remote == r {
                Some(fresh)
            } else {
                None::<Session>
            });
        }
    }
}

/// Replacing the only entry for an endpoint with another entry for that
/// same endpoint updates its record and leaves every other record as it
/// was.
proof fn lemma_record_in_unique_update(entries: Seq<Session>, i: int, fresh: Session)
    requires
        0 <= i < entries.len(),
        entries[i].remote == fresh.remote,
        forall|j: int|
            0 <= j < entries.len() && j != i ==> (#[trigger] entries[j]).remote != fresh.remote,
    ensures
        forall|r: Endpoint|
            #[trigger] record_in(entries.update(i, fresh), r) == if fresh.remote == r {
                Some(fresh)
            } else {
                record_in(entries, r)
            },
    decreases i,
{
    let updated = entries.update(i, fresh);
    if i == 0 {
        assert forall|r: Endpoint|
            #[trigger] record_in(updated, r) == if fresh.remote == r {
                Some(fresh)
            } else {
                record_in(entries, r)
            } by {
            assert(updated.subrange(1, updated.len() as int) =~= entries.subrange(
                1,
                entries.len() as int,
            ));
        }
    } else {
        let tail = entries.subrange(1, entries.len() as int);
        lemma_record_in_unique_update(tail, i - 1, fresh);
        assert forall|r: Endpoint|
            #[trigger] record_in(updated, r) == if fresh.remote == r {
                Some(fresh)
            } else {
                record_in(entries, r)
            } by {
            assert(updated.subrange(1, updated.len() as int) =~= tail.update(i - 1, fresh));
            assert(record_in(tail.update(i - 1, fresh), r) == if fresh.remote == r {
                Some(fresh)
            } else {
                record_in(tail, r)
            });
        }
    }
}

} // verus!
