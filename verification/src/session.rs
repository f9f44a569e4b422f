//! Watch sessions and the registry that keeps them by key, with a limit on
//! how many may exist at once.
use vstd::prelude::*;
use crate::assoc::{assoc_map, keys_unique, lemma_assoc_contains, lemma_assoc_index, lemma_assoc_len, lemma_assoc_push, lemma_assoc_remove, lemma_assoc_update, lemma_assoc_empty};
use crate::metrics::DaemonMetrics;
use crate::text::{decimal, push_decimal, push_str, string_from_chars};
use crate::timing::{SystemTime, system_now};

verus! {

/// The kind of state a daemon keeps per session.
pub trait SessionState {
    /// The session's configuration.
    type Config;
    /// The events the session produces.
    type Event;
}

/// A watch session.
pub struct Session<T: SessionState, M: DaemonMetrics> {
    /// Unique key of the session.
    pub id: String,
    /// Name of the watch resource.
    pub name: String,
    /// Namespace of the watch resource.
    pub namespace: String,
    /// Node the session runs on.
    pub node_name: String,
    /// Pod the session watches.
    pub pod_name: String,
    /// Containers of the pod.
    pub container_ids: Vec<String>,
    /// Processes watched.
    pub pids: Vec<i32>,
    /// The session is paused.
    pub paused: bool,
    /// When the session was created.
    pub created_at: SystemTime,
    /// The session has not been told to stop.
    pub running: bool,
    /// The session's metrics.
    pub metrics: M,
    /// Daemon-specific state.
    pub state: T,
}

impl<T: SessionState, M: DaemonMetrics> Session<T, M> {
    /// A running session created now.
    pub fn new(
        id: String,
        name: String,
        namespace: String,
        node_name: String,
        pod_name: String,
        container_ids: Vec<String>,
        pids: Vec<i32>,
        paused: bool,
        metrics: M,
        state: T,
    ) -> (r: Self)
        ensures
            r.id == id,
            r.name == name,
            r.namespace == namespace,
            r.node_name == node_name,
            r.pod_name == pod_name,
            r.container_ids == container_ids,
            r.pids == pids,
            r.paused == paused,
            r.running,
            r.metrics == metrics,
            r.state == state,
    {
        Session {
            id,
            name,
            namespace,
            node_name,
            pod_name,
            container_ids,
            pids,
            paused,
            created_at: system_now(),
            running: true,
            metrics,
            state,
        }
    }

    /// Tell the session to stop.
    pub fn stop(&mut self)
        ensures
            !final(self).running,
            final(self).id == old(self).id,
            final(self).name == old(self).name,
            final(self).namespace == old(self).namespace,
            final(self).node_name == old(self).node_name,
            final(self).pod_name == old(self).pod_name,
            final(self).container_ids == old(self).container_ids,
            final(self).pids == old(self).pids,
            final(self).paused == old(self).paused,
            final(self).created_at == old(self).created_at,
            final(self).metrics == old(self).metrics,
            final(self).state == old(self).state,
    {
        self.running = false;
    }

    /// Whether the session has not been told to stop.
    pub fn is_running(&self) -> (r: bool)
        ensures
            r == self.running,
    {
        self.running
    }

    /// The running flag, as the session's tasks poll it.
    pub fn running_flag(&self) -> (r: bool)
        ensures
            r == self.running,
    {
        self.running
    }
}

/// Errors of the session registry.
#[derive(Debug)]
pub enum SessionError {
    /// A session with the key exists.
    AlreadyExists { key: String },
    /// No session has the key.
    NotFound { key: String },
    /// The registry is full.
    MaxSessionsReached { max: usize },
}

/// The message of a session error.
pub open spec fn session_error_text(e: SessionError) -> Seq<char> {
    match e {
        SessionError::AlreadyExists { key } => "session already exists: "@ + key@,
        SessionError::NotFound { key } => "session not found: "@ + key@,
        SessionError::MaxSessionsReached { max } => "maximum sessions reached: "@ + decimal(max as nat),
    }
}

impl SessionError {
    /// The error's message.
    pub fn message(&self) -> (r: String)
        ensures
            r@ == session_error_text(*self),
    {
        let mut v: Vec<char> = Vec::new();
        match self {
            SessionError::AlreadyExists { key } => {
                push_str(&mut v, "session already exists: ");
                push_str(&mut v, key.as_str());
            },
            SessionError::NotFound { key } => {
                push_str(&mut v, "session not found: ");
                push_str(&mut v, key.as_str());
            },
            SessionError::MaxSessionsReached { max } => {
                push_str(&mut v, "maximum sessions reached: ");
                push_decimal(&mut v, *max as u64);
            },
        }
        assert(v@ =~= session_error_text(*self));
        string_from_chars(&v)
    }
}

/// `name:namespace:pod`.
pub open spec fn session_key_of(name: Seq<char>, namespace: Seq<char>, pod_name: Seq<char>) -> Seq<char> {
    name + ":"@ + namespace + ":"@ + pod_name
}

/// The key of the session of a watch resource and a pod.
pub fn session_key(name: &str, namespace: &str, pod_name: &str) -> (r: String)
    ensures
        r@ == session_key_of(name@, namespace@, pod_name@),
{
    let mut v: Vec<char> = Vec::new();
    push_str(&mut v, name);
    push_str(&mut v, ":");
    push_str(&mut v, namespace);
    push_str(&mut v, ":");
    push_str(&mut v, pod_name);
    string_from_chars(&v)
}

/// The registry's entries by key contents.
pub open spec fn session_entries<T: SessionState, M: DaemonMetrics>(s: Seq<(String, Session<T, M>)>) -> Seq<(Seq<char>, Session<T, M>)> {
    s.map_values(|e: (String, Session<T, M>)| (e.0@, e.1))
}

/// Sessions by key, at most `max_sessions` of them.
pub struct SessionRegistry<T: SessionState, M: DaemonMetrics> {
    sessions: Vec<(String, Session<T, M>)>,
    max_sessions: usize,
}

impl<T: SessionState, M: DaemonMetrics> SessionRegistry<T, M> {
    /// The sessions by key.
    pub closed spec fn view_map(&self) -> Map<Seq<char>, Session<T, M>> {
        assoc_map(session_entries(self.sessions@))
    }

    /// The most sessions the registry holds.
    pub closed spec fn limit(&self) -> usize {
        self.max_sessions
    }

    /// Keys are unique.
    pub closed spec fn wf(&self) -> bool {
        keys_unique(session_entries(self.sessions@))
    }

    /// An empty registry holding at most `max_sessions` sessions.
    pub fn new(max_sessions: usize) -> (r: Self)
        ensures
            r.wf(),
            r.view_map() == Map::<Seq<char>, Session<T, M>>::empty(),
            r.limit() == max_sessions,
    {
        let r = SessionRegistry { sessions: Vec::new(), max_sessions };
        proof {
            lemma_assoc_empty(session_entries(r.sessions@));
        }
        r
    }

    /// The most sessions the registry holds.
    pub fn max_sessions(&self) -> (r: usize)
        ensures
            r == self.limit(),
    {
        self.max_sessions
    }

    fn position(&self, key: &str) -> (r: Option<usize>)
        ensures
            match r {
                Some(i) => i < self.sessions@.len() && self.sessions@[i as int].0@ == key@,
                None => forall|j: int| 0 <= j < self.sessions@.len() ==> #[trigger] self.sessions@[j].0@ != key@,
            },
    {
        let mut i: usize = 0;
        while i < self.sessions.len()
            invariant
                i <= self.sessions@.len(),
                forall|j: int| 0 <= j < i ==> #[trigger] self.sessions@[j].0@ != key@,
            decreases self.sessions.len() - i,
        {
            if crate::text::str_eq(self.sessions[i].0.as_str(), key) {
                return Some(i);
            }
            i = i + 1;
        }
        None
    }

    proof fn lemma_absent(&self, key: Seq<char>)
        requires
            forall|j: int| 0 <= j < self.sessions@.len() ==> #[trigger] self.sessions@[j].0@ != key,
        ensures
            !self.view_map().contains_key(key),
    {
        lemma_assoc_contains(session_entries(self.sessions@), key);
        if self.view_map().contains_key(key) {
            let j = choose|j: int| 0 <= j < session_entries(self.sessions@).len() && session_entries(self.sessions@)[j].0 == key;
            assert(self.sessions@[j].0@ == key);
        }
    }

    /// Whether a session has the key.
    pub fn has_session(&self, key: &str) -> (r: bool)
        requires
            self.wf(),
        ensures
            r == self.view_map().contains_key(key@),
    {
        match self.position(key) {
            Some(i) => {
                proof {
                    lemma_assoc_index(session_entries(self.sessions@), i as int);
                }
                true
            },
            None => {
                proof {
                    self.lemma_absent(key@);
                }
                false
            },
        }
    }

    /// The session with the key.
    pub fn get(&self, key: &str) -> (r: Option<&Session<T, M>>)
        requires
            self.wf(),
        ensures
            match r {
                Some(s) => self.view_map().contains_key(key@) && self.view_map()[key@] == *s,
                None => !self.view_map().contains_key(key@),
            },
    {
        match self.position(key) {
            Some(i) => {
                proof {
                    lemma_assoc_index(session_entries(self.sessions@), i as int);
                }
                Some(&self.sessions[i].1)
            },
            None => {
                proof {
                    self.lemma_absent(key@);
                }
                None
            },
        }
    }

    /// Add a session under `key`: refused when the registry is full (this
    /// is checked first) or when the key is taken.
    pub fn insert(&mut self, key: String, session: Session<T, M>) -> (r: Result<(), SessionError>)
        requires
            old(self).wf(),
        ensures
            final(self).wf(),
            final(self).limit() == old(self).limit(),
            old(self).view_map().dom().len() >= old(self).limit() ==> {
                &&& r matches Err(SessionError::MaxSessionsReached { max }) && max == old(self).limit()
                &&& final(self).view_map() == old(self).view_map()
            },
            old(self).view_map().dom().len() < old(self).limit() && old(self).view_map().contains_key(key@) ==> {
                &&& r matches Err(SessionError::AlreadyExists { key: k }) && k@ == key@
                &&& final(self).view_map() == old(self).view_map()
            },
            old(self).view_map().dom().len() < old(self).limit() && !old(self).view_map().contains_key(key@) ==> {
                &&& r is Ok
                &&& final(self).view_map() == old(self).view_map().insert(key@, session)
                &&& final(self).view_map().dom().len() == old(self).view_map().dom().len() + 1
            },
    {
        proof {
            lemma_assoc_len(session_entries(self.sessions@));
        }
        if self.sessions.len() >= self.max_sessions {
            return Err(SessionError::MaxSessionsReached { max: self.max_sessions });
        }
        match self.position(key.as_str()) {
            Some(i) => {
                proof {
                    lemma_assoc_index(session_entries(self.sessions@), i as int);
                }
                Err(SessionError::AlreadyExists { key })
            },
            None => {
                proof {
                    self.lemma_absent(key@);
                    lemma_assoc_push(session_entries(self.sessions@), key@, session);
                }
                let ghost s0 = self.sessions@;
                let ghost kv = key@;
                self.sessions.push((key, session));
                assert(session_entries(self.sessions@) =~= session_entries(s0).push((kv, session)));
                proof {
                    lemma_assoc_len(session_entries(self.sessions@));
                }
                Ok(())
            },
        }
    }

    /// Take out the session with the key, told to stop.
    pub fn remove(&mut self, key: &str) -> (r: Option<Session<T, M>>)
        requires
            old(self).wf(),
        ensures
            final(self).wf(),
            final(self).limit() == old(self).limit(),
            final(self).view_map() == old(self).view_map().remove(key@),
            r is Some ==> final(self).view_map().dom().len() == old(self).view_map().dom().len() - 1,
            match r {
                Some(s) => {
                    let before = old(self).view_map()[key@];
                    &&& old(self).view_map().contains_key(key@)
                    &&& !s.running
                    &&& s.id == before.id
                    &&& s.name == before.name
                    &&& s.namespace == before.namespace
                    &&& s.pod_name == before.pod_name
                    &&& s.node_name == before.node_name
                    &&& s.container_ids == before.container_ids
                    &&& s.pids == before.pids
                    &&& s.paused == before.paused
                    &&& s.metrics == before.metrics
                    &&& s.state == before.state
                },
                None => !old(self).view_map().contains_key(key@),
            },
    {
        match self.position(key) {
            Some(i) => {
                let ghost s0 = self.sessions@;
                proof {
                    lemma_assoc_index(session_entries(s0), i as int);
                    lemma_assoc_remove(session_entries(s0), i as int);
                }
                let (_, mut s) = self.sessions.remove(i);
                assert(session_entries(self.sessions@) =~= session_entries(s0).remove(i as int));
                proof {
                    lemma_assoc_len(session_entries(s0));
                    lemma_assoc_len(session_entries(self.sessions@));
                }
                s.stop();
                Some(s)
            },
            None => {
                proof {
                    self.lemma_absent(key@);
                    assert(self.view_map().remove(key@) =~= self.view_map());
                }
                None
            },
        }
    }

    /// Number of sessions.
    pub fn count(&self) -> (r: usize)
        requires
            self.wf(),
        ensures
            r == self.view_map().dom().len(),
    {
        proof {
            lemma_assoc_len(session_entries(self.sessions@));
        }
        self.sessions.len()
    }

    /// The keys, one per session.
    pub fn keys(&self) -> (r: Vec<String>)
        requires
            self.wf(),
        ensures
            r@.len() == self.view_map().dom().len(),
            forall|i: int| 0 <= i < r@.len() ==> self.view_map().contains_key(#[trigger] r@[i]@),
            forall|k: Seq<char>| #[trigger] self.view_map().contains_key(k) ==> exists|i: int| 0 <= i < r@.len() && r@[i]@ == k,
    {
        let ghost s = self.sessions@;
        let mut out: Vec<String> = Vec::new();
        let mut i: usize = 0;
        while i < self.sessions.len()
            invariant
                s == self.sessions@,
                i <= s.len(),
                out@.len() == i,
                forall|j: int| 0 <= j < i ==> #[trigger] out@[j]@ == s[j].0@,
            decreases self.sessions.len() - i,
        {
            out.push(self.sessions[i].0.clone());
            i = i + 1;
        }
        proof {
            lemma_assoc_len(session_entries(s));
            assert forall|j: int| 0 <= j < out@.len() implies self.view_map().contains_key(#[trigger] out@[j]@) by {
                lemma_assoc_index(session_entries(s), j);
            }
            assert forall|k: Seq<char>| #[trigger] self.view_map().contains_key(k) implies exists|j: int| 0 <= j < out@.len() && out@[j]@ == k by {
                lemma_assoc_contains(session_entries(s), k);
                let j = choose|j: int| 0 <= j < session_entries(s).len() && session_entries(s)[j].0 == k;
                assert(out@[j]@ == k);
            }
        }
        out
    }

    /// The position of the session with the key, if there is one.
    pub fn index_of(&self, key: &str) -> (r: Option<usize>)
        requires
            self.wf(),
        ensures
            match r {
                Some(i) => i < self.view_map().dom().len() && self.view_map().contains_key(key@) && self.key_at(i as int) == key@,
                None => !self.view_map().contains_key(key@),
            },
    {
        proof {
            lemma_assoc_len(session_entries(self.sessions@));
        }
        match self.position(key) {
            Some(i) => {
                proof {
                    lemma_assoc_index(session_entries(self.sessions@), i as int);
                }
                Some(i)
            },
            None => {
                proof {
                    self.lemma_absent(key@);
                }
                None
            },
        }
    }

    /// The key of the session at position `i`.
    pub closed spec fn key_at(&self, i: int) -> Seq<char> {
        self.sessions@[i].0@
    }

    /// The sessions sit at positions `0 .. len`, one key per position: the
    /// keys at positions are distinct and are exactly the registry's keys,
    /// of which there are finitely many.
    pub proof fn lemma_positions(&self)
        requires
            self.wf(),
        ensures
            self.view_map().dom().finite(),
            forall|i: int, j: int| 0 <= i < j < self.view_map().dom().len() ==> #[trigger] self.key_at(i) != #[trigger] self.key_at(j),
            forall|i: int| 0 <= i < self.view_map().dom().len() ==> self.view_map().contains_key(#[trigger] self.key_at(i)),
            forall|k: Seq<char>| #[trigger] self.view_map().contains_key(k) ==> exists|i: int| 0 <= i < self.view_map().dom().len() && self.key_at(i) == k,
    {
        let e = session_entries(self.sessions@);
        lemma_assoc_len(e);
        assert forall|i: int, j: int| 0 <= i < j < self.view_map().dom().len() implies #[trigger] self.key_at(i) != #[trigger] self.key_at(j) by {
            assert(e[i].0 == self.key_at(i) && e[j].0 == self.key_at(j));
        }
        assert forall|i: int| 0 <= i < self.view_map().dom().len() implies self.view_map().contains_key(#[trigger] self.key_at(i)) by {
            lemma_assoc_index(e, i);
        }
        assert forall|k: Seq<char>| #[trigger] self.view_map().contains_key(k) implies exists|i: int| 0 <= i < self.view_map().dom().len() && self.key_at(i) == k by {
            lemma_assoc_contains(e, k);
            let i = choose|i: int| 0 <= i < e.len() && e[i].0 == k;
            assert(self.key_at(i) == k);
        }
    }

    /// The session at position `i`.
    pub fn session_at(&self, i: usize) -> (r: &Session<T, M>)
        requires
            self.wf(),
            i < self.view_map().dom().len(),
        ensures
            self.view_map().contains_key(self.key_at(i as int)),
            *r == self.view_map()[self.key_at(i as int)],
    {
        proof {
            lemma_assoc_len(session_entries(self.sessions@));
            lemma_assoc_index(session_entries(self.sessions@), i as int);
        }
        &self.sessions[i].1
    }

    /// The session at position `i`, to change in place; its key stays.
    pub fn session_at_mut(&mut self, i: usize) -> (r: &mut Session<T, M>)
        requires
            old(self).wf(),
            i < old(self).view_map().dom().len(),
        ensures
            old(self).view_map().contains_key(old(self).key_at(i as int)),
            *r == old(self).view_map()[old(self).key_at(i as int)],
            final(self).wf(),
            final(self).limit() == old(self).limit(),
            forall|j: int| 0 <= j < old(self).view_map().dom().len() ==> #[trigger] final(self).key_at(j) == old(self).key_at(j),
            final(self).view_map() == old(self).view_map().insert(old(self).key_at(i as int), *final(r)),
    {
        let ghost s0 = self.sessions@;
        proof {
            lemma_assoc_len(session_entries(s0));
            lemma_assoc_index(session_entries(s0), i as int);
            assert forall|v: Session<T, M>|
                #![trigger s0.update(i as int, (s0[i as int].0, v))]
                keys_unique(session_entries(s0.update(i as int, (s0[i as int].0, v))))
                    && assoc_map(session_entries(s0.update(i as int, (s0[i as int].0, v)))) == assoc_map(
                    session_entries(s0),
                ).insert(s0[i as int].0@, v) by {
                lemma_assoc_update(session_entries(s0), i as int, v);
                assert(session_entries(s0.update(i as int, (s0[i as int].0, v))) =~= session_entries(s0).update(
                    i as int,
                    (session_entries(s0)[i as int].0, v),
                ));
            }
        }
        &mut self.sessions[i].1
    }

    /// Mark the session with the key paused or running; whether there is
    /// one.
    pub fn set_paused(&mut self, key: &str, paused: bool) -> (r: bool)
        requires
            old(self).wf(),
        ensures
            final(self).wf(),
            final(self).limit() == old(self).limit(),
            r == old(self).view_map().contains_key(key@),
            r ==> final(self).view_map() == old(self).view_map().insert(
                key@,
                Session { paused, ..old(self).view_map()[key@] },
            ),
            !r ==> final(self).view_map() == old(self).view_map(),
    {
        match self.position(key) {
            Some(i) => {
                let ghost s0 = self.sessions@;
                let (k, mut s) = self.sessions.remove(i);
                let ghost before = s;
                s.paused = paused;
                self.sessions.insert(i, (k, s));
                proof {
                    lemma_assoc_index(session_entries(s0), i as int);
                    lemma_assoc_update(session_entries(s0), i as int, Session { paused, ..before });
                    assert(session_entries(self.sessions@) =~= session_entries(s0).update(
                        i as int,
                        (session_entries(s0)[i as int].0, Session { paused, ..before }),
                    ));
                }
                true
            },
            None => {
                proof {
                    self.lemma_absent(key@);
                }
                false
            },
        }
    }

    /// Whether another session fits.
    pub fn has_capacity(&self) -> (r: bool)
        requires
            self.wf(),
        ensures
            r == (self.view_map().dom().len() < self.limit()),
    {
        self.count() < self.max_sessions
    }
}

/// A session added under a key no session has is found under that key,
/// the other sessions are untouched, and removing it gives back the
/// sessions as they were: destroying a watch undoes its creation.
pub proof fn law_insert_then_remove<T: SessionState, M: DaemonMetrics>(
    sessions: Map<Seq<char>, Session<T, M>>,
    key: Seq<char>,
    session: Session<T, M>,
)
    requires
        !sessions.contains_key(key),
    ensures
        sessions.insert(key, session).contains_key(key),
        sessions.insert(key, session)[key] == session,
        forall|k: Seq<char>| k != key ==> #[trigger] sessions.insert(key, session).contains_key(k) == sessions.contains_key(k),
        sessions.insert(key, session).remove(key) == sessions,
{
    assert(sessions.insert(key, session).remove(key) =~= sessions);
}

} // verus!
