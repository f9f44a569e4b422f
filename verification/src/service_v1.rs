//! The first version of the watch service: watches numbered in creation
//! order, destroyed, queried and listed by number.
//!
//! The transport and the event stream are the caller's.
use vstd::prelude::*;
use crate::assoc::{assoc_map, keys_unique, lemma_assoc_contains, lemma_assoc_index, lemma_assoc_len, lemma_assoc_push, lemma_assoc_remove, lemma_assoc_update, lemma_assoc_empty};
use crate::text::{owned, str_eq};

verus! {

/// A watch of the first service version.
#[derive(Debug)]
pub struct WatchSession {
    pub session_id: i64,
    pub watcher_name: String,
    pub namespace: String,
    pub pod_name: String,
    pub container_id: String,
    /// Paths the watch was created with.
    pub watch_count: i32,
    pub events_detected: i64,
    /// Creation time, in seconds since the epoch.
    pub created_at: i64,
    /// The watch has not been destroyed.
    pub running: bool,
}

/// A watch, by contents.
pub struct SessionView {
    pub watcher_name: Seq<char>,
    pub namespace: Seq<char>,
    pub pod_name: Seq<char>,
    pub container_id: Seq<char>,
    pub watch_count: i32,
    pub events_detected: i64,
    pub created_at: i64,
    pub running: bool,
}

/// A watch by contents.
pub open spec fn session_view(s: WatchSession) -> SessionView {
    SessionView {
        watcher_name: s.watcher_name@,
        namespace: s.namespace@,
        pod_name: s.pod_name@,
        container_id: s.container_id@,
        watch_count: s.watch_count,
        events_detected: s.events_detected,
        created_at: s.created_at,
        running: s.running,
    }
}

/// The table's entries by contents.
pub open spec fn table_entries(s: Seq<(i64, WatchSession)>) -> Seq<(i64, SessionView)> {
    s.map_values(|e: (i64, WatchSession)| (e.0, session_view(e.1)))
}

/// The reply to a creation: the watch's number and how many paths it has.
#[derive(Debug)]
pub struct CreateWatchReply {
    pub session_id: i64,
    pub watch_count: i32,
    pub error: String,
}

/// The reply to a destruction.
#[derive(Debug)]
pub struct DestroyWatchReply {
    pub success: bool,
    pub error: String,
}

/// The reply to a status query.
#[derive(Debug)]
pub struct WatchStatusReply {
    pub active: bool,
    pub watch_count: i32,
    pub events_detected: i64,
    pub watched_paths: Vec<String>,
    pub error: String,
}

/// A listed watch.
#[derive(Debug)]
pub struct WatchInfo {
    pub session_id: i64,
    pub watcher_name: String,
    pub namespace: String,
    pub pod_name: String,
    pub container_id: String,
    pub watch_count: i32,
    pub events_detected: i64,
    pub created_at: i64,
}

/// A listing request selects a watch: an empty name or namespace selects
/// any.
pub open spec fn listed(v: SessionView, name: Seq<char>, namespace: Seq<char>) -> bool {
    (name.len() == 0 || v.watcher_name == name) && (namespace.len() == 0 || v.namespace == namespace)
}

/// A listed watch shows the watch with that number.
pub open spec fn info_matches(info: WatchInfo, id: i64, v: SessionView) -> bool {
    &&& info.session_id == id
    &&& info.watcher_name@ == v.watcher_name
    &&& info.namespace@ == v.namespace
    &&& info.pod_name@ == v.pod_name
    &&& info.container_id@ == v.container_id
    &&& info.watch_count == v.watch_count
    &&& info.events_detected == v.events_detected
    &&& info.created_at == v.created_at
}

/// The watch service of the first version: the node, the watch limit it
/// was configured with, the next watch number, and the watches by number.
pub struct ArgusServiceImpl {
    node_name: String,
    max_watches: usize,
    next_session_id: i64,
    sessions: Vec<(i64, WatchSession)>,
}

impl ArgusServiceImpl {
    /// The watches by number.
    pub closed spec fn watches(&self) -> Map<i64, SessionView> {
        assoc_map(table_entries(self.sessions@))
    }

    /// The number the next watch gets.
    pub closed spec fn next_id(&self) -> i64 {
        self.next_session_id
    }

    /// The node's name.
    pub closed spec fn node(&self) -> Seq<char> {
        self.node_name@
    }

    /// The configured watch limit.
    pub closed spec fn limit(&self) -> usize {
        self.max_watches
    }

    /// Numbers are unique.
    pub closed spec fn wf(&self) -> bool {
        keys_unique(table_entries(self.sessions@))
    }

    /// A service with no watches; the first watch gets number 1.
    pub fn new(node_name: String, max_watches: usize) -> (r: Self)
        ensures
            r.wf(),
            r.watches() == Map::<i64, SessionView>::empty(),
            r.next_id() == 1,
            r.node() == node_name@,
            r.limit() == max_watches,
    {
        let r = ArgusServiceImpl { node_name, max_watches, next_session_id: 1, sessions: Vec::new() };
        proof {
            lemma_assoc_empty(table_entries(r.sessions@));
        }
        r
    }

    /// The node's name.
    pub fn node_name(&self) -> (r: &str)
        ensures
            r@ == self.node(),
    {
        self.node_name.as_str()
    }

    /// The configured watch limit.
    pub fn max_watches(&self) -> (r: usize)
        ensures
            r == self.limit(),
    {
        self.max_watches
    }

    fn position(&self, id: i64) -> (r: Option<usize>)
        ensures
            match r {
                Some(i) => i < self.sessions@.len() && self.sessions@[i as int].0 == id,
                None => forall|j: int| 0 <= j < self.sessions@.len() ==> #[trigger] self.sessions@[j].0 != id,
            },
    {
        let mut i: usize = 0;
        while i < self.sessions.len()
            invariant
                i <= self.sessions@.len(),
                forall|j: int| 0 <= j < i ==> #[trigger] self.sessions@[j].0 != id,
            decreases self.sessions.len() - i,
        {
            if self.sessions[i].0 == id {
                return Some(i);
            }
            i = i + 1;
        }
        None
    }

    proof fn lemma_absent(&self, id: i64)
        requires
            forall|j: int| 0 <= j < self.sessions@.len() ==> #[trigger] self.sessions@[j].0 != id,
        ensures
            !self.watches().contains_key(id),
    {
        lemma_assoc_contains(table_entries(self.sessions@), id);
        if self.watches().contains_key(id) {
            let j = choose|j: int| 0 <= j < table_entries(self.sessions@).len() && table_entries(self.sessions@)[j].0 == id;
            assert(self.sessions@[j].0 == id);
        }
    }

    /// Create a watch of `path_count` paths, created at `created_at`
    /// (seconds since the epoch): it gets the next number (which then
    /// advances, wrapping around), replacing a watch that had that number.
    pub fn create_watch(
        &mut self,
        watcher_name: String,
        namespace: String,
        pod_name: String,
        container_id: String,
        path_count: usize,
        created_at: i64,
    ) -> (r: CreateWatchReply)
        requires
            old(self).wf(),
        ensures
            final(self).wf(),
            final(self).node() == old(self).node(),
            final(self).limit() == old(self).limit(),
            r.session_id == old(self).next_id(),
            r.watch_count == path_count as i32,
            r.error@.len() == 0,
            final(self).next_id() == (if old(self).next_id() == i64::MAX {
                i64::MIN
            } else {
                (old(self).next_id() + 1) as i64
            }),
            final(self).watches() == old(self).watches().insert(
                old(self).next_id(),
                SessionView {
                    watcher_name: watcher_name@,
                    namespace: namespace@,
                    pod_name: pod_name@,
                    container_id: container_id@,
                    watch_count: path_count as i32,
                    events_detected: 0,
                    created_at,
                    running: true,
                },
            ),
    {
        let id = self.next_session_id;
        self.next_session_id = if id == i64::MAX {
            i64::MIN
        } else {
            id + 1
        };
        let count = path_count as i32;
        let session = WatchSession {
            session_id: id,
            watcher_name,
            namespace,
            pod_name,
            container_id,
            watch_count: count,
            events_detected: 0,
            created_at,
            running: true,
        };
        let ghost v = session_view(session);
        let ghost s0 = self.sessions@;
        match self.position(id) {
            Some(i) => {
                let (_, _old_session) = self.sessions.remove(i);
                self.sessions.insert(i, (id, session));
                proof {
                    lemma_assoc_update(table_entries(s0), i as int, v);
                    assert(table_entries(self.sessions@) =~= table_entries(s0).update(i as int, (table_entries(s0)[i as int].0, v)));
                }
            },
            None => {
                proof {
                    self.lemma_absent(id);
                    lemma_assoc_push(table_entries(s0), id, v);
                }
                self.sessions.push((id, session));
                assert(table_entries(self.sessions@) =~= table_entries(s0).push((id, v)));
            },
        }
        CreateWatchReply { session_id: id, watch_count: count, error: String::new() }
    }

    /// Destroy the watch with number `id`: it is stopped and forgotten; an
    /// unknown number is reported as not found.
    pub fn destroy_watch(&mut self, id: i64) -> (r: DestroyWatchReply)
        requires
            old(self).wf(),
        ensures
            final(self).wf(),
            final(self).node() == old(self).node(),
            final(self).limit() == old(self).limit(),
            final(self).next_id() == old(self).next_id(),
            final(self).watches() == old(self).watches().remove(id),
            r.success == old(self).watches().contains_key(id),
            r.error@ == if r.success {
                Seq::<char>::empty()
            } else {
                "Session not found"@
            },
    {
        match self.position(id) {
            Some(i) => {
                let ghost s0 = self.sessions@;
                proof {
                    lemma_assoc_index(table_entries(s0), i as int);
                    lemma_assoc_remove(table_entries(s0), i as int);
                }
                let (_, mut session) = self.sessions.remove(i);
                session.running = false;
                assert(table_entries(self.sessions@) =~= table_entries(s0).remove(i as int));
                DestroyWatchReply { success: true, error: String::new() }
            },
            None => {
                proof {
                    self.lemma_absent(id);
                    assert(self.watches().remove(id) =~= self.watches());
                }
                DestroyWatchReply { success: false, error: owned("Session not found") }
            },
        }
    }

    /// The status of the watch with number `id`; an unknown number is
    /// reported inactive and not found.
    pub fn get_watch_status(&self, id: i64) -> (r: WatchStatusReply)
        requires
            self.wf(),
        ensures
            r.watched_paths@.len() == 0,
            self.watches().contains_key(id) ==> {
                &&& r.active == self.watches()[id].running
                &&& r.watch_count == self.watches()[id].watch_count
                &&& r.events_detected == self.watches()[id].events_detected
                &&& r.error@.len() == 0
            },
            !self.watches().contains_key(id) ==> {
                &&& !r.active
                &&& r.watch_count == 0
                &&& r.events_detected == 0
                &&& r.error@ == "Session not found"@
            },
    {
        match self.position(id) {
            Some(i) => {
                proof {
                    lemma_assoc_index(table_entries(self.sessions@), i as int);
                }
                let s = &self.sessions[i].1;
                WatchStatusReply {
                    active: s.running,
                    watch_count: s.watch_count,
                    events_detected: s.events_detected,
                    watched_paths: Vec::new(),
                    error: String::new(),
                }
            },
            None => {
                proof {
                    self.lemma_absent(id);
                }
                WatchStatusReply {
                    active: false,
                    watch_count: 0,
                    events_detected: 0,
                    watched_paths: Vec::new(),
                    error: owned("Session not found"),
                }
            },
        }
    }

    /// The watches a listing request selects, each once.
    pub fn list_watches(&self, watcher_name: &str, namespace: &str) -> (r: Vec<WatchInfo>)
        requires
            self.wf(),
        ensures
            forall|i: int| 0 <= i < r@.len() ==> {
                &&& self.watches().contains_key(#[trigger] r@[i].session_id)
                &&& listed(self.watches()[r@[i].session_id], watcher_name@, namespace@)
                &&& info_matches(r@[i], r@[i].session_id, self.watches()[r@[i].session_id])
            },
            forall|id: i64| #[trigger] self.watches().contains_key(id) && listed(self.watches()[id], watcher_name@, namespace@)
                ==> exists|i: int| 0 <= i < r@.len() && r@[i].session_id == id,
            forall|i: int, j: int| 0 <= i < j < r@.len() ==> r@[i].session_id != r@[j].session_id,
    {
        let ghost s = self.sessions@;
        let ghost e = table_entries(s);
        let ghost mut idx: Seq<int> = Seq::empty();
        let mut out: Vec<WatchInfo> = Vec::new();
        let mut k: usize = 0;
        while k < self.sessions.len()
            invariant
                s == self.sessions@,
                e == table_entries(s),
                k <= s.len(),
                idx.len() == out@.len(),
                forall|i: int| 0 <= i < idx.len() ==> 0 <= #[trigger] idx[i] < k,
                forall|i: int, i2: int| 0 <= i < i2 < idx.len() ==> idx[i] < idx[i2],
                forall|i: int| 0 <= i < idx.len() ==> listed(e[#[trigger] idx[i]].1, watcher_name@, namespace@),
                forall|i: int| 0 <= i < idx.len() ==> info_matches(#[trigger] out@[i], e[idx[i]].0, e[idx[i]].1),
                forall|j: int| 0 <= j < k && listed(#[trigger] e[j].1, watcher_name@, namespace@) ==> exists|i: int|
                    0 <= i < idx.len() && idx[i] == j,
            decreases self.sessions.len() - k,
        {
            let entry = &self.sessions[k];
            let sv = &entry.1;
            let take = (watcher_name.is_empty() || str_eq(sv.watcher_name.as_str(), watcher_name)) && (namespace.is_empty()
                || str_eq(sv.namespace.as_str(), namespace));
            assert(e[k as int] == (s[k as int].0, session_view(s[k as int].1)));
            if take {
                let ghost before = out@;
                let ghost idx0 = idx;
                out.push(
                    WatchInfo {
                        session_id: entry.0,
                        watcher_name: sv.watcher_name.clone(),
                        namespace: sv.namespace.clone(),
                        pod_name: sv.pod_name.clone(),
                        container_id: sv.container_id.clone(),
                        watch_count: sv.watch_count,
                        events_detected: sv.events_detected,
                        created_at: sv.created_at,
                    },
                );
                proof {
                    idx = idx.push(k as int);
                    assert forall|i: int| 0 <= i < idx.len() implies info_matches(#[trigger] out@[i], e[idx[i]].0, e[idx[i]].1) by {
                        if i < before.len() {
                            assert(out@[i] == before[i]);
                            assert(idx[i] == idx0[i]);
                        }
                    }
                    assert forall|j: int| 0 <= j < k + 1 && listed(#[trigger] e[j].1, watcher_name@, namespace@) implies exists|i: int|
                        0 <= i < idx.len() && idx[i] == j by {
                        if j < k {
                            let i = choose|i: int| 0 <= i < idx0.len() && idx0[i] == j;
                            assert(idx[i] == j);
                        } else {
                            assert(idx[idx0.len() as int] == j);
                        }
                    }
                }
            } else {
                proof {
                    assert(!listed(e[k as int].1, watcher_name@, namespace@));
                }
            }
            k = k + 1;
        }
        proof {
            lemma_assoc_len(e);
            assert forall|i: int| 0 <= i < out@.len() implies {
                &&& self.watches().contains_key(#[trigger] out@[i].session_id)
                &&& listed(self.watches()[out@[i].session_id], watcher_name@, namespace@)
                &&& info_matches(out@[i], out@[i].session_id, self.watches()[out@[i].session_id])
            } by {
                assert(info_matches(out@[i], e[idx[i]].0, e[idx[i]].1));
                assert(listed(e[idx[i]].1, watcher_name@, namespace@));
                lemma_assoc_index(e, idx[i]);
            }
            assert forall|id: i64| #[trigger] self.watches().contains_key(id) && listed(self.watches()[id], watcher_name@, namespace@) implies exists|i: int|
                0 <= i < out@.len() && out@[i].session_id == id by {
                lemma_assoc_contains(e, id);
                let j = choose|j: int| 0 <= j < e.len() && e[j].0 == id;
                lemma_assoc_index(e, j);
                assert(listed(e[j].1, watcher_name@, namespace@));
                let i = choose|i: int| 0 <= i < idx.len() && idx[i] == j;
                assert(info_matches(out@[i], e[idx[i]].0, e[idx[i]].1));
            }
            assert forall|i: int, i2: int| 0 <= i < i2 < out@.len() implies out@[i].session_id != out@[i2].session_id by {
                assert(info_matches(out@[i], e[idx[i]].0, e[idx[i]].1));
                assert(info_matches(out@[i2], e[idx[i2]].0, e[idx[i2]].1));
                assert(idx[i] < idx[i2]);
            }
        }
        out
    }
}

} // verus!
