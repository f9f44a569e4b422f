//! Metrics: point-in-time snapshots, per-session collectors (the basic one
//! and the inotify watcher's), and the node-wide aggregate.
//!
//! Counters wrap around on overflow, as atomic additions do.
use vstd::prelude::*;
use crate::assoc::{assoc_map, keys_unique, lemma_assoc_contains, lemma_assoc_index, lemma_assoc_push, lemma_assoc_update};
use crate::text::{is_prefix, owned, starts_with, str_eq};
use crate::timing::{Instant, elapsed_secs, instant_now};

verus! {

/// `x + 1`, wrapping to zero past the largest value.
pub open spec fn wrap_inc(x: u64) -> u64 {
    if x == u64::MAX {
        0
    } else {
        (x + 1) as u64
    }
}

/// `x - 1`, wrapping to the largest value below zero.
pub open spec fn wrap_dec(x: u64) -> u64 {
    if x == 0 {
        u64::MAX
    } else {
        (x - 1) as u64
    }
}

/// Increment with wrap-around.
pub fn inc(x: u64) -> (r: u64)
    ensures
        r == wrap_inc(x),
{
    if x == u64::MAX {
        0
    } else {
        x + 1
    }
}

/// Decrement with wrap-around.
pub fn dec(x: u64) -> (r: u64)
    ensures
        r == wrap_dec(x),
{
    if x == 0 {
        u64::MAX
    } else {
        x - 1
    }
}

/// The contents of a list of named counters.
pub open spec fn counters_view(s: Seq<(String, u64)>) -> Seq<(Seq<char>, u64)> {
    s.map_values(|e: (String, u64)| (e.0@, e.1))
}

/// Index of the entry named `key`, if any.
pub fn find_counter(s: &Vec<(String, u64)>, key: &str) -> (r: Option<usize>)
    ensures
        match r {
            Some(i) => i < s@.len() && s@[i as int].0@ == key@,
            None => forall|i: int| 0 <= i < s@.len() ==> s@[i].0@ != key@,
        },
{
    let mut i: usize = 0;
    while i < s.len()
        invariant
            i <= s@.len(),
            forall|j: int| 0 <= j < i ==> s@[j].0@ != key@,
        decreases s.len() - i,
    {
        if str_eq(s[i].0.as_str(), key) {
            return Some(i);
        }
        i = i + 1;
    }
    None
}

/// Set the counter named `key` to `value`, adding it when absent.
pub fn set_counter(s: &mut Vec<(String, u64)>, key: &str, value: u64)
    requires
        keys_unique(counters_view(old(s)@)),
    ensures
        keys_unique(counters_view(final(s)@)),
        assoc_map(counters_view(final(s)@)) == assoc_map(counters_view(old(s)@)).insert(key@, value),
{
    let ghost cv = counters_view(s@);
    match find_counter(s, key) {
        Some(i) => {
            let k = s[i].0.clone();
            s.set(i, (k, value));
            proof {
                lemma_assoc_update(cv, i as int, value);
                assert(counters_view(s@) =~= cv.update(i as int, (cv[i as int].0, value)));
            }
        },
        None => {
            proof {
                lemma_assoc_contains(cv, key@);
                if assoc_map(cv).contains_key(key@) {
                    let j = choose|j: int| 0 <= j < cv.len() && cv[j].0 == key@;
                    assert(s@[j].0@ == key@);
                }
                lemma_assoc_push(cv, key@, value);
            }
            s.push((owned(key), value));
            assert(counters_view(s@) =~= cv.push((key@, value)));
        },
    }
}

/// Add one (wrapping) to the counter named `key`, adding it at one when
/// absent.
pub fn bump_counter(s: &mut Vec<(String, u64)>, key: &str)
    requires
        keys_unique(counters_view(old(s)@)),
    ensures
        keys_unique(counters_view(final(s)@)),
        assoc_map(counters_view(final(s)@)) == assoc_map(counters_view(old(s)@)).insert(
            key@,
            if assoc_map(counters_view(old(s)@)).contains_key(key@) {
                wrap_inc(assoc_map(counters_view(old(s)@))[key@])
            } else {
                1
            },
        ),
{
    let ghost cv = counters_view(s@);
    match find_counter(s, key) {
        Some(i) => {
            let k = s[i].0.clone();
            let v = inc(s[i].1);
            proof {
                lemma_assoc_index(cv, i as int);
                assert(cv[i as int].0 == key@);
            }
            s.set(i, (k, v));
            proof {
                lemma_assoc_update(cv, i as int, v);
                assert(counters_view(s@) =~= cv.update(i as int, (cv[i as int].0, v)));
            }
        },
        None => {
            proof {
                lemma_assoc_contains(cv, key@);
                if assoc_map(cv).contains_key(key@) {
                    let j = choose|j: int| 0 <= j < cv.len() && cv[j].0 == key@;
                    assert(s@[j].0@ == key@);
                }
                lemma_assoc_push(cv, key@, 1);
            }
            s.push((owned(key), 1));
            assert(counters_view(s@) =~= cv.push((key@, 1u64)));
        },
    }
}

/// A copy of a list of named counters.
pub fn clone_counters(s: &Vec<(String, u64)>) -> (r: Vec<(String, u64)>)
    ensures
        counters_view(r@) == counters_view(s@),
{
    let mut r: Vec<(String, u64)> = Vec::new();
    let mut i: usize = 0;
    while i < s.len()
        invariant
            i <= s@.len(),
            counters_view(r@) == counters_view(s@.subrange(0, i as int)),
        decreases s.len() - i,
    {
        let k = s[i].0.clone();
        r.push((k, s[i].1));
        assert(counters_view(s@.subrange(0, i as int + 1)) =~= counters_view(s@.subrange(0, i as int)).push((s@[i as int].0@, s@[i as int].1)));
        assert(counters_view(r@) =~= counters_view(s@.subrange(0, i as int)).push((s@[i as int].0@, s@[i as int].1)));
        i = i + 1;
    }
    assert(s@.subrange(0, s@.len() as int) =~= s@);
    r
}

/// Point-in-time snapshot of the metrics of one collector.
#[derive(Clone, Debug, Default)]
pub struct MetricsSnapshot {
    /// Name of the session or collector.
    pub name: String,
    /// Events processed.
    pub events_total: u64,
    /// Errors encountered.
    pub errors_total: u64,
    /// Additional named values, one per name.
    pub custom: Vec<(String, u64)>,
}

impl MetricsSnapshot {
    /// The additional named values as a map.
    pub open spec fn custom_map(&self) -> Map<Seq<char>, u64> {
        assoc_map(counters_view(self.custom@))
    }

    /// The snapshot is well formed: no name occurs twice among the
    /// additional values.
    pub open spec fn wf(&self) -> bool {
        keys_unique(counters_view(self.custom@))
    }

    /// A snapshot with the given name and all counts zero.
    pub fn new(name: &str) -> (r: Self)
        ensures
            r.name@ == name@,
            r.events_total == 0,
            r.errors_total == 0,
            r.wf(),
            r.custom_map() == Map::<Seq<char>, u64>::empty(),
    {
        let r = MetricsSnapshot { name: owned(name), events_total: 0, errors_total: 0, custom: Vec::new() };
        assert(counters_view(r.custom@) =~= Seq::<(Seq<char>, u64)>::empty());
        r
    }

    /// The snapshot with the additional value `key` set to `value`.
    pub fn with_custom(self, key: &str, value: u64) -> (r: Self)
        requires
            self.wf(),
        ensures
            r.wf(),
            r.name == self.name,
            r.events_total == self.events_total,
            r.errors_total == self.errors_total,
            r.custom_map() == self.custom_map().insert(key@, value),
    {
        let mut s = self;
        set_counter(&mut s.custom, key, value);
        s
    }

    /// The additional value named `key`, if present.
    pub fn custom_value(&self, key: &str) -> (r: Option<u64>)
        requires
            self.wf(),
        ensures
            r == (if self.custom_map().contains_key(key@) {
                Some(self.custom_map()[key@])
            } else {
                None
            }),
    {
        let ghost cv = counters_view(self.custom@);
        proof {
            lemma_assoc_contains(cv, key@);
        }
        match find_counter(&self.custom, key) {
            Some(i) => {
                proof {
                    lemma_assoc_index(cv, i as int);
                }
                Some(self.custom[i].1)
            },
            None => {
                proof {
                    if assoc_map(cv).contains_key(key@) {
                        let j = choose|j: int| 0 <= j < cv.len() && cv[j].0 == key@;
                        assert(self.custom@[j].0@ == key@);
                    }
                }
                None
            },
        }
    }
}

/// A per-session metrics collector.
///
/// Implementations count events and errors and describe themselves with a
/// snapshot.
pub trait DaemonMetrics {
    /// The collector's name.
    spec fn spec_name(&self) -> Seq<char>;

    /// The events counted.
    spec fn spec_events(&self) -> u64;

    /// The errors counted.
    spec fn spec_errors(&self) -> u64;

    /// The name of this collector (usually the session name).
    fn name(&self) -> (r: &str)
        ensures
            r@ == self.spec_name(),
    ;

    /// Events processed.
    fn events_total(&self) -> (r: u64)
        ensures
            r == self.spec_events(),
    ;

    /// Errors encountered.
    fn errors_total(&self) -> (r: u64)
        ensures
            r == self.spec_errors(),
    ;

    /// Count one event.
    fn record_event(&mut self)
        ensures
            final(self).spec_events() == wrap_inc(old(self).spec_events()),
            final(self).spec_errors() == old(self).spec_errors(),
            final(self).spec_name() == old(self).spec_name(),
    ;

    /// Count one error.
    fn record_error(&mut self)
        ensures
            final(self).spec_errors() == wrap_inc(old(self).spec_errors()),
            final(self).spec_events() == old(self).spec_events(),
            final(self).spec_name() == old(self).spec_name(),
    ;

    /// A point-in-time snapshot.
    fn snapshot(&self) -> (r: MetricsSnapshot)
        ensures
            r.name@ == self.spec_name(),
            r.events_total == self.spec_events(),
            r.errors_total == self.spec_errors(),
            r.wf(),
    ;
}

/// Event and error counters with a name.
pub struct BasicMetrics {
    name: String,
    events_total: u64,
    errors_total: u64,
}

impl BasicMetrics {
    /// New counters, at zero, with the given name.
    pub fn new(name: &str) -> (r: Self)
        ensures
            r.spec_name() == name@,
            r.spec_events() == 0,
            r.spec_errors() == 0,
    {
        BasicMetrics { name: owned(name), events_total: 0, errors_total: 0 }
    }
}

impl DaemonMetrics for BasicMetrics {
    closed spec fn spec_name(&self) -> Seq<char> {
        self.name@
    }

    closed spec fn spec_events(&self) -> u64 {
        self.events_total
    }

    closed spec fn spec_errors(&self) -> u64 {
        self.errors_total
    }

    fn name(&self) -> (r: &str) {
        self.name.as_str()
    }

    fn events_total(&self) -> (r: u64) {
        self.events_total
    }

    fn errors_total(&self) -> (r: u64) {
        self.errors_total
    }

    fn record_event(&mut self) {
        self.events_total = inc(self.events_total);
    }

    fn record_error(&mut self) {
        self.errors_total = inc(self.errors_total);
    }

    fn snapshot(&self) -> (r: MetricsSnapshot) {
        let mut s = MetricsSnapshot::new(self.name.as_str());
        s.events_total = self.events_total;
        s.errors_total = self.errors_total;
        s
    }
}

/// Aggregate totals across the sessions of a node.
#[derive(Clone, Debug)]
pub struct AggregateTotals {
    /// Node name.
    pub node_name: String,
    /// Events counted at node level.
    pub events_total: u64,
    /// Errors counted at node level.
    pub errors_total: u64,
    /// Registered sessions.
    pub active_sessions: u64,
}

/// Metrics of all sessions of a node: the registered collectors, node-level
/// event and error counts, and the number of registered sessions.
pub struct MetricsAggregator<M: DaemonMetrics> {
    node_name: String,
    collectors: Vec<M>,
    total_events: u64,
    total_errors: u64,
    active_sessions: u64,
}

impl<M: DaemonMetrics> MetricsAggregator<M> {
    /// The node name.
    pub closed spec fn spec_node(&self) -> Seq<char> {
        self.node_name@
    }

    /// The registered collectors, in registration order.
    pub closed spec fn spec_collectors(&self) -> Seq<M> {
        self.collectors@
    }

    /// Node-level event count.
    pub closed spec fn spec_total_events(&self) -> u64 {
        self.total_events
    }

    /// Node-level error count.
    pub closed spec fn spec_total_errors(&self) -> u64 {
        self.total_errors
    }

    /// Number of registered sessions.
    pub closed spec fn spec_active(&self) -> u64 {
        self.active_sessions
    }

    /// An aggregator for the given node with nothing registered.
    pub fn new(node_name: &str) -> (r: Self)
        ensures
            r.spec_node() == node_name@,
            r.spec_collectors() == Seq::<M>::empty(),
            r.spec_total_events() == 0,
            r.spec_total_errors() == 0,
            r.spec_active() == 0,
    {
        MetricsAggregator {
            node_name: owned(node_name),
            collectors: Vec::new(),
            total_events: 0,
            total_errors: 0,
            active_sessions: 0,
        }
    }

    /// The node name.
    pub fn node_name(&self) -> (r: &str)
        ensures
            r@ == self.spec_node(),
    {
        self.node_name.as_str()
    }

    /// Register the collector of a new session.
    pub fn register(&mut self, collector: M)
        ensures
            final(self).spec_collectors() == old(self).spec_collectors().push(collector),
            final(self).spec_active() == wrap_inc(old(self).spec_active()),
            final(self).spec_node() == old(self).spec_node(),
            final(self).spec_total_events() == old(self).spec_total_events(),
            final(self).spec_total_errors() == old(self).spec_total_errors(),
    {
        self.collectors.push(collector);
        self.active_sessions = inc(self.active_sessions);
    }

    /// Unregister the first collector with the given name, if there is one.
    pub fn unregister(&mut self, name: &str)
        ensures
            final(self).spec_node() == old(self).spec_node(),
            final(self).spec_total_events() == old(self).spec_total_events(),
            final(self).spec_total_errors() == old(self).spec_total_errors(),
            (forall|i: int| 0 <= i < old(self).spec_collectors().len() ==> #[trigger] old(self).spec_collectors()[i].spec_name() != name@)
                ==> final(self).spec_collectors() == old(self).spec_collectors() && final(self).spec_active() == old(self).spec_active(),
            (exists|i: int| 0 <= i < old(self).spec_collectors().len() && #[trigger] old(self).spec_collectors()[i].spec_name() == name@)
                ==> ({
                    let i = first_named(old(self).spec_collectors(), name@);
                    &&& final(self).spec_collectors() == old(self).spec_collectors().remove(i)
                    &&& final(self).spec_active() == wrap_dec(old(self).spec_active())
                }),
    {
        let mut i: usize = 0;
        while i < self.collectors.len()
            invariant
                i <= self.collectors@.len(),
                forall|j: int| 0 <= j < i ==> #[trigger] self.collectors@[j].spec_name() != name@,
                self.collectors@ == old(self).collectors@,
                self.active_sessions == old(self).active_sessions,
                self.node_name == old(self).node_name,
                self.total_events == old(self).total_events,
                self.total_errors == old(self).total_errors,
            decreases self.collectors.len() - i,
        {
            if str_eq(self.collectors[i].name(), name) {
                proof {
                    let s = self.collectors@;
                    assert(s[i as int].spec_name() == name@);
                    assert(first_named(s, name@) == i) by {
                        lemma_first_named(s, name@, i as int);
                    }
                }
                self.collectors.remove(i);
                self.active_sessions = dec(self.active_sessions);
                return;
            }
            i = i + 1;
        }
    }

    /// Count one event at node level.
    pub fn record_event(&mut self)
        ensures
            final(self).spec_total_events() == wrap_inc(old(self).spec_total_events()),
            final(self).spec_total_errors() == old(self).spec_total_errors(),
            final(self).spec_collectors() == old(self).spec_collectors(),
            final(self).spec_active() == old(self).spec_active(),
            final(self).spec_node() == old(self).spec_node(),
    {
        self.total_events = inc(self.total_events);
    }

    /// Count one error at node level.
    pub fn record_error(&mut self)
        ensures
            final(self).spec_total_errors() == wrap_inc(old(self).spec_total_errors()),
            final(self).spec_total_events() == old(self).spec_total_events(),
            final(self).spec_collectors() == old(self).spec_collectors(),
            final(self).spec_active() == old(self).spec_active(),
            final(self).spec_node() == old(self).spec_node(),
    {
        self.total_errors = inc(self.total_errors);
    }

    /// The node-level totals.
    pub fn totals(&self) -> (r: AggregateTotals)
        ensures
            r.node_name@ == self.spec_node(),
            r.events_total == self.spec_total_events(),
            r.errors_total == self.spec_total_errors(),
            r.active_sessions == self.spec_active(),
    {
        AggregateTotals {
            node_name: self.node_name.clone(),
            events_total: self.total_events,
            errors_total: self.total_errors,
            active_sessions: self.active_sessions,
        }
    }

    /// A snapshot of every registered collector, in registration order.
    pub fn collect_all(&self) -> (r: Vec<MetricsSnapshot>)
        ensures
            r@.len() == self.spec_collectors().len(),
            forall|i: int| 0 <= i < r@.len() ==> {
                &&& (#[trigger] r@[i]).name@ == self.spec_collectors()[i].spec_name()
                &&& r@[i].events_total == self.spec_collectors()[i].spec_events()
                &&& r@[i].errors_total == self.spec_collectors()[i].spec_errors()
                &&& r@[i].wf()
            },
    {
        let mut r: Vec<MetricsSnapshot> = Vec::new();
        let mut i: usize = 0;
        while i < self.collectors.len()
            invariant
                i <= self.collectors@.len(),
                r@.len() == i,
                forall|j: int| 0 <= j < i ==> {
                    &&& (#[trigger] r@[j]).name@ == self.collectors@[j].spec_name()
                    &&& r@[j].events_total == self.collectors@[j].spec_events()
                    &&& r@[j].errors_total == self.collectors@[j].spec_errors()
                    &&& r@[j].wf()
                },
            decreases self.collectors.len() - i,
        {
            r.push(self.collectors[i].snapshot());
            i = i + 1;
        }
        r
    }

    /// Snapshots of the collectors whose name begins with `name_filter`
    /// (all of them without a filter), in registration order.
    pub fn collect_filtered(&self, name_filter: Option<&str>) -> (r: Vec<MetricsSnapshot>)
        ensures
            r@.map_values(|s: MetricsSnapshot| s.name@) == self.spec_collectors().filter(
                |c: M| name_passes(c.spec_name(), opt_str_view(name_filter)),
            ).map_values(|c: M| c.spec_name()),
    {
        let ghost f = opt_str_view(name_filter);
        let ghost pred = |c: M| name_passes(c.spec_name(), f);
        let mut r: Vec<MetricsSnapshot> = Vec::new();
        let mut i: usize = 0;
        while i < self.collectors.len()
            invariant
                i <= self.collectors@.len(),
                f == opt_str_view(name_filter),
                pred == (|c: M| name_passes(c.spec_name(), f)),
                r@.map_values(|s: MetricsSnapshot| s.name@) == self.collectors@.subrange(0, i as int).filter(
                    pred,
                ).map_values(|c: M| c.spec_name()),
            decreases self.collectors.len() - i,
        {
            let ghost before = r@;
            let keep = match name_filter {
                Some(p) => starts_with(self.collectors[i].name(), p),
                None => true,
            };
            proof {
                let s = self.collectors@;
                assert(s.subrange(0, i as int + 1).drop_last() =~= s.subrange(0, i as int));
                reveal_with_fuel(Seq::filter, 1);
                assert(keep == pred(s[i as int]));
            }
            if keep {
                let snap = self.collectors[i].snapshot();
                r.push(snap);
                assert(r@.map_values(|s: MetricsSnapshot| s.name@) =~= before.map_values(|s: MetricsSnapshot| s.name@).push(snap.name@));
            }
            i = i + 1;
        }
        assert(self.collectors@.subrange(0, self.collectors@.len() as int) =~= self.collectors@);
        r
    }

    /// Number of registered sessions.
    pub fn active_sessions(&self) -> (r: u64)
        ensures
            r == self.spec_active(),
    {
        self.active_sessions
    }
}

/// The contents of an optional string slice.
pub open spec fn opt_str_view(o: Option<&str>) -> Option<Seq<char>> {
    match o {
        Some(s) => Some(s@),
        None => None,
    }
}

/// A collector name passes a name filter when there is no filter or the
/// name begins with it.
pub open spec fn name_passes(name: Seq<char>, filter: Option<Seq<char>>) -> bool {
    match filter {
        Some(p) => is_prefix(p, name),
        None => true,
    }
}

/// Index of the first collector with the given name.
pub open spec fn first_named<M: DaemonMetrics>(s: Seq<M>, name: Seq<char>) -> int {
    choose|i: int| 0 <= i < s.len() && s[i].spec_name() == name && forall|j: int| 0 <= j < i ==> #[trigger] s[j].spec_name() != name
}

proof fn lemma_first_named<M: DaemonMetrics>(s: Seq<M>, name: Seq<char>, i: int)
    requires
        0 <= i < s.len(),
        s[i].spec_name() == name,
        forall|j: int| 0 <= j < i ==> #[trigger] s[j].spec_name() != name,
    ensures
        first_named(s, name) == i,
{
    let k = first_named(s, name);
    assert(0 <= k < s.len() && s[k].spec_name() == name && forall|j: int| 0 <= j < k ==> #[trigger] s[j].spec_name() != name);
    if k < i {
        assert(s[k].spec_name() != name);
    } else if k > i {
        assert(s[i].spec_name() != name);
    }
}

/// Metrics of one inotify watcher: events by type, watch descriptors added
/// and removed, queue overflows, and rename pairing outcomes.
pub struct WatcherMetrics {
    watcher_name: String,
    events_total: u64,
    events_by_type: Vec<(String, u64)>,
    watches_active: u64,
    watches_created: u64,
    watches_removed: u64,
    errors_total: u64,
    queue_overflows: u64,
    move_pairs_matched: u64,
    move_pairs_timeout: u64,
    start_time: Instant,
}

/// The counter values of a watcher's metrics.
pub struct WatcherCounts {
    pub events_total: u64,
    pub watches_active: u64,
    pub watches_created: u64,
    pub watches_removed: u64,
    pub errors_total: u64,
    pub queue_overflows: u64,
    pub move_pairs_matched: u64,
    pub move_pairs_timeout: u64,
}

impl WatcherMetrics {
    /// The counters.
    pub closed spec fn counts(&self) -> WatcherCounts {
        WatcherCounts {
            events_total: self.events_total,
            watches_active: self.watches_active,
            watches_created: self.watches_created,
            watches_removed: self.watches_removed,
            errors_total: self.errors_total,
            queue_overflows: self.queue_overflows,
            move_pairs_matched: self.move_pairs_matched,
            move_pairs_timeout: self.move_pairs_timeout,
        }
    }

    /// Events counted per event type.
    pub closed spec fn by_type(&self) -> Map<Seq<char>, u64> {
        assoc_map(counters_view(self.events_by_type@))
    }

    /// The watcher's name.
    pub closed spec fn watcher(&self) -> Seq<char> {
        self.watcher_name@
    }

    /// The per-type counts are kept one per type.
    #[verifier::type_invariant]
    closed spec fn wf(&self) -> bool {
        keys_unique(counters_view(self.events_by_type@))
    }

    /// New metrics, all at zero, for the named watcher.
    pub fn new(watcher_name: &str) -> (r: Self)
        ensures
            r.watcher() == watcher_name@,
            r.by_type() == Map::<Seq<char>, u64>::empty(),
            r.counts() == (WatcherCounts {
                events_total: 0,
                watches_active: 0,
                watches_created: 0,
                watches_removed: 0,
                errors_total: 0,
                queue_overflows: 0,
                move_pairs_matched: 0,
                move_pairs_timeout: 0,
            }),
    {
        let r = WatcherMetrics {
            watcher_name: owned(watcher_name),
            events_total: 0,
            events_by_type: Vec::new(),
            watches_active: 0,
            watches_created: 0,
            watches_removed: 0,
            errors_total: 0,
            queue_overflows: 0,
            move_pairs_matched: 0,
            move_pairs_timeout: 0,
            start_time: instant_now(),
        };
        assert(counters_view(r.events_by_type@) =~= Seq::<(Seq<char>, u64)>::empty());
        r
    }

    /// Count one event of the given type.
    pub fn record_event_typed(&mut self, event_type: &str)
        ensures
            final(self).watcher() == old(self).watcher(),
            final(self).counts() == (WatcherCounts { events_total: wrap_inc(old(self).counts().events_total), ..old(self).counts() }),
            final(self).by_type() == old(self).by_type().insert(
                event_type@,
                if old(self).by_type().contains_key(event_type@) {
                    wrap_inc(old(self).by_type()[event_type@])
                } else {
                    1
                },
            ),
    {
        proof {
            use_type_invariant(&*self);
        }
        self.events_total = inc(self.events_total);
        let mut v: Vec<(String, u64)> = Vec::new();
        assert(counters_view(v@) =~= Seq::<(Seq<char>, u64)>::empty());
        std::mem::swap(&mut v, &mut self.events_by_type);
        bump_counter(&mut v, event_type);
        self.events_by_type = v;
    }

    /// Count a watch descriptor added.
    pub fn record_watch_added(&mut self)
        ensures
            final(self).watcher() == old(self).watcher(),
            final(self).by_type() == old(self).by_type(),
            final(self).counts() == (WatcherCounts {
                watches_active: wrap_inc(old(self).counts().watches_active),
                watches_created: wrap_inc(old(self).counts().watches_created),
                ..old(self).counts()
            }),
    {
        proof {
            use_type_invariant(&*self);
        }
        self.watches_active = inc(self.watches_active);
        self.watches_created = inc(self.watches_created);
    }

    /// Count a watch descriptor removed.
    pub fn record_watch_removed(&mut self)
        ensures
            final(self).watcher() == old(self).watcher(),
            final(self).by_type() == old(self).by_type(),
            final(self).counts() == (WatcherCounts {
                watches_active: wrap_dec(old(self).counts().watches_active),
                watches_removed: wrap_inc(old(self).counts().watches_removed),
                ..old(self).counts()
            }),
    {
        proof {
            use_type_invariant(&*self);
        }
        self.watches_active = dec(self.watches_active);
        self.watches_removed = inc(self.watches_removed);
    }

    /// Set the number of active watch descriptors.
    pub fn set_watches_active(&mut self, count: u64)
        ensures
            final(self).watcher() == old(self).watcher(),
            final(self).by_type() == old(self).by_type(),
            final(self).counts() == (WatcherCounts { watches_active: count, ..old(self).counts() }),
    {
        proof {
            use_type_invariant(&*self);
        }
        self.watches_active = count;
    }

    /// Count a queue overflow; it is also counted as an event of type
    /// `overflow`.
    pub fn record_queue_overflow(&mut self)
        ensures
            final(self).watcher() == old(self).watcher(),
            final(self).counts() == (WatcherCounts {
                queue_overflows: wrap_inc(old(self).counts().queue_overflows),
                events_total: wrap_inc(old(self).counts().events_total),
                ..old(self).counts()
            }),
            final(self).by_type() == old(self).by_type().insert(
                "overflow"@,
                if old(self).by_type().contains_key("overflow"@) {
                    wrap_inc(old(self).by_type()["overflow"@])
                } else {
                    1
                },
            ),
    {
        proof {
            use_type_invariant(&*self);
        }
        self.queue_overflows = inc(self.queue_overflows);
        self.record_event_typed("overflow");
    }

    /// Count a matched rename pair.
    pub fn record_move_pair_matched(&mut self)
        ensures
            final(self).watcher() == old(self).watcher(),
            final(self).by_type() == old(self).by_type(),
            final(self).counts() == (WatcherCounts {
                move_pairs_matched: wrap_inc(old(self).counts().move_pairs_matched),
                ..old(self).counts()
            }),
    {
        proof {
            use_type_invariant(&*self);
        }
        self.move_pairs_matched = inc(self.move_pairs_matched);
    }

    /// Count a rename half that found no pair in time.
    pub fn record_move_pair_timeout(&mut self)
        ensures
            final(self).watcher() == old(self).watcher(),
            final(self).by_type() == old(self).by_type(),
            final(self).counts() == (WatcherCounts {
                move_pairs_timeout: wrap_inc(old(self).counts().move_pairs_timeout),
                ..old(self).counts()
            }),
    {
        proof {
            use_type_invariant(&*self);
        }
        self.move_pairs_timeout = inc(self.move_pairs_timeout);
    }

    /// Active watch descriptors.
    pub fn watches_active(&self) -> (r: u64)
        ensures
            r == self.counts().watches_active,
    {
        self.watches_active
    }

    /// Reset every counter to zero and forget the per-type counts.
    pub fn reset(&mut self)
        ensures
            final(self).watcher() == old(self).watcher(),
            final(self).by_type() == Map::<Seq<char>, u64>::empty(),
            final(self).counts() == (WatcherCounts {
                events_total: 0,
                watches_active: 0,
                watches_created: 0,
                watches_removed: 0,
                errors_total: 0,
                queue_overflows: 0,
                move_pairs_matched: 0,
                move_pairs_timeout: 0,
            }),
    {
        proof {
            use_type_invariant(&*self);
        }
        self.events_total = 0;
        let v: Vec<(String, u64)> = Vec::new();
        assert(counters_view(v@) =~= Seq::<(Seq<char>, u64)>::empty());
        self.events_by_type = v;
        self.watches_active = 0;
        self.watches_created = 0;
        self.watches_removed = 0;
        self.errors_total = 0;
        self.queue_overflows = 0;
        self.move_pairs_matched = 0;
        self.move_pairs_timeout = 0;
    }

    /// A snapshot: the per-type counts and the watcher counters under their
    /// names (`watches_active`, `watches_created`, `watches_removed`,
    /// `queue_overflows`, `move_pairs_matched`, `move_pairs_timeout`), and
    /// the seconds since the metrics were created as `uptime_seconds`.
    pub fn typed_snapshot(&self) -> (r: MetricsSnapshot)
        ensures
            r.wf(),
            r.name@ == self.watcher(),
            r.events_total == self.counts().events_total,
            r.errors_total == self.counts().errors_total,
            r.custom_map().remove("uptime_seconds"@) == self.by_type().insert("watches_active"@, self.counts().watches_active)
                .insert("watches_created"@, self.counts().watches_created)
                .insert("watches_removed"@, self.counts().watches_removed)
                .insert("queue_overflows"@, self.counts().queue_overflows)
                .insert("move_pairs_matched"@, self.counts().move_pairs_matched)
                .insert("move_pairs_timeout"@, self.counts().move_pairs_timeout)
                .remove("uptime_seconds"@),
            r.custom_map().contains_key("uptime_seconds"@),
    {
        let mut s = MetricsSnapshot::new(self.watcher_name.as_str());
        s.events_total = self.events_total;
        s.errors_total = self.errors_total;
        proof {
            use_type_invariant(self);
        }
        s.custom = clone_counters(&self.events_by_type);
        s = s.with_custom("watches_active", self.watches_active);
        s = s.with_custom("watches_created", self.watches_created);
        s = s.with_custom("watches_removed", self.watches_removed);
        s = s.with_custom("queue_overflows", self.queue_overflows);
        s = s.with_custom("move_pairs_matched", self.move_pairs_matched);
        s = s.with_custom("move_pairs_timeout", self.move_pairs_timeout);
        let ghost before_uptime = s.custom_map();
        let up = elapsed_secs(&self.start_time);
        s = s.with_custom("uptime_seconds", up);
        assert(s.custom_map().remove("uptime_seconds"@) =~= before_uptime.remove("uptime_seconds"@));
        s
    }
}

impl DaemonMetrics for WatcherMetrics {
    open spec fn spec_name(&self) -> Seq<char> {
        self.watcher()
    }

    open spec fn spec_events(&self) -> u64 {
        self.counts().events_total
    }

    open spec fn spec_errors(&self) -> u64 {
        self.counts().errors_total
    }

    fn name(&self) -> (r: &str) {
        self.watcher_name.as_str()
    }

    fn events_total(&self) -> (r: u64) {
        self.events_total
    }

    fn errors_total(&self) -> (r: u64) {
        self.errors_total
    }

    fn record_event(&mut self) {
        proof {
            use_type_invariant(&*self);
        }
        self.events_total = inc(self.events_total);
    }

    fn record_error(&mut self) {
        proof {
            use_type_invariant(&*self);
        }
        self.errors_total = inc(self.errors_total);
    }

    fn snapshot(&self) -> (r: MetricsSnapshot) {
        self.typed_snapshot()
    }
}


/// Counting a watch added and then removed leaves the active count where
/// it was, and counts one creation and one removal.
pub proof fn law_added_then_removed(c: WatcherCounts)
    ensures
        wrap_dec(wrap_inc(c.watches_active)) == c.watches_active,
{
}


/// The counters after `record_watch_added` (`true`) or
/// `record_watch_removed` (`false`), as those functions state them.
pub open spec fn watch_step(c: WatcherCounts, added: bool) -> WatcherCounts {
    if added {
        WatcherCounts {
            watches_active: wrap_inc(c.watches_active),
            watches_created: wrap_inc(c.watches_created),
            ..c
        }
    } else {
        WatcherCounts {
            watches_active: wrap_dec(c.watches_active),
            watches_removed: wrap_inc(c.watches_removed),
            ..c
        }
    }
}

/// The counters after a run of watch additions and removals.
pub open spec fn watch_steps(c: WatcherCounts, ops: Seq<bool>) -> WatcherCounts
    decreases ops.len(),
{
    if ops.len() == 0 {
        c
    } else {
        watch_step(watch_steps(c, ops.drop_last()), ops.last())
    }
}

/// How many of a run of operations are additions.
pub open spec fn additions(ops: Seq<bool>) -> nat
    decreases ops.len(),
{
    if ops.len() == 0 {
        0
    } else {
        additions(ops.drop_last()) + if ops.last() {
            1nat
        } else {
            0nat
        }
    }
}

proof fn lemma_watch_steps(c: WatcherCounts, ops: Seq<bool>)
    requires
        c.watches_active == 0,
        c.watches_created == 0,
        c.watches_removed == 0,
        ops.len() < 0x1_0000_0000_0000_0000,
    ensures
        watch_steps(c, ops).watches_created == additions(ops),
        watch_steps(c, ops).watches_removed == ops.len() - additions(ops),
        watch_steps(c, ops).watches_active as int == (additions(ops) - (ops.len() - additions(ops)))
            % 0x1_0000_0000_0000_0000,
        additions(ops) <= ops.len(),
    decreases ops.len(),
{
    if ops.len() > 0 {
        let d = ops.drop_last();
        lemma_watch_steps(c, d);
        let a = additions(d) as int;
        let r = d.len() - a;
        let x = watch_steps(c, d).watches_active as int;
        if ops.last() {
            assert(x == (a - r) % 0x1_0000_0000_0000_0000);
            assert(wrap_inc(x as u64) as int == (a + 1 - r) % 0x1_0000_0000_0000_0000) by {
                vstd::arithmetic::div_mod::lemma_add_mod_noop(a - r, 1, 0x1_0000_0000_0000_0000);
                vstd::arithmetic::div_mod::lemma_small_mod(1, 0x1_0000_0000_0000_0000);
                if x + 1 < 0x1_0000_0000_0000_0000 {
                    vstd::arithmetic::div_mod::lemma_small_mod((x + 1) as nat, 0x1_0000_0000_0000_0000);
                } else {
                    vstd::arithmetic::div_mod::lemma_mod_self_0(0x1_0000_0000_0000_0000);
                }
            }
        } else {
            assert(wrap_dec(x as u64) as int == (a - (r + 1)) % 0x1_0000_0000_0000_0000) by {
                vstd::arithmetic::div_mod::lemma_sub_mod_noop(a - r, 1, 0x1_0000_0000_0000_0000);
                vstd::arithmetic::div_mod::lemma_small_mod(1, 0x1_0000_0000_0000_0000);
                if x > 0 {
                    vstd::arithmetic::div_mod::lemma_small_mod((x - 1) as nat, 0x1_0000_0000_0000_0000);
                } else {
                    vstd::arithmetic::div_mod::lemma_mod_self_0(0x1_0000_0000_0000_0000);
                    vstd::arithmetic::div_mod::lemma_fundamental_div_mod(-1, 0x1_0000_0000_0000_0000);
                    vstd::arithmetic::div_mod::lemma_mod_add_multiples_vanish(-1, 0x1_0000_0000_0000_0000);
                }
            }
        }
    }
}

/// Starting from fresh counters, after any run of watch additions and no
/// more removals than additions (fewer than 2^64 calls in all), the active
/// gauge is the number created minus the number removed.
pub proof fn law_active_is_created_minus_removed(c: WatcherCounts, ops: Seq<bool>)
    requires
        c.watches_active == 0,
        c.watches_created == 0,
        c.watches_removed == 0,
        ops.len() < 0x1_0000_0000_0000_0000,
        ops.len() - additions(ops) <= additions(ops),
    ensures
        watch_steps(c, ops).watches_active == watch_steps(c, ops).watches_created - watch_steps(c, ops).watches_removed,
        watch_steps(c, ops).watches_created == additions(ops),
{
    lemma_watch_steps(c, ops);
    let k = additions(ops) as int;
    let j = ops.len() - k;
    vstd::arithmetic::div_mod::lemma_small_mod((k - j) as nat, 0x1_0000_0000_0000_0000);
}


proof fn lemma_states_follow(ms: Seq<WatcherMetrics>, ops: Seq<bool>, k: int)
    requires
        ms.len() == ops.len() + 1,
        forall|i: int| 0 <= i < ops.len() ==> #[trigger] ms[i + 1].counts() == watch_step(ms[i].counts(), ops[i]),
        0 <= k <= ops.len(),
    ensures
        ms[k].counts() == watch_steps(ms[0].counts(), ops.subrange(0, k)),
    decreases k,
{
    if k > 0 {
        lemma_states_follow(ms, ops, k - 1);
        assert(ops.subrange(0, k).drop_last() =~= ops.subrange(0, k - 1));
        assert(ops.subrange(0, k).last() == ops[k - 1]);
        assert(ms[(k - 1) + 1].counts() == watch_step(ms[k - 1].counts(), ops[k - 1]));
    } else {
        assert(ops.subrange(0, 0) =~= Seq::<bool>::empty());
    }
}

/// Watch metrics that start fresh and then go through `record_watch_added`
/// (`true`) and `record_watch_removed` (`false`) calls in any order, with
/// no more removals than additions (fewer than 2^64 calls in all): after
/// them the active gauge is the number of additions minus the number of
/// removals, which are the created and removed counters.
pub proof fn law_active_gauge_over_calls(ms: Seq<WatcherMetrics>, ops: Seq<bool>)
    requires
        ms.len() == ops.len() + 1,
        ms[0].counts().watches_active == 0,
        ms[0].counts().watches_created == 0,
        ms[0].counts().watches_removed == 0,
        forall|i: int| 0 <= i < ops.len() ==> #[trigger] ms[i + 1].counts() == watch_step(ms[i].counts(), ops[i]),
        ops.len() < 0x1_0000_0000_0000_0000,
        ops.len() - additions(ops) <= additions(ops),
    ensures
        ms.last().counts().watches_created == additions(ops),
        ms.last().counts().watches_removed == ops.len() - additions(ops),
        ms.last().counts().watches_active == additions(ops) - (ops.len() - additions(ops)),
        ms.last().counts().watches_active == ms.last().counts().watches_created - ms.last().counts().watches_removed,
{
    lemma_states_follow(ms, ops, ops.len() as int);
    assert(ops.subrange(0, ops.len() as int) =~= ops);
    assert(ms.last() == ms[ops.len() as int]);
    lemma_watch_steps(ms[0].counts(), ops);
    law_active_is_created_minus_removed(ms[0].counts(), ops);
}


/// What `collect_filtered` returns, by name (its `ensures`), has exactly
/// the collectors whose names begin with the filter: every name returned
/// has the filter as a prefix, and every collector whose name has it is
/// returned; without a filter every collector is returned, in order.
pub proof fn law_filtered_by_prefix<M: DaemonMetrics>(a: MetricsAggregator<M>, filter: Option<Seq<char>>, names: Seq<Seq<char>>)
    requires
        names == a.spec_collectors().filter(|c: M| name_passes(c.spec_name(), filter)).map_values(|c: M| c.spec_name()),
    ensures
        filter matches Some(p) ==> forall|i: int| 0 <= i < names.len() ==> p.is_prefix_of(#[trigger] names[i]),
        filter matches Some(p) ==> forall|j: int|
            0 <= j < a.spec_collectors().len() && p.is_prefix_of(#[trigger] a.spec_collectors()[j].spec_name())
                ==> names.contains(a.spec_collectors()[j].spec_name()),
        filter is None ==> names == a.spec_collectors().map_values(|c: M| c.spec_name()),
{
    let s = a.spec_collectors();
    let pred = |c: M| name_passes(c.spec_name(), filter);
    let fs = s.filter(pred);
    assert(names.len() == fs.len());
    assert forall|i: int| 0 <= i < fs.len() implies #[trigger] pred(fs[i]) by {
        s.lemma_filter_pred(pred, i);
    }
    if let Some(p) = filter {
        assert forall|i: int| 0 <= i < names.len() implies p.is_prefix_of(#[trigger] names[i]) by {
            assert(names[i] == fs[i].spec_name());
            assert(pred(fs[i]));
            assert(names[i].subrange(0, p.len() as int) =~= p);
        }
        assert forall|j: int|
            0 <= j < s.len() && p.is_prefix_of(#[trigger] s[j].spec_name()) implies names.contains(s[j].spec_name()) by {
            assert(pred(s[j])) by {
                assert(s[j].spec_name().subrange(0, p.len() as int) =~= p);
            }
            s.lemma_filter_contains(pred, j);
            let k = choose|k: int| 0 <= k < fs.len() && fs[k] == s[j];
            assert(names[k] == s[j].spec_name());
        }
    } else {
        assert(fs =~= s) by {
            lemma_filter_all(s, pred);
        }
        assert(names =~= s.map_values(|c: M| c.spec_name()));
    }
}

proof fn lemma_filter_all<A>(s: Seq<A>, pred: spec_fn(A) -> bool)
    requires
        forall|x: A| #[trigger] pred(x),
    ensures
        s.filter(pred) == s,
    decreases s.len(),
{
    reveal_with_fuel(Seq::filter, 1);
    if s.len() > 0 {
        lemma_filter_all(s.drop_last(), pred);
        assert(s.drop_last().push(s.last()) =~= s);
    } else {
        assert(s.filter(pred) =~= s);
    }
}

} // verus!
