//! Filters that stream subscribers put on the events they receive.
use vstd::prelude::*;
use crate::notify::{clone_strings, opt_view, strings_view};
use crate::text::{owned, str_eq};

verus! {

/// Events a stream filter can judge.
pub trait Filterable {
    /// The name the event belongs to (a watcher or guard name).
    spec fn spec_filter_name(&self) -> Seq<char>;

    /// The namespace the event belongs to.
    spec fn spec_filter_namespace(&self) -> Seq<char>;

    /// The event type's name.
    spec fn spec_filter_event_type(&self) -> Seq<char>;

    /// The name the event belongs to.
    fn filter_name(&self) -> (r: &str)
        ensures
            r@ == self.spec_filter_name(),
    ;

    /// The namespace the event belongs to.
    fn filter_namespace(&self) -> (r: &str)
        ensures
            r@ == self.spec_filter_namespace(),
    ;

    /// The event type's name.
    fn filter_event_type(&self) -> (r: String)
        ensures
            r@ == self.spec_filter_event_type(),
    ;
}

/// Conditions on events, all of which must hold: the name, the namespace,
/// and one of the event types (no types: any type).
#[derive(Debug)]
pub struct StreamFilter {
    /// Required name.
    pub name: Option<String>,
    /// Required namespace.
    pub namespace: Option<String>,
    /// Accepted event types; empty accepts all.
    pub event_types: Vec<String>,
}

/// A value meets an optional exact requirement.
pub open spec fn meets(value: Seq<char>, required: Option<Seq<char>>) -> bool {
    match required {
        Some(p) => value == p,
        None => true,
    }
}

/// An event with this name, namespace and type passes the filter with
/// these conditions.
pub open spec fn filter_admits(
    name: Option<Seq<char>>,
    namespace: Option<Seq<char>>,
    types: Seq<Seq<char>>,
    event_name: Seq<char>,
    event_namespace: Seq<char>,
    event_type: Seq<char>,
) -> bool {
    &&& meets(event_name, name)
    &&& meets(event_namespace, namespace)
    &&& (types.len() == 0 || types.contains(event_type))
}

impl StreamFilter {
    /// The filter's conditions by contents.
    pub open spec fn admits(&self, event_name: Seq<char>, event_namespace: Seq<char>, event_type: Seq<char>) -> bool {
        filter_admits(opt_view(self.name), opt_view(self.namespace), strings_view(self.event_types@), event_name, event_namespace, event_type)
    }

    /// A filter with no conditions.
    pub fn new() -> (r: Self)
        ensures
            r.name is None,
            r.namespace is None,
            r.event_types@.len() == 0,
    {
        StreamFilter { name: None, namespace: None, event_types: Vec::new() }
    }

    /// The filter, requiring the name.
    pub fn with_name(self, name: &str) -> (r: Self)
        ensures
            opt_view(r.name) == Some(name@),
            opt_view(r.namespace) == opt_view(self.namespace),
            strings_view(r.event_types@) == strings_view(self.event_types@),
    {
        StreamFilter { name: Some(owned(name)), namespace: self.namespace, event_types: self.event_types }
    }

    /// The filter, requiring the namespace.
    pub fn with_namespace(self, namespace: &str) -> (r: Self)
        ensures
            opt_view(r.namespace) == Some(namespace@),
            opt_view(r.name) == opt_view(self.name),
            strings_view(r.event_types@) == strings_view(self.event_types@),
    {
        StreamFilter { name: self.name, namespace: Some(owned(namespace)), event_types: self.event_types }
    }

    /// The filter, accepting only these event types (none: all).
    pub fn with_event_types(self, types: Vec<String>) -> (r: Self)
        ensures
            strings_view(r.event_types@) == strings_view(types@),
            opt_view(r.name) == opt_view(self.name),
            opt_view(r.namespace) == opt_view(self.namespace),
    {
        StreamFilter { name: self.name, namespace: self.namespace, event_types: types }
    }

    /// Whether the event passes every condition.
    pub fn matches<E: Filterable>(&self, event: &E) -> (r: bool)
        ensures
            r == self.admits(event.spec_filter_name(), event.spec_filter_namespace(), event.spec_filter_event_type()),
    {
        match &self.name {
            Some(n) => {
                if !str_eq(event.filter_name(), n.as_str()) {
                    return false;
                }
            },
            None => {},
        }
        match &self.namespace {
            Some(ns) => {
                if !str_eq(event.filter_namespace(), ns.as_str()) {
                    return false;
                }
            },
            None => {},
        }
        if self.event_types.len() > 0 {
            let t = event.filter_event_type();
            let ghost types = strings_view(self.event_types@);
            let mut i: usize = 0;
            while i < self.event_types.len()
                invariant
                    types == strings_view(self.event_types@),
                    i <= self.event_types@.len(),
                    t@ == event.spec_filter_event_type(),
                    meets(event.spec_filter_name(), opt_view(self.name)),
                    meets(event.spec_filter_namespace(), opt_view(self.namespace)),
                    forall|j: int| 0 <= j < i ==> #[trigger] types[j] != t@,
                decreases self.event_types.len() - i,
            {
                if str_eq(self.event_types[i].as_str(), t.as_str()) {
                    assert(types[i as int] == t@);
                    return true;
                }
                i = i + 1;
            }
            assert(!types.contains(t@));
            return false;
        }
        true
    }

    /// Whether the filter has no condition.
    pub fn is_empty(&self) -> (r: bool)
        ensures
            r == (self.name is None && self.namespace is None && self.event_types@.len() == 0),
    {
        self.name.is_none() && self.namespace.is_none() && self.event_types.len() == 0
    }

    /// A copy of the filter.
    pub fn duplicate(&self) -> (r: Self)
        ensures
            opt_view(r.name) == opt_view(self.name),
            opt_view(r.namespace) == opt_view(self.namespace),
            strings_view(r.event_types@) == strings_view(self.event_types@),
    {
        StreamFilter {
            name: match &self.name {
                Some(n) => Some(n.clone()),
                None => None,
            },
            namespace: match &self.namespace {
                Some(n) => Some(n.clone()),
                None => None,
            },
            event_types: clone_strings(&self.event_types),
        }
    }
}

/// A filter without conditions passes every event.
pub proof fn law_empty_filter_passes_all(f: StreamFilter, event_name: Seq<char>, event_namespace: Seq<char>, event_type: Seq<char>)
    requires
        f.name is None,
        f.namespace is None,
        f.event_types@.len() == 0,
    ensures
        f.admits(event_name, event_namespace, event_type),
{
}

/// Adding a condition never lets more events pass: an event that passes
/// with a name, a namespace or event types required also passes without
/// that requirement.
pub proof fn law_conditions_narrow(
    name: Option<Seq<char>>,
    namespace: Option<Seq<char>>,
    types: Seq<Seq<char>>,
    event_name: Seq<char>,
    event_namespace: Seq<char>,
    event_type: Seq<char>,
)
    requires
        filter_admits(name, namespace, types, event_name, event_namespace, event_type),
    ensures
        filter_admits(None, namespace, types, event_name, event_namespace, event_type),
        filter_admits(name, None, types, event_name, event_namespace, event_type),
        filter_admits(name, namespace, Seq::<Seq<char>>::empty(), event_name, event_namespace, event_type),
{
}

} // verus!
