//! Counters over a set of names that is fixed when they are made.

use crate::error::Error;
use crate::metrics::{is_report, CounterMap};
use vstd::prelude::*;
use vstd::string::StringExecFns;

verus! {

/// One more than `count`, going round from the largest count to the smallest.
pub open spec fn bumped(count: i64) -> i64 {
    if count == i64::MAX {
        i64::MIN
    } else {
        (count + 1) as i64
    }
}

/// `name` is one of `names`.
pub open spec fn listed(names: Seq<&'static str>, name: Seq<char>) -> bool {
    exists|i: int| 0 <= i < names.len() && (#[trigger] names[i])@ == name
}

/// Counters for the names they were made with, and for no others.
pub struct AmapMetrics {
    data: CounterMap,
}

impl View for AmapMetrics {
    type V = Map<Seq<char>, i64>;

    closed spec fn view(&self) -> Map<Seq<char>, i64> {
        self.data@
    }
}

impl AmapMetrics {
    /// The names, in the order in which they were given.
    pub closed spec fn names(&self) -> Seq<Seq<char>> {
        self.data.names()
    }

    /// The names are those that have a count, each listed once.
    pub closed spec fn well_formed(&self) -> bool {
        self.data.well_formed()
    }

    /// A counter at nothing for each of `metrics_names`. A name given twice
    /// counts once.
    pub fn new(metrics_names: &[&'static str]) -> (m: Self)
        ensures
            m.well_formed(),
            forall|k: Seq<char>| m@.contains_key(k) <==> listed(metrics_names@, k),
            forall|k: Seq<char>| m@.contains_key(k) ==> m@[k] == 0,
    {
        let mut data = CounterMap::new();
        for i in 0..metrics_names.len()
            invariant
                data.well_formed(),
                forall|k: Seq<char>| #[trigger]
                    data@.dom().contains(k) <==> exists|j: int|
                        0 <= j < i && (#[trigger] metrics_names@[j])@ == k,
                forall|k: Seq<char>| #[trigger] data@.dom().contains(k) ==> data@[k] == 0,
        {
            let name: &str = metrics_names[i];
            let ghost before = data@;
            data.set(String::from_str(name), 0);
            proof {
                assert forall|k: Seq<char>| #[trigger] data@.dom().contains(k) implies exists|j: int|
                    0 <= j < i + 1 && (#[trigger] metrics_names@[j])@ == k by {
                    if k == name@ {
                        assert(metrics_names@[i as int]@ == k);
                    } else {
                        assert(before.dom().contains(k));
                        let j = choose|j: int| 0 <= j < i && (#[trigger] metrics_names@[j])@ == k;
                        assert(metrics_names@[j]@ == k);
                    }
                }
                assert forall|k: Seq<char>|
                    (exists|j: int| 0 <= j < i + 1 && (#[trigger] metrics_names@[j])@ == k) implies #[trigger]
                    data@.dom().contains(k) by {
                    let j = choose|j: int| 0 <= j < i + 1 && (#[trigger] metrics_names@[j])@ == k;
                    if j < i {
                        assert(before.dom().contains(k));
                    }
                }
            }
        }
        let m = Self { data };
        proof {
            assert forall|k: Seq<char>| m@.contains_key(k) <==> listed(metrics_names@, k) by {
                assert(m@.contains_key(k) == data@.dom().contains(k));
            }
            assert forall|k: Seq<char>| m@.contains_key(k) implies m@[k] == 0 by {
                assert(data@.dom().contains(k));
            }
        }
        m
    }

    /// Adds one to the counter `key`. A name that the counters were not made
    /// with is refused, and nothing changes.
    pub fn inc(&mut self, key: &str) -> (r: Result<(), Error>)
        requires
            old(self).well_formed(),
        ensures
            final(self).well_formed(),
            final(self).names() == old(self).names(),
            r is Err <==> !old(self)@.contains_key(key@),
            r matches Err(e) ==> e == Error::KeyNotFound && final(self)@ == old(self)@,
            r is Ok ==> final(self)@ == old(self)@.insert(key@, bumped(old(self)@[key@])),
    {
        match self.data.get(key) {
            Some(count) => {
                let next = if count == i64::MAX {
                    i64::MIN
                } else {
                    count + 1
                };
                self.data.set(key.to_owned(), next);
                Ok(())
            },
            None => Err(Error::KeyNotFound),
        }
    }

    /// The count under `key`, if it is one of the names.
    pub fn get(&self, key: &str) -> (r: Option<i64>)
        ensures
            r == if self@.contains_key(key@) {
                Some(self@[key@])
            } else {
                None
            },
    {
        self.data.get(key)
    }

    /// A line for each counter, in the order of the names: the name, a colon
    /// and a space, the count, a line end.
    pub fn to_string(&self) -> (s: String)
        requires
            self.well_formed(),
        ensures
            is_report(s@, self@, self.names()),
    {
        self.data.report()
    }
}

} // verus!
