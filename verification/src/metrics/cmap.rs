//! Counters kept in a concurrent map.

use crate::error::Error;
use crate::metrics::{count_of, counts_shown_as, is_report, lemma_lines_agree, line, lines};
use crate::render::views;
use dashmap::DashMap;
use vstd::prelude::*;
use vstd::string::to_string_from_display_ensures;
use vstd::string::StringExecFns;

verus! {

/// The concurrent map (`dashmap::DashMap`).
#[verifier::external_type_specification]
#[verifier::external_body]
#[verifier::reject_recursive_types(K)]
#[verifier::reject_recursive_types(V)]
#[verifier::reject_recursive_types(S)]
pub struct ExDashMap<K, V, S>(DashMap<K, V, S>);

/// What a map of counters holds: the count under each name.
pub uninterp spec fn dash_counts(map: DashMap<String, i64>) -> Map<Seq<char>, i64>;

/// `entries` lists `table`: every name once, each with its count.
pub open spec fn is_listing(entries: Seq<(String, i64)>, table: Map<Seq<char>, i64>) -> bool {
    &&& forall|i: int|
        0 <= i < entries.len() ==> table.contains_key((#[trigger] entries[i]).0@) && table[entries[i].0@]
            == entries[i].1
    &&& forall|i: int, j: int|
        0 <= i < j < entries.len() ==> (#[trigger] entries[i]).0@ != (#[trigger] entries[j]).0@
    &&& forall|k: Seq<char>| #[trigger]
        table.contains_key(k) ==> exists|i: int|
            0 <= i < entries.len() && (#[trigger] entries[i]).0@ == k
}

/// `DashMap::new`: a map that holds nothing.
#[verifier::external_body]
fn dash_new() -> (fresh: DashMap<String, i64>)
    ensures
        dash_counts(fresh) == (Map::<Seq<char>, i64>::empty()),
{
    DashMap::new()
}

/// `DashMap::get`, the value copied out of the reference it returns: the
/// count under `key` where the map holds one.
#[verifier::external_body]
fn dash_get(map: &DashMap<String, i64>, key: &str) -> (r: Option<i64>)
    ensures
        r == if dash_counts(*map).contains_key(key@) {
            Some(dash_counts(*map)[key@])
        } else {
            None
        },
{
    map.get(key).map(|entry| *entry.value())
}

/// `DashMap::insert`: afterwards the map holds `value` under `key`, and under
/// every other name what it held before.
#[verifier::external_body]
fn dash_insert(map: &mut DashMap<String, i64>, key: String, value: i64)
    ensures
        dash_counts(*final(map)) == dash_counts(*old(map)).insert(key@, value),
{
    map.insert(key, value);
}

/// `DashMap::iter`, each entry copied out as a pair: every name that the map
/// holds once, with its count, in no order that could be told beforehand.
#[verifier::external_body]
fn dash_entries(map: &DashMap<String, i64>) -> (entries: Vec<(String, i64)>)
    ensures
        is_listing(entries@, dash_counts(*map)),
{
    map.iter().map(|entry| (entry.key().clone(), *entry.value())).collect()
}

/// The names of `entries`, in their order.
pub open spec fn listed_names(entries: Seq<(String, i64)>) -> Seq<Seq<char>> {
    Seq::new(entries.len(), |i: int| entries[i].0@)
}

/// Counters that come into being with their first bump, kept in a map that
/// could be shared.
pub struct CmapMetrics {
    data: DashMap<String, i64>,
}

impl View for CmapMetrics {
    type V = Map<Seq<char>, i64>;

    closed spec fn view(&self) -> Map<Seq<char>, i64> {
        dash_counts(self.data)
    }
}

impl CmapMetrics {
    /// No counters yet.
    pub fn new() -> (m: Self)
        ensures
            m@ == Map::<Seq<char>, i64>::empty(),
    {
        Self { data: dash_new() }
    }

    /// The count under `key`, if it was ever bumped.
    pub fn get(&self, key: &str) -> (r: Option<i64>)
        ensures
            r == if self@.contains_key(key@) {
                Some(self@[key@])
            } else {
                None
            },
    {
        dash_get(&self.data, key)
    }

    /// Adds one to the counter `key`, which starts at nothing where the name
    /// is new.
    pub fn inc(&mut self, key: &str) -> (r: Result<(), Error>)
        requires
            count_of(old(self)@, key@) < i64::MAX,
        ensures
            r is Ok,
            final(self)@ == old(self)@.insert(key@, (count_of(old(self)@, key@) + 1) as i64),
    {
        let count = match dash_get(&self.data, key) {
            Some(v) => v,
            None => 0,
        };
        dash_insert(&mut self.data, key.to_owned(), count + 1);
        Ok(())
    }

    /// A line for each counter: the name, a colon and a space, the count, a
    /// line end. Every counter has its line, in no order that could be told
    /// beforehand.
    pub fn to_string(&self) -> (s: String)
        ensures
            exists|entries: Seq<(String, i64)>| #[trigger]
                is_listing(entries, self@) && is_report(s@, self@, listed_names(entries)),
    {
        let entries = dash_entries(&self.data);
        let ghost names = listed_names(entries@);
        let mut s = String::new();
        let mut texts: Vec<String> = Vec::new();
        for i in 0..entries.len()
            invariant
                is_listing(entries@, self@),
                names == listed_names(entries@),
                texts@.len() == i,
                forall|j: int|
                    0 <= j < i ==> to_string_from_display_ensures::<i64>(
                        &self@[names[j]],
                        #[trigger] texts@[j],
                    ),
                s@ == lines(names, views(texts@), i as nat),
        {
            let text = entries[i].1.to_string();
            let ghost before = views(texts@);
            s.append(entries[i].0.as_str());
            s.append(": ");
            s.append(text.as_str());
            s.append("\n");
            texts.push(text);
            proof {
                let after = views(texts@);
                assert(after[i as int] == text@);
                assert(names[i as int] == entries@[i as int].0@);
                assert(self@[names[i as int]] == entries@[i as int].1);
                lemma_lines_agree(names, before, after, i as nat);
                assert(s@ =~= lines(names, after, i as nat) + line(names[i as int], after[i as int]));
            }
        }
        assert(counts_shown_as(self@, names, texts@));
        s
    }
}

impl Default for CmapMetrics {
    fn default() -> (m: Self)
        ensures
            m@ == Map::<Seq<char>, i64>::empty(),
    {
        CmapMetrics::new()
    }
}

} // verus!
