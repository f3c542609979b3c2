//! Named counters: a table from names to counts that is bumped one name at a
//! time and read as a whole.

use crate::error::Error;
use crate::render::views;
use vstd::hash_map::StringHashMap;
use vstd::prelude::*;
use vstd::string::to_string_from_display_ensures;
use vstd::string::StringExecFns;

pub mod amap;
pub mod cmap;

verus! {

/// One line of a report: the name, a colon and a space, the count, a line end.
pub open spec fn line(name: Seq<char>, count: Seq<char>) -> Seq<char> {
    name + ": "@ + count + "\n"@
}

/// The first `n` lines of a report over `names` and `counts`.
pub open spec fn lines(names: Seq<Seq<char>>, counts: Seq<Seq<char>>, n: nat) -> Seq<char>
    decreases n,
{
    if n == 0 {
        Seq::empty()
    } else {
        lines(names, counts, (n - 1) as nat) + line(names[n - 1], counts[n - 1])
    }
}

/// `texts` are the counts of `table` under `names` as `Display` writes them,
/// one for one.
pub open spec fn counts_shown_as(
    table: Map<Seq<char>, i64>,
    names: Seq<Seq<char>>,
    texts: Seq<String>,
) -> bool {
    &&& texts.len() == names.len()
    &&& forall|i: int|
        0 <= i < names.len() ==> to_string_from_display_ensures::<i64>(
            &table[names[i]],
            #[trigger] texts[i],
        )
}

/// `s` is a report on `table`: a line for each of `names`, in their order.
pub open spec fn is_report(s: Seq<char>, table: Map<Seq<char>, i64>, names: Seq<Seq<char>>) -> bool {
    exists|texts: Seq<String>| #[trigger]
        counts_shown_as(table, names, texts) && s == lines(names, views(texts), names.len())
}

/// `list` gives `names` in their order, each with its count in `table`.
pub open spec fn is_listing_of(
    list: Seq<(String, i64)>,
    table: Map<Seq<char>, i64>,
    names: Seq<Seq<char>>,
) -> bool {
    &&& list.len() == names.len()
    &&& forall|i: int|
        0 <= i < list.len() ==> (#[trigger] list[i]).0@ == names[i] && list[i].1 == table[names[i]]
}

/// A table of counts by name that also remembers the order in which the names
/// came.
pub struct CounterMap {
    keys: Vec<String>,
    counts: StringHashMap<i64>,
}

impl View for CounterMap {
    type V = Map<Seq<char>, i64>;

    closed spec fn view(&self) -> Map<Seq<char>, i64> {
        self.counts@
    }
}

impl CounterMap {
    /// The names, in the order in which they were first set.
    pub closed spec fn names(&self) -> Seq<Seq<char>> {
        Seq::new(self.keys@.len(), |i: int| self.keys@[i]@)
    }

    /// The names are those that have a count, each listed once.
    pub open spec fn well_formed(&self) -> bool {
        &&& self.names().no_duplicates()
        &&& forall|k: Seq<char>| self@.contains_key(k) <==> self.names().contains(k)
    }

    /// A table without names.
    pub fn new() -> (t: Self)
        ensures
            t.well_formed(),
            t@ == Map::<Seq<char>, i64>::empty(),
            t.names() == Seq::<Seq<char>>::empty(),
    {
        let t = Self { keys: Vec::new(), counts: StringHashMap::new() };
        assert(t.names() =~= Seq::<Seq<char>>::empty());
        t
    }

    /// The count under `key`, if it has one.
    pub fn get(&self, key: &str) -> (r: Option<i64>)
        ensures
            r == if self@.contains_key(key@) {
                Some(self@[key@])
            } else {
                None
            },
    {
        match self.counts.get(key) {
            Some(v) => Some(*v),
            None => None,
        }
    }

    /// Puts `value` under `key`. A name that is new goes to the end of the
    /// names.
    pub fn set(&mut self, key: String, value: i64)
        requires
            old(self).well_formed(),
        ensures
            final(self).well_formed(),
            final(self)@ == old(self)@.insert(key@, value),
            final(self).names() == if old(self)@.contains_key(key@) {
                old(self).names()
            } else {
                old(self).names().push(key@)
            },
    {
        let known = self.counts.contains_key(key.as_str());
        if !known {
            self.keys.push(key.clone());
        }
        self.counts.insert(key, value);
        proof {
            if known {
                assert(final(self).names() =~= old(self).names());
            } else {
                assert(final(self).names() =~= old(self).names().push(key@));
                assert(!old(self).names().contains(key@));
            }
            assert forall|k: Seq<char>| final(self)@.contains_key(k) <==> final(self).names().contains(
                k,
            ) by {
                if k == key@ {
                    if known {
                    } else {
                        assert(final(self).names()[old(self).names().len() as int] == k);
                    }
                } else {
                    if old(self).names().contains(k) {
                        let i = choose|i: int|
                            0 <= i < old(self).names().len() && old(self).names()[i] == k;
                        assert(final(self).names()[i] == k);
                    }
                }
            }
        }
    }

    /// The number of names.
    pub fn len(&self) -> (n: usize)
        ensures
            n == self.names().len(),
    {
        self.keys.len()
    }

    /// The `i`-th name and its count.
    pub fn entry(&self, i: usize) -> (e: (String, i64))
        requires
            self.well_formed(),
            i < self.names().len(),
        ensures
            e.0@ == self.names()[i as int],
            e.1 == self@[self.names()[i as int]],
    {
        let key = self.keys[i].clone();
        assert(self.names()[i as int] == key@);
        assert(self.names().contains(key@));
        let value = match self.counts.get(key.as_str()) {
            Some(v) => *v,
            None => 0,
        };
        (key, value)
    }

    /// The names with their counts, in the order of the names.
    pub fn entries(&self) -> (list: Vec<(String, i64)>)
        requires
            self.well_formed(),
        ensures
            is_listing_of(list@, self@, self.names()),
    {
        let mut list: Vec<(String, i64)> = Vec::with_capacity(self.keys.len());
        for i in 0..self.keys.len()
            invariant
                self.well_formed(),
                list@.len() == i,
                forall|j: int|
                    0 <= j < i ==> (#[trigger] list@[j]).0@ == self.names()[j] && list@[j].1
                        == self@[self.names()[j]],
        {
            list.push(self.entry(i));
        }
        list
    }

    /// A copy of the counts.
    pub fn snapshot(&self) -> (copy: StringHashMap<i64>)
        requires
            self.well_formed(),
        ensures
            copy@ == self@,
    {
        let mut copy: StringHashMap<i64> = StringHashMap::new();
        for i in 0..self.keys.len()
            invariant
                self.well_formed(),
                forall|k: Seq<char>| #[trigger]
                    copy@.dom().contains(k) ==> self@.dom().contains(k) && copy@[k] == self@[k],
                forall|j: int| 0 <= j < i ==> copy@.dom().contains(#[trigger] self.names()[j]),
        {
            let e = self.entry(i);
            proof {
                let name = self.names()[i as int];
                assert(self.names().contains(name));
                assert(self@.contains_key(name));
            }
            copy.insert(e.0, e.1);
        }
        proof {
            assert forall|k: Seq<char>| self@.dom().contains(k) implies copy@.dom().contains(k) by {
                assert(self@.contains_key(k));
                assert(self.names().contains(k));
                let j = choose|j: int| 0 <= j < self.names().len() && self.names()[j] == k;
                assert(copy@.dom().contains(self.names()[j]));
            }
            assert(copy@.dom() =~= self@.dom());
            assert(copy@ =~= self@);
        }
        copy
    }

    /// A line for each name, in the order of the names: the name, a colon and
    /// a space, the count, a line end.
    pub fn report(&self) -> (s: String)
        requires
            self.well_formed(),
        ensures
            is_report(s@, self@, self.names()),
    {
        let mut s = String::new();
        let mut texts: Vec<String> = Vec::new();
        for i in 0..self.keys.len()
            invariant
                self.well_formed(),
                texts@.len() == i,
                forall|j: int|
                    0 <= j < i ==> to_string_from_display_ensures::<i64>(
                        &self@[self.names()[j]],
                        #[trigger] texts@[j],
                    ),
                s@ == lines(self.names(), views(texts@), i as nat),
        {
            let e = self.entry(i);
            let text = e.1.to_string();
            let ghost before = views(texts@);
            s.append(e.0.as_str());
            s.append(": ");
            s.append(text.as_str());
            s.append("\n");
            texts.push(text);
            proof {
                let after = views(texts@);
                assert(after[i as int] == text@);
                lemma_lines_agree(self.names(), before, after, i as nat);
                assert(s@ =~= lines(self.names(), after, i as nat) + line(
                    self.names()[i as int],
                    after[i as int],
                ));
            }
        }
        assert(counts_shown_as(self@, self.names(), texts@));
        s
    }
}

/// The first `n` lines of a report read only the first `n` counts.
pub proof fn lemma_lines_agree(
    names: Seq<Seq<char>>,
    a: Seq<Seq<char>>,
    b: Seq<Seq<char>>,
    n: nat,
)
    requires
        n <= a.len(),
        n <= b.len(),
        forall|i: int| 0 <= i < n ==> a[i] == b[i],
    ensures
        lines(names, a, n) == lines(names, b, n),
    decreases n,
{
    if n > 0 {
        lemma_lines_agree(names, a, b, (n - 1) as nat);
    }
}

/// What the count under `name` is taken to be: nothing yet where the name is
/// new.
pub open spec fn count_of(table: Map<Seq<char>, i64>, name: Seq<char>) -> int {
    if table.contains_key(name) {
        table[name] as int
    } else {
        0
    }
}

/// Counters that come into being with their first bump.
pub struct Metrics {
    data: CounterMap,
}

impl View for Metrics {
    type V = Map<Seq<char>, i64>;

    closed spec fn view(&self) -> Map<Seq<char>, i64> {
        self.data@
    }
}

impl Metrics {
    /// The names, in the order in which they were first bumped.
    pub closed spec fn names(&self) -> Seq<Seq<char>> {
        self.data.names()
    }

    /// The names are those that have a count, each listed once.
    pub closed spec fn well_formed(&self) -> bool {
        self.data.well_formed()
    }

    /// No counters yet.
    pub fn new() -> (m: Self)
        ensures
            m.well_formed(),
            m@ == Map::<Seq<char>, i64>::empty(),
            m.names() == Seq::<Seq<char>>::empty(),
    {
        Self { data: CounterMap::new() }
    }

    /// Adds one to the counter `key`, which starts at nothing where the name
    /// is new.
    pub fn inc(&mut self, key: &str) -> (r: Result<(), Error>)
        requires
            old(self).well_formed(),
            count_of(old(self)@, key@) < i64::MAX,
        ensures
            r is Ok,
            final(self).well_formed(),
            final(self)@ == old(self)@.insert(key@, (count_of(old(self)@, key@) + 1) as i64),
            final(self).names() == if old(self)@.contains_key(key@) {
                old(self).names()
            } else {
                old(self).names().push(key@)
            },
    {
        let count = match self.data.get(key) {
            Some(v) => v,
            None => 0,
        };
        self.data.set(key.to_owned(), count + 1);
        Ok(())
    }

    /// The count under `key`, if it was ever bumped.
    pub fn get(&self, key: &str) -> (r: Option<i64>)
        ensures
            r == if self@.contains_key(key@) {
                Some(self@[key@])
            } else {
                None
            },
    {
        self.data.get(key)
    }

    /// The counters as they stand, in the order of the names.
    pub fn entries(&self) -> (list: Vec<(String, i64)>)
        requires
            self.well_formed(),
        ensures
            is_listing_of(list@, self@, self.names()),
    {
        self.data.entries()
    }

    /// A copy of the counts as they stand.
    pub fn snapshot(&self) -> (r: Result<StringHashMap<i64>, Error>)
        requires
            self.well_formed(),
        ensures
            r is Ok,
            r->Ok_0@ == self@,
    {
        Ok(self.data.snapshot())
    }

    /// A line for each counter, in the order of the names: the name, a colon
    /// and a space, the count, a line end.
    pub fn to_string(&self) -> (s: String)
        requires
            self.well_formed(),
        ensures
            is_report(s@, self@, self.names()),
    {
        self.data.report()
    }
}

impl Default for Metrics {
    fn default() -> (m: Self)
        ensures
            m.well_formed(),
            m@ == Map::<Seq<char>, i64>::empty(),
    {
        Metrics::new()
    }
}

} // verus!
