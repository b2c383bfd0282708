//! A table of values keyed by name, the state that the process manager and
//! the cron scheduler keep: inserting under a name replaces what was there.
use vstd::prelude::*;

verus! {

/// The map that a sequence of named entries describes, later entries
/// overriding earlier ones.
pub open spec fn map_of<T>(s: Seq<(String, T)>) -> Map<Seq<char>, T>
    decreases s.len(),
{
    if s.len() == 0 {
        Map::empty()
    } else {
        map_of(s.drop_last()).insert(s.last().0@, s.last().1)
    }
}

/// No name occurs twice.
pub open spec fn distinct_names<T>(s: Seq<(String, T)>) -> bool {
    forall|i: int, j: int| 0 <= i < j < s.len() ==> s[i].0@ != s[j].0@
}

/// A name is in the map exactly when some entry carries it.
pub proof fn lemma_map_of_contains<T>(s: Seq<(String, T)>, k: Seq<char>)
    ensures
        map_of(s).contains_key(k) <==> exists|i: int| 0 <= i < s.len() && #[trigger] s[i].0@ == k,
    decreases s.len(),
{
    if s.len() > 0 {
        lemma_map_of_contains(s.drop_last(), k);
        if exists|i: int| 0 <= i < s.len() && #[trigger] s[i].0@ == k {
            let i = choose|i: int| 0 <= i < s.len() && #[trigger] s[i].0@ == k;
            if i < s.len() - 1 {
                assert(s.drop_last()[i].0@ == k);
            }
        }
        if exists|i: int| 0 <= i < s.drop_last().len() && #[trigger] s.drop_last()[i].0@ == k {
            let i = choose|i: int| 0 <= i < s.drop_last().len() && #[trigger] s.drop_last()[i].0@ == k;
            assert(s[i].0@ == k);
        }
    }
}

/// With distinct names, the map gives each entry's value under its name.
pub proof fn lemma_map_of_value<T>(s: Seq<(String, T)>, i: int)
    requires
        distinct_names(s),
        0 <= i < s.len(),
    ensures
        map_of(s).contains_key(s[i].0@),
        map_of(s)[s[i].0@] == s[i].1,
    decreases s.len(),
{
    if i < s.len() - 1 {
        lemma_map_of_value(s.drop_last(), i);
        assert(s.drop_last()[i] == s[i]);
        assert(s[i].0@ != s.last().0@);
    }
}

proof fn lemma_map_of_update<T>(s: Seq<(String, T)>, k: int, name: String, v: T)
    requires
        distinct_names(s),
        0 <= k < s.len(),
        s[k].0@ == name@,
    ensures
        map_of(s.update(k, (name, v))) == map_of(s).insert(name@, v),
        distinct_names(s.update(k, (name, v))),
    decreases s.len(),
{
    let t = s.update(k, (name, v));
    if k == s.len() - 1 {
        assert(t.drop_last() =~= s.drop_last());
        assert(map_of(t) =~= map_of(s).insert(name@, v));
    } else {
        lemma_map_of_update(s.drop_last(), k, name, v);
        assert(t.drop_last() =~= s.drop_last().update(k, (name, v)));
        assert(s.last().0@ != name@);
        assert(map_of(t) =~= map_of(s).insert(name@, v));
    }
}

/// Values keyed by name.
#[derive(Debug)]
pub struct NamedTable<T> {
    entries: Vec<(String, T)>,
}

impl<T> View for NamedTable<T> {
    type V = Map<Seq<char>, T>;

    closed spec fn view(&self) -> Map<Seq<char>, T> {
        map_of(self.entries@)
    }
}

impl<T> NamedTable<T> {
    /// The entries in the order their names were first inserted.
    pub closed spec fn entries(&self) -> Seq<(String, T)> {
        self.entries@
    }

    /// No name occurs twice.
    pub closed spec fn wf(&self) -> bool {
        distinct_names(self.entries@)
    }

    /// The map is the one that the entries describe.
    pub proof fn lemma_view(&self)
        requires
            self.wf(),
        ensures
            self@ == map_of(self.entries()),
            distinct_names(self.entries()),
    {
    }

    pub fn new() -> (t: Self)
        ensures
            t.wf(),
            t@ == Map::<Seq<char>, T>::empty(),
            t.entries().len() == 0,
    {
        NamedTable { entries: Vec::new() }
    }

    /// The position of a name, if it is present.
    fn position(&self, name: &str) -> (r: Option<usize>)
        ensures
            r matches Some(k) ==> k < self.entries@.len() && self.entries@[k as int].0@ == name@,
            r is None ==> forall|i: int| 0 <= i < self.entries@.len() ==> #[trigger] self.entries@[i].0@ != name@,
    {
        let mut i: usize = 0;
        while i < self.entries.len()
            invariant
                i <= self.entries.len(),
                forall|j: int| 0 <= j < i ==> #[trigger] self.entries@[j].0@ != name@,
            decreases self.entries.len() - i,
        {
            if crate::text::str_is(self.entries[i].0.as_str(), name) {
                return Some(i);
            }
            i += 1;
        }
        None
    }

    /// Puts `value` under `name`, replacing any value that was there.
    pub fn insert(&mut self, name: &str, value: T)
        requires
            old(self).wf(),
        ensures
            final(self).wf(),
            final(self)@ == old(self)@.insert(name@, value),
    {
        let key = name.to_string();
        match self.position(name) {
            Some(k) => {
                proof {
                    lemma_map_of_update(self.entries@, k as int, key, value);
                }
                self.entries.set(k, (key, value));
            },
            None => {
                let ghost before = self.entries@;
                self.entries.push((key, value));
                assert(self.entries@.drop_last() =~= before);
                assert forall|i: int, j: int| 0 <= i < j < self.entries@.len() implies self.entries@[i].0@
                    != self.entries@[j].0@ by {
                    if j == self.entries@.len() - 1 {
                        assert(before[i].0@ != name@);
                    } else {
                        assert(before[i] == self.entries@[i]);
                        assert(before[j] == self.entries@[j]);
                    }
                }
            },
        }
    }

    /// The value under a name.
    pub fn get(&self, name: &str) -> (r: Option<&T>)
        requires
            self.wf(),
        ensures
            r matches Some(v) ==> self@.contains_key(name@) && *v == self@[name@],
            r is None ==> !self@.contains_key(name@),
    {
        proof {
            lemma_map_of_contains(self.entries@, name@);
        }
        match self.position(name) {
            Some(k) => {
                proof {
                    lemma_map_of_value(self.entries@, k as int);
                }
                Some(&self.entries[k].1)
            },
            None => None,
        }
    }

    /// Removes every entry.
    pub fn clear(&mut self)
        ensures
            final(self).wf(),
            final(self)@ == Map::<Seq<char>, T>::empty(),
            final(self).entries().len() == 0,
    {
        self.entries.clear();
    }

    /// The number of entries.
    pub fn len(&self) -> (n: usize)
        ensures
            n == self.entries().len(),
    {
        self.entries.len()
    }

    /// The entry at a position, in insertion order.
    pub fn entry(&self, i: usize) -> (r: (&String, &T))
        requires
            i < self.entries().len(),
        ensures
            *r.0 == self.entries()[i as int].0,
            *r.1 == self.entries()[i as int].1,
    {
        let e = &self.entries[i];
        (&e.0, &e.1)
    }
}

} // verus!
