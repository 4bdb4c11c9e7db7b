//! A small name-to-value table with exact first-match semantics, used for
//! the installer, tool, platform and fact collections.

use vstd::prelude::*;

verus! {

/// The value bound to `name` in `entries`, scanning from the front.
pub open spec fn spec_find<V>(entries: Seq<(String, V)>, name: Seq<char>) -> Option<V>
    decreases entries.len(),
{
    if entries.len() == 0 {
        None
    } else if entries[0].0@ == name {
        Some(entries[0].1)
    } else {
        spec_find(entries.skip(1), name)
    }
}

/// `entries` with every pair bound to `name` removed.
pub open spec fn spec_remove_key<V>(entries: Seq<(String, V)>, name: Seq<char>) -> Seq<
    (String, V),
>
    decreases entries.len(),
{
    if entries.len() == 0 {
        entries
    } else if entries[0].0@ == name {
        spec_remove_key(entries.skip(1), name)
    } else {
        seq![entries[0]] + spec_remove_key(entries.skip(1), name)
    }
}

/// After removing `name`, a lookup of `name` finds nothing.
proof fn lemma_remove_key_gone<V>(entries: Seq<(String, V)>, name: Seq<char>)
    ensures
        spec_find(spec_remove_key(entries, name), name) is None,
    decreases entries.len(),
{
    if entries.len() == 0 {
    } else {
        lemma_remove_key_gone(entries.skip(1), name);
        if entries[0].0@ == name {
        } else {
            let rest = spec_remove_key(entries.skip(1), name);
            let whole = seq![entries[0]] + rest;
            assert(whole[0] == entries[0]);
            assert(whole.skip(1) =~= rest);
        }
    }
}

/// Removing `name` leaves every other lookup unchanged.
proof fn lemma_remove_key_other<V>(entries: Seq<(String, V)>, name: Seq<char>, n: Seq<char>)
    requires
        n != name,
    ensures
        spec_find(spec_remove_key(entries, name), n) == spec_find(entries, n),
    decreases entries.len(),
{
    if entries.len() == 0 {
    } else {
        lemma_remove_key_other(entries.skip(1), name, n);
        if entries[0].0@ == name {
        } else {
            let rest = spec_remove_key(entries.skip(1), name);
            let whole = seq![entries[0]] + rest;
            assert(whole[0] == entries[0]);
            assert(whole.skip(1) =~= rest);
        }
    }
}

/// Removal distributes over appending one entry at the back.
proof fn lemma_remove_key_snoc<V>(entries: Seq<(String, V)>, x: (String, V), name: Seq<char>)
    ensures
        spec_remove_key(entries.push(x), name) == if x.0@ == name {
            spec_remove_key(entries, name)
        } else {
            spec_remove_key(entries, name).push(x)
        },
    decreases entries.len(),
{
    if entries.len() == 0 {
        let s = entries.push(x);
        assert(s[0] == x);
        assert(s.skip(1) =~= Seq::<(String, V)>::empty());
        if x.0@ == name {
        } else {
            assert(seq![x] + spec_remove_key(s.skip(1), name) =~= spec_remove_key(
                entries,
                name,
            ).push(x));
        }
    } else {
        let s = entries.push(x);
        assert(s[0] == entries[0]);
        assert(s.skip(1) =~= entries.skip(1).push(x));
        lemma_remove_key_snoc(entries.skip(1), x, name);
        if entries[0].0@ == name {
        } else {
            if x.0@ == name {
                assert(seq![entries[0]] + spec_remove_key(entries.skip(1), name)
                    =~= spec_remove_key(entries, name));
            } else {
                assert(seq![entries[0]] + spec_remove_key(entries.skip(1), name).push(x)
                    =~= spec_remove_key(entries, name).push(x));
            }
        }
    }
}

/// An ordered collection of named entries, looked up by name from the
/// front; a name bound again replaces its first binding in place.
pub struct Table<V> {
    pub entries: Vec<(String, V)>,
}

impl<V> Table<V> {
    /// The value bound to `name`, if any.
    pub open spec fn spec_get(&self, name: Seq<char>) -> Option<V> {
        spec_find(self.entries@, name)
    }

    /// A name is bound in the table.
    pub open spec fn spec_contains(&self, name: Seq<char>) -> bool {
        self.spec_get(name) is Some
    }

    /// An empty table.
    pub fn new() -> (r: Self)
        ensures
            r.entries@ =~= Seq::<(String, V)>::empty(),
            forall|n: Seq<char>| r.spec_get(n) is None,
    {
        Table { entries: Vec::new() }
    }

    /// How many entries the table holds.
    pub fn len(&self) -> (r: usize)
        ensures
            r == self.entries@.len(),
    {
        self.entries.len()
    }

    /// The position of the first entry bound to `name`, if any.
    fn find_index(&self, name: &String) -> (r: Option<usize>)
        ensures
            match r {
                Some(i) => i < self.entries@.len() && self.entries@[i as int].0@ == name@
                    && forall|j: int| 0 <= j < i ==> self.entries@[j].0@ != name@,
                None => forall|j: int|
                    0 <= j < self.entries@.len() ==> self.entries@[j].0@ != name@,
            },
    {
        let mut i: usize = 0;
        while i < self.entries.len()
            invariant
                i <= self.entries@.len(),
                forall|j: int| 0 <= j < i ==> self.entries@[j].0@ != name@,
            decreases self.entries@.len() - i,
        {
            if self.entries[i].0 == *name {
                return Some(i);
            }
            i = i + 1;
        }
        None
    }

    /// A reference to the value bound to `name`, if any.
    pub fn get(&self, name: &String) -> (r: Option<&V>)
        ensures
            match r {
                Some(v) => self.spec_get(name@) == Some(*v),
                None => self.spec_get(name@) is None,
            },
    {
        match self.find_index(name) {
            Some(i) => {
                proof {
                    lemma_find_prefix_skip(self.entries@, name@, i as int);
                }
                Some(&self.entries[i].1)
            },
            None => {
                proof {
                    lemma_find_prefix_skip(self.entries@, name@, self.entries@.len() as int);
                }
                None
            },
        }
    }

    /// Whether `name` is bound.
    pub fn contains_key(&self, name: &String) -> (r: bool)
        ensures
            r == self.spec_contains(name@),
    {
        match self.get(name) {
            Some(_) => true,
            None => false,
        }
    }

    /// Bind `name` to `value`, replacing its first binding if one exists.
    pub fn set(&mut self, name: String, value: V)
        ensures
            final(self).spec_get(name@) == Some(value),
            forall|n: Seq<char>|
                n != name@ ==> final(self).spec_get(n) == old(self).spec_get(n),
    {
        let ghost name_view = name@;
        match self.find_index(&name) {
            Some(i) => {
                let ghost olds = self.entries@;
                self.entries.set(i, (name, value));
                proof {
                    lemma_find_after_update(olds, self.entries@, name_view, i as int, value);
                }
            },
            None => {
                let ghost olds = self.entries@;
                self.entries.push((name, value));
                proof {
                    lemma_find_after_push(olds, self.entries@, name_view, value);
                }
            },
        }
    }

    /// Remove every binding of `name`.
    pub fn remove(&mut self, name: &String)
        ensures
            final(self).spec_get(name@) is None,
            forall|n: Seq<char>|
                n != name@ ==> final(self).spec_get(n) == old(self).spec_get(n),
            final(self).entries@ == spec_remove_key(old(self).entries@, name@),
    {
        let ghost olds = self.entries@;
        let ghost p: int = 0;
        let mut i: usize = 0;
        proof {
            assert(olds.subrange(0, 0) =~= Seq::<(String, V)>::empty());
            assert(olds.skip(0) =~= olds);
            assert(spec_remove_key(olds.subrange(0, 0), name@) + olds =~= olds);
        }
        while i < self.entries.len()
            invariant
                0 <= i <= p <= olds.len(),
                self.entries@ == spec_remove_key(olds.subrange(0, p), name@) + olds.skip(p),
                i == spec_remove_key(olds.subrange(0, p), name@).len(),
            decreases olds.len() - p,
        {
            proof {
                assert(self.entries@.len() > i);
                assert(olds.skip(p).len() > 0);
                assert(p < olds.len());
                assert(self.entries@[i as int] == olds.skip(p)[0]);
                assert(olds.skip(p)[0] == olds[p]);
                lemma_remove_key_snoc(olds.subrange(0, p), olds[p], name@);
                assert(olds.subrange(0, p).push(olds[p]) =~= olds.subrange(0, p + 1));
            }
            if self.entries[i].0 == *name {
                let _ = self.entries.remove(i);
                proof {
                    let kept = spec_remove_key(olds.subrange(0, p), name@);
                    assert(spec_remove_key(olds.subrange(0, p + 1), name@) =~= kept);
                    assert(self.entries@ =~= kept + olds.skip(p + 1));
                }
            } else {
                proof {
                    let kept = spec_remove_key(olds.subrange(0, p), name@);
                    assert(spec_remove_key(olds.subrange(0, p + 1), name@) =~= kept.push(olds[p]));
                    assert(self.entries@ =~= kept.push(olds[p]) + olds.skip(p + 1));
                }
                i = i + 1;
            }
            proof {
                p = p + 1;
            }
        }
        proof {
            assert(p == olds.len());
            assert(olds.subrange(0, p) =~= olds);
            assert(olds.skip(p) =~= Seq::<(String, V)>::empty());
            assert(self.entries@ =~= spec_remove_key(olds, name@));
            lemma_remove_key_gone(olds, name@);
            assert forall|nv: Seq<char>| nv != name@ implies spec_find(
                spec_remove_key(olds, name@),
                nv,
            ) == spec_find(olds, nv) by {
                lemma_remove_key_other(olds, name@, nv);
            }
        }
    }


    /// A reference to the entry at position `i`.
    pub fn entry_at(&self, i: usize) -> (r: &(String, V))
        requires
            i < self.entries@.len(),
        ensures
            *r == self.entries@[i as int],
    {
        &self.entries[i]
    }
}

/// If no key in the first `i` entries matches, the search result equals the
/// search result over the remainder.
proof fn lemma_find_prefix_skip<V>(entries: Seq<(String, V)>, name: Seq<char>, i: int)
    requires
        0 <= i <= entries.len(),
        forall|j: int| 0 <= j < i ==> entries[j].0@ != name,
    ensures
        spec_find(entries, name) == spec_find(entries.skip(i), name),
    decreases i,
{
    if i == 0 {
        assert(entries.skip(0) =~= entries);
    } else {
        assert(entries.len() > 0);
        assert(entries[0].0@ != name);
        assert(spec_find(entries, name) == spec_find(entries.skip(1), name));
        assert forall|j: int| 0 <= j < i - 1 implies entries.skip(1)[j].0@ != name by {
            assert(entries.skip(1)[j] == entries[j + 1]);
        }
        lemma_find_prefix_skip(entries.skip(1), name, i - 1);
        assert(entries.skip(1).skip(i - 1) =~= entries.skip(i));
    }
}

/// Replacing the first entry bound to `name` rebinds `name` and nothing
/// else.
proof fn lemma_find_after_update<V>(
    olds: Seq<(String, V)>,
    news: Seq<(String, V)>,
    name: Seq<char>,
    i: int,
    value: V,
)
    requires
        0 <= i < olds.len(),
        olds[i].0@ == name,
        forall|j: int| 0 <= j < i ==> olds[j].0@ != name,
        news.len() == olds.len(),
        news[i].0@ == name,
        news[i].1 == value,
        forall|j: int| 0 <= j < olds.len() && j != i ==> news[j] == olds[j],
    ensures
        spec_find(news, name) == Some(value),
        forall|n: Seq<char>| n != name ==> spec_find(news, n) == spec_find(olds, n),
    decreases i,
{
    if i == 0 {
        assert forall|n: Seq<char>| n != name implies spec_find(news, n) == spec_find(
            olds,
            n,
        ) by {
            assert(news.skip(1) =~= olds.skip(1));
        }
    } else {
        assert(news[0] == olds[0]);
        assert(olds[0].0@ != name);
        assert forall|j: int| 0 <= j < i - 1 implies olds.skip(1)[j].0@ != name by {
            assert(olds.skip(1)[j] == olds[j + 1]);
        }
        assert(olds.skip(1)[i - 1] == olds[i]);
        assert(news.skip(1)[i - 1] == news[i]);
        assert forall|j: int|
            0 <= j < olds.skip(1).len() && j != i - 1 implies news.skip(1)[j] == olds.skip(
            1,
        )[j] by {
            assert(news.skip(1)[j] == news[j + 1]);
            assert(olds.skip(1)[j] == olds[j + 1]);
        }
        lemma_find_after_update(olds.skip(1), news.skip(1), name, i - 1, value);
        assert(spec_find(news, name) == spec_find(news.skip(1), name));
        assert forall|n: Seq<char>| n != name implies spec_find(news, n) == spec_find(
            olds,
            n,
        ) by {
            if news[0].0@ == n {
            } else {
                assert(spec_find(news, n) == spec_find(news.skip(1), n));
                assert(spec_find(olds, n) == spec_find(olds.skip(1), n));
            }
        }
    }
}

/// Appending an entry for an unbound name binds it and changes nothing
/// else.
proof fn lemma_find_after_push<V>(
    olds: Seq<(String, V)>,
    news: Seq<(String, V)>,
    name: Seq<char>,
    value: V,
)
    requires
        forall|j: int| 0 <= j < olds.len() ==> olds[j].0@ != name,
        news.len() == olds.len() + 1,
        news[olds.len() as int].0@ == name,
        news[olds.len() as int].1 == value,
        forall|j: int| 0 <= j < olds.len() ==> news[j] == olds[j],
    ensures
        spec_find(news, name) == Some(value),
        forall|n: Seq<char>| n != name ==> spec_find(news, n) == spec_find(olds, n),
    decreases olds.len(),
{
    if olds.len() == 0 {
        assert(news.len() == 1);
        assert(news[0].0@ == name);
        assert forall|n: Seq<char>| n != name implies spec_find(news, n) == spec_find(
            olds,
            n,
        ) by {
            assert(spec_find(news, n) == spec_find(news.skip(1), n));
            assert(news.skip(1) =~= Seq::<(String, V)>::empty());
        }
    } else {
        assert(news[0] == olds[0]);
        assert(olds[0].0@ != name);
        assert forall|j: int| 0 <= j < olds.skip(1).len() implies olds.skip(1)[j].0@ != name by {
            assert(olds.skip(1)[j] == olds[j + 1]);
        }
        assert(news.skip(1)[olds.skip(1).len() as int] == news[olds.len() as int]);
        assert forall|j: int| 0 <= j < olds.skip(1).len() implies news.skip(1)[j] == olds.skip(
            1,
        )[j] by {
            assert(news.skip(1)[j] == news[j + 1]);
            assert(olds.skip(1)[j] == olds[j + 1]);
        }
        lemma_find_after_push(olds.skip(1), news.skip(1), name, value);
        assert(spec_find(news, name) == spec_find(news.skip(1), name));
        assert forall|n: Seq<char>| n != name implies spec_find(news, n) == spec_find(
            olds,
            n,
        ) by {
            if news[0].0@ == n {
            } else {
                assert(spec_find(news, n) == spec_find(news.skip(1), n));
                assert(spec_find(olds, n) == spec_find(olds.skip(1), n));
            }
        }
    }
}

} // verus!
