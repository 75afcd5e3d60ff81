use vstd::prelude::*;

verus! {

/// True when no two entries carry the same key.
pub open spec fn keys_unique(e: Seq<(String, String)>) -> bool {
    forall|i: int, j: int|
        0 <= i < e.len() && 0 <= j < e.len() && #[trigger] e[i].0@ == #[trigger] e[j].0@ ==> i
            == j
}

/// Entry `i` of `e` is stored under `k`.
pub open spec fn key_at(e: Seq<(String, String)>, k: Seq<char>, i: int) -> bool {
    0 <= i < e.len() && e[i].0@ == k
}

/// The key-to-text map that a list of entries with unique keys stands for.
pub open spec fn map_of(e: Seq<(String, String)>) -> Map<Seq<char>, Seq<char>> {
    Map::new(
        |k: Seq<char>| exists|i: int| key_at(e, k, i),
        |k: Seq<char>| e[choose|i: int| key_at(e, k, i)].1@,
    )
}

proof fn lemma_map_of_at(e: Seq<(String, String)>, k: Seq<char>, i: int)
    requires
        keys_unique(e),
        key_at(e, k, i),
    ensures
        map_of(e).contains_key(k),
        map_of(e)[k] == e[i].1@,
{
    let j = choose|j: int| key_at(e, k, j);
    assert(e[i].0@ == e[j].0@);
}

proof fn lemma_map_of_remove(e: Seq<(String, String)>, k: Seq<char>, i: int)
    requires
        keys_unique(e),
        key_at(e, k, i),
    ensures
        keys_unique(e.remove(i)),
        map_of(e.remove(i)) == map_of(e).remove(k),
{
    let f = e.remove(i);
    assert forall|a: int, b: int|
        0 <= a < f.len() && 0 <= b < f.len() && #[trigger] f[a].0@ == #[trigger] f[b].0@ implies a
        == b by {
        let a0 = if a < i { a } else { a + 1 };
        let b0 = if b < i { b } else { b + 1 };
        assert(e[a0].0@ == e[b0].0@);
    }
    assert forall|q: Seq<char>| #[trigger] map_of(f).contains_key(q) <==> map_of(e).remove(
        k,
    ).contains_key(q) by {
        if map_of(f).contains_key(q) {
            let a = choose|a: int| key_at(f, q, a);
            let a0 = if a < i { a } else { a + 1 };
            assert(key_at(e, q, a0));
            if q == k {
                assert(e[a0].0@ == e[i].0@);
            }
        }
        if map_of(e).remove(k).contains_key(q) {
            let a0 = choose|a: int| key_at(e, q, a);
            assert(a0 != i);
            let a = if a0 < i { a0 } else { a0 - 1 };
            assert(key_at(f, q, a));
        }
    }
    assert forall|q: Seq<char>| #[trigger] map_of(f).contains_key(q) implies map_of(f)[q] == map_of(
        e,
    ).remove(k)[q] by {
        let a = choose|a: int| key_at(f, q, a);
        let a0 = if a < i { a } else { a + 1 };
        assert(key_at(e, q, a0));
        lemma_map_of_at(e, q, a0);
    }
    assert(map_of(f) =~= map_of(e).remove(k));
}

proof fn lemma_map_of_push(e: Seq<(String, String)>, key: String, data: String)
    requires
        keys_unique(e),
        !map_of(e).contains_key(key@),
    ensures
        keys_unique(e.push((key, data))),
        map_of(e.push((key, data))) == map_of(e).insert(key@, data@),
{
    let f = e.push((key, data));
    let n = e.len() as int;
    assert forall|a: int, b: int|
        0 <= a < f.len() && 0 <= b < f.len() && #[trigger] f[a].0@ == #[trigger] f[b].0@ implies a
        == b by {
        if a < n && b == n {
            assert(key_at(e, key@, a));
        }
        if b < n && a == n {
            assert(key_at(e, key@, b));
        }
        if a < n && b < n {
            assert(e[a].0@ == e[b].0@);
        }
    }
    assert(key_at(f, key@, n));
    assert forall|q: Seq<char>| #[trigger] map_of(f).contains_key(q) <==> map_of(e).insert(
        key@,
        data@,
    ).contains_key(q) by {
        if map_of(f).contains_key(q) && q != key@ {
            let a = choose|a: int| key_at(f, q, a);
            assert(key_at(e, q, a));
        }
        if map_of(e).contains_key(q) {
            let a = choose|a: int| key_at(e, q, a);
            assert(key_at(f, q, a));
        }
    }
    assert forall|q: Seq<char>| #[trigger] map_of(f).contains_key(q) implies map_of(f)[q] == map_of(
        e,
    ).insert(key@, data@)[q] by {
        let a = choose|a: int| key_at(f, q, a);
        lemma_map_of_at(f, q, a);
        if a < n {
            lemma_map_of_at(e, q, a);
        }
    }
    assert(map_of(f) =~= map_of(e).insert(key@, data@));
}

/// A key-addressed store of texts held in memory: `read`, `write` and
/// `delete` by key, each key holding at most one text.
pub struct Store {
    entries: Vec<(String, String)>,
}

impl View for Store {
    type V = Map<Seq<char>, Seq<char>>;

    closed spec fn view(&self) -> Map<Seq<char>, Seq<char>> {
        map_of(self.entries@)
    }
}

impl Store {
    /// Each key holds at most one entry.
    pub closed spec fn wf(&self) -> bool {
        keys_unique(self.entries@)
    }

    /// An empty store.
    pub fn new() -> (r: Store)
        ensures
            r.wf(),
            r@ == Map::<Seq<char>, Seq<char>>::empty(),
    {
        let r = Store { entries: Vec::new() };
        assert(r@ =~= Map::<Seq<char>, Seq<char>>::empty());
        r
    }

    /// The index of the entry stored under `key`, if any.
    fn find(&self, key: &String) -> (r: Option<usize>)
        ensures
            match r {
                Some(i) => key_at(self.entries@, key@, i as int),
                None => forall|i: int| !key_at(self.entries@, key@, i),
            },
    {
        let mut i: usize = 0;
        while i < self.entries.len()
            invariant
                i <= self.entries@.len(),
                forall|j: int| 0 <= j < i ==> !key_at(self.entries@, key@, j),
            decreases self.entries@.len() - i,
        {
            if self.entries[i].0 == *key {
                return Some(i);
            }
            i = i + 1;
        }
        None
    }

    /// The text stored under `key`, or `None` where nothing is.
    pub fn read(&self, key: &str) -> (r: Option<String>)
        requires
            self.wf(),
        ensures
            match r {
                Some(t) => self@.contains_key(key@) && t@ == self@[key@],
                None => !self@.contains_key(key@),
            },
    {
        let k = key.to_string();
        match self.find(&k) {
            Some(i) => {
                proof {
                    lemma_map_of_at(self.entries@, key@, i as int);
                }
                Some(self.entries[i].1.clone())
            },
            None => None,
        }
    }

    /// Stores `data` under `key`, replacing what was there.
    pub fn write(&mut self, key: &str, data: String)
        requires
            old(self).wf(),
        ensures
            final(self).wf(),
            final(self)@ == old(self)@.insert(key@, data@),
    {
        let k = key.to_string();
        match self.find(&k) {
            Some(i) => {
                proof {
                    lemma_map_of_remove(self.entries@, key@, i as int);
                }
                self.entries.remove(i);
            },
            None => {},
        }
        assert(!map_of(self.entries@).contains_key(key@));
        proof {
            lemma_map_of_push(self.entries@, k, data);
        }
        self.entries.push((k, data));
    }

    /// Removes what is stored under `key`; nothing happens where nothing is.
    pub fn delete(&mut self, key: &str)
        requires
            old(self).wf(),
        ensures
            final(self).wf(),
            final(self)@ == old(self)@.remove(key@),
    {
        let k = key.to_string();
        match self.find(&k) {
            Some(i) => {
                proof {
                    lemma_map_of_remove(self.entries@, key@, i as int);
                }
                self.entries.remove(i);
            },
            None => {
                assert(map_of(self.entries@).remove(key@) =~= map_of(self.entries@));
            },
        }
    }
}

} // verus!
