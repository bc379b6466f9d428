use vstd::prelude::*;

verus! {

/// Mapping from placeholder name to substitution value, used for template
/// substitution in actions. Insertion order is irrelevant: the map is
/// specified by its `Map<Seq<char>, Seq<char>>` view.
pub struct PlaceholderMap {
    entries: Vec<(String, String)>,
}

/// The mapping denoted by a sequence of key/value pairs; a later pair with the
/// same key supersedes an earlier one.
spec fn map_of(s: Seq<(String, String)>) -> Map<Seq<char>, Seq<char>>
    decreases s.len(),
{
    if s.len() == 0 {
        Map::empty()
    } else {
        map_of(s.drop_last()).insert(s.last().0@, s.last().1@)
    }
}

spec fn distinct_keys(s: Seq<(String, String)>) -> bool {
    forall|i: int, j: int| 0 <= i < j < s.len() ==> s[i].0@ != s[j].0@
}

proof fn lemma_map_of_contains(s: Seq<(String, String)>, k: Seq<char>)
    ensures
        map_of(s).contains_key(k) <==> exists|i: int| 0 <= i < s.len() && s[i].0@ == k,
    decreases s.len(),
{
    if s.len() > 0 {
        let s0 = s.drop_last();
        lemma_map_of_contains(s0, k);
        if s.last().0@ == k {
            assert(s[s.len() - 1].0@ == k);
        } else if map_of(s).contains_key(k) {
            let i = choose|i: int| 0 <= i < s0.len() && s0[i].0@ == k;
            assert(s[i].0@ == k);
        } else if exists|i: int| 0 <= i < s.len() && s[i].0@ == k {
            let i = choose|i: int| 0 <= i < s.len() && s[i].0@ == k;
            assert(i < s.len() - 1);
            assert(s0[i].0@ == k);
        }
    }
}

proof fn lemma_map_of_value(s: Seq<(String, String)>, i: int)
    requires
        distinct_keys(s),
        0 <= i < s.len(),
    ensures
        map_of(s).contains_key(s[i].0@),
        map_of(s)[s[i].0@] == s[i].1@,
    decreases s.len(),
{
    if i == s.len() - 1 {
    } else {
        let s0 = s.drop_last();
        assert(s0[i] == s[i]);
        lemma_map_of_value(s0, i);
        assert(s[s.len() - 1].0@ != s[i].0@);
    }
}

proof fn lemma_map_of_push(s: Seq<(String, String)>, p: (String, String))
    ensures
        map_of(s.push(p)) == map_of(s).insert(p.0@, p.1@),
{
    assert(s.push(p).drop_last() =~= s);
    assert(s.push(p).last() == p);
}

proof fn lemma_map_of_remove(s: Seq<(String, String)>, i: int)
    requires
        distinct_keys(s),
        0 <= i < s.len(),
    ensures
        distinct_keys(s.remove(i)),
        map_of(s.remove(i)) =~= map_of(s).remove(s[i].0@),
    decreases s.len(),
{
    let k = s[i].0@;
    if i == s.len() - 1 {
        assert(s.remove(i) =~= s.drop_last());
        lemma_map_of_contains(s.drop_last(), k);
        assert(forall|j: int|
            0 <= j < s.drop_last().len() ==> s.drop_last()[j].0@ != k) by {
            assert(forall|j: int| 0 <= j < s.len() - 1 ==> s[j].0@ != k);
        }
        assert(!map_of(s.drop_last()).contains_key(k));
        assert(map_of(s) == map_of(s.drop_last()).insert(k, s[i].1@));
    } else {
        let s0 = s.drop_last();
        let last = s.last();
        lemma_map_of_remove(s0, i);
        assert(s.remove(i) =~= s0.remove(i).push(last));
        lemma_map_of_push(s0.remove(i), last);
        assert(map_of(s.remove(i)) == map_of(s0.remove(i)).insert(last.0@, last.1@));
        assert(last.0@ != k);
        assert(map_of(s0.remove(i)) =~= map_of(s0).remove(k));
        assert(map_of(s) == map_of(s0).insert(last.0@, last.1@));
    }
}

proof fn lemma_map_of_len(s: Seq<(String, String)>)
    requires
        distinct_keys(s),
    ensures
        map_of(s).dom().finite(),
        map_of(s).dom().len() == s.len(),
    decreases s.len(),
{
    if s.len() > 0 {
        let s0 = s.drop_last();
        lemma_map_of_len(s0);
        lemma_map_of_contains(s0, s.last().0@);
        assert(forall|j: int| 0 <= j < s0.len() ==> s0[j].0@ != s.last().0@);
        assert(!map_of(s0).contains_key(s.last().0@));
        assert(map_of(s).dom() =~= map_of(s0).dom().insert(s.last().0@));
    }
}

impl View for PlaceholderMap {
    type V = Map<Seq<char>, Seq<char>>;

    closed spec fn view(&self) -> Map<Seq<char>, Seq<char>> {
        map_of(self.entries@)
    }
}

impl PlaceholderMap {
    #[verifier::type_invariant]
    spec fn inv(self) -> bool {
        distinct_keys(self.entries@)
    }

    /// An empty map.
    pub fn new() -> (r: Self)
        ensures
            r@ == Map::<Seq<char>, Seq<char>>::empty(),
    {
        PlaceholderMap { entries: Vec::new() }
    }

    /// The number of keys.
    pub fn len(&self) -> (r: usize)
        ensures
            r == self@.dom().len(),
    {
        proof {
            use_type_invariant(&*self);
            lemma_map_of_len(self.entries@);
        }
        self.entries.len()
    }

    /// Whether `key` is present.
    pub fn contains_key(&self, key: &String) -> (r: bool)
        ensures
            r == self@.contains_key(key@),
    {
        proof {
            use_type_invariant(&*self);
        }
        let n = self.entries.len();
        let mut i: usize = 0;
        while i < n
            invariant
                0 <= i <= n,
                n == self.entries@.len(),
                forall|j: int| 0 <= j < i ==> self.entries@[j].0@ != key@,
            decreases n - i,
        {
            if self.entries[i].0 == *key {
                proof {
                    lemma_map_of_contains(self.entries@, key@);
                }
                return true;
            }
            i += 1;
        }
        proof {
            lemma_map_of_contains(self.entries@, key@);
        }
        false
    }

    /// The value stored under `key`, if any.
    pub fn get(&self, key: &String) -> (r: Option<String>)
        ensures
            match r {
                Some(v) => self@.contains_key(key@) && v@ == self@[key@],
                None => !self@.contains_key(key@),
            },
    {
        proof {
            use_type_invariant(&*self);
        }
        let n = self.entries.len();
        let mut i: usize = 0;
        while i < n
            invariant
                0 <= i <= n,
                n == self.entries@.len(),
                distinct_keys(self.entries@),
                forall|j: int| 0 <= j < i ==> self.entries@[j].0@ != key@,
            decreases n - i,
        {
            if self.entries[i].0 == *key {
                proof {
                    lemma_map_of_value(self.entries@, i as int);
                }
                return Some(self.entries[i].1.clone());
            }
            i += 1;
        }
        proof {
            lemma_map_of_contains(self.entries@, key@);
        }
        None
    }

    /// Inserts `value` under `key`, superseding any value already there.
    pub fn insert(&mut self, key: String, value: String)
        ensures
            final(self)@ == old(self)@.insert(key@, value@),
    {
        proof {
            use_type_invariant(&*self);
        }
        let mut entries: Vec<(String, String)> = Vec::new();
        std::mem::swap(&mut entries, &mut self.entries);
        let ghost s = entries@;
        let n = entries.len();
        let mut i: usize = 0;
        while i < n
            invariant
                0 <= i <= n,
                n == s.len(),
                entries@ == s,
                distinct_keys(s),
                map_of(s) == old(self)@,
                forall|j: int| 0 <= j < i ==> s[j].0@ != key@,
            decreases n - i,
        {
            if entries[i].0 == key {
                proof {
                    lemma_map_of_remove(s, i as int);
                    lemma_map_of_contains(s.remove(i as int), key@);
                }
                let _ = entries.remove(i);
                entries.push((key, value));
                proof {
                    lemma_map_of_push(s.remove(i as int), (key, value));
                    assert(map_of(entries@) =~= map_of(s).insert(key@, value@));
                    assert(distinct_keys(entries@)) by {
                        assert(forall|j: int|
                            0 <= j < s.remove(i as int).len() ==> s.remove(i as int)[j].0@
                                != key@);
                    }
                }
                self.entries = entries;
                return ;
            }
            i += 1;
        }
        proof {
            lemma_map_of_contains(s, key@);
        }
        entries.push((key, value));
        proof {
            lemma_map_of_push(s, (key, value));
            assert(distinct_keys(entries@));
        }
        self.entries = entries;
    }
}

impl Clone for PlaceholderMap {
    /// The clone denotes the same mapping.
    fn clone(&self) -> (r: Self)
        ensures
            r@ == self@,
    {
        proof {
            use_type_invariant(&*self);
        }
        let n = self.entries.len();
        let mut entries: Vec<(String, String)> = Vec::new();
        let mut i: usize = 0;
        while i < n
            invariant
                0 <= i <= n,
                n == self.entries@.len(),
                entries@ =~= self.entries@.take(i as int),
            decreases n - i,
        {
            entries.push((self.entries[i].0.clone(), self.entries[i].1.clone()));
            proof {
                assert(entries@ =~= self.entries@.take(i + 1));
            }
            i += 1;
        }
        proof {
            assert(entries@ =~= self.entries@);
        }
        PlaceholderMap { entries }
    }
}

/// Merges `src` into `dst` without overwriting keys already present in `dst`:
/// the more specific values already in `dst` win over the broader ones layered
/// in from `src`.
pub fn merge_placeholders(dst: &mut PlaceholderMap, src: &PlaceholderMap)
    ensures
        final(dst)@ == src@.union_prefer_right(old(dst)@),
{
    proof {
        use_type_invariant(&*dst);
        use_type_invariant(&*src);
    }
    let ghost d0 = dst@;
    let n = src.entries.len();
    let mut i: usize = 0;
    while i < n
        invariant
            0 <= i <= n,
            n == src.entries@.len(),
            distinct_keys(src.entries@),
            dst@ == map_of(src.entries@.take(i as int)).union_prefer_right(d0),
        decreases n - i,
    {
        let ghost prefix = src.entries@.take(i as int);
        let key = src.entries[i].0.clone();
        let value = src.entries[i].1.clone();
        let present = dst.contains_key(&key);
        if !present {
            dst.insert(key, value);
        }
        proof {
            let next = src.entries@.take(i + 1);
            assert(next =~= prefix.push(src.entries@[i as int]));
            lemma_map_of_push(prefix, src.entries@[i as int]);
            if present {
                lemma_map_of_contains(prefix, key@);
                assert(forall|j: int| 0 <= j < i ==> src.entries@[j].0@ != key@);
                assert(!map_of(prefix).contains_key(key@) ==> d0.contains_key(key@));
                assert(dst@ =~= map_of(next).union_prefer_right(d0));
            } else {
                assert(dst@ =~= map_of(next).union_prefer_right(d0));
            }
        }
        i += 1;
    }
    proof {
        assert(src.entries@.take(n as int) =~= src.entries@);
    }
}

} // verus!
