use vstd::prelude::*;

verus! {

/// Strict lexicographic order on text, comparing characters by code point.
/// This is the order of Rust's `str`, since UTF-8 keeps code point order.
pub open spec fn key_lt(a: Seq<char>, b: Seq<char>) -> bool
    decreases a.len(),
{
    if a.len() == 0 {
        b.len() > 0
    } else if b.len() == 0 {
        false
    } else if a[0] != b[0] {
        a[0] < b[0]
    } else {
        key_lt(a.drop_first(), b.drop_first())
    }
}

pub proof fn lemma_key_lt_irreflexive(a: Seq<char>)
    ensures
        !key_lt(a, a),
    decreases a.len(),
{
    if a.len() > 0 {
        lemma_key_lt_irreflexive(a.drop_first());
    }
}

pub proof fn lemma_key_lt_transitive(a: Seq<char>, b: Seq<char>, c: Seq<char>)
    requires
        key_lt(a, b),
        key_lt(b, c),
    ensures
        key_lt(a, c),
    decreases a.len(),
{
    if a.len() > 0 && b.len() > 0 && c.len() > 0 && a[0] == b[0] && b[0] == c[0] {
        lemma_key_lt_transitive(a.drop_first(), b.drop_first(), c.drop_first());
    }
}

pub proof fn lemma_key_lt_total(a: Seq<char>, b: Seq<char>)
    requires
        a != b,
    ensures
        key_lt(a, b) || key_lt(b, a),
    decreases a.len(),
{
    if a.len() > 0 && b.len() > 0 && a[0] == b[0] {
        if a.drop_first() == b.drop_first() {
            assert(a =~= seq![a[0]] + a.drop_first());
            assert(b =~= seq![b[0]] + b.drop_first());
        }
        lemma_key_lt_total(a.drop_first(), b.drop_first());
    } else if a.len() > 0 && b.len() > 0 {
    } else if a.len() == 0 && b.len() == 0 {
        assert(a =~= b);
    }
}

/// Whether `k` is the least key of `m` in `key_lt` order.
pub open spec fn is_least_key(m: Map<Seq<char>, Seq<char>>, k: Seq<char>) -> bool {
    &&& m.dom().contains(k)
    &&& forall|j: Seq<char>| #[trigger] m.dom().contains(j) && j != k ==> key_lt(k, j)
}

/// Compares two texts in `key_lt` order.
pub fn key_less(a: &str, b: &str) -> (r: bool)
    ensures
        r == key_lt(a@, b@),
{
    let la = a.unicode_len();
    let lb = b.unicode_len();
    let mut i: usize = 0;
    assert(a@.skip(0) =~= a@);
    assert(b@.skip(0) =~= b@);
    while i < la && i < lb
        invariant
            la == a@.len(),
            lb == b@.len(),
            i <= la,
            i <= lb,
            key_lt(a@, b@) == key_lt(a@.skip(i as int), b@.skip(i as int)),
        decreases la - i,
    {
        let x = a.get_char(i);
        let y = b.get_char(i);
        if x != y {
            return x < y;
        }
        assert(a@.skip(i as int).drop_first() =~= a@.skip(i + 1));
        assert(b@.skip(i as int).drop_first() =~= b@.skip(i + 1));
        i = i + 1;
    }
    i == la && i < lb
}

/// The map that a list of entries stands for; a later entry wins.
pub open spec fn entries_map(e: Seq<(Seq<char>, Seq<char>)>) -> Map<Seq<char>, Seq<char>>
    decreases e.len(),
{
    if e.len() == 0 {
        Map::empty()
    } else {
        entries_map(e.drop_last()).insert(e.last().0, e.last().1)
    }
}

/// No key occurs twice.
pub open spec fn keys_unique(e: Seq<(Seq<char>, Seq<char>)>) -> bool {
    forall|i: int, j: int| 0 <= i < j < e.len() ==> #[trigger] e[i].0 != #[trigger] e[j].0
}

/// The text views of a list of pairs.
pub open spec fn pair_views(v: Seq<(String, String)>) -> Seq<(Seq<char>, Seq<char>)> {
    v.map_values(|p: (String, String)| (p.0@, p.1@))
}

/// The map that a list of query pairs gives when each pair is inserted in turn.
pub open spec fn pairs_map(p: Seq<(Seq<char>, Seq<char>)>) -> Map<Seq<char>, Seq<char>> {
    entries_map(p)
}

proof fn lemma_entries_map_dom(e: Seq<(Seq<char>, Seq<char>)>, k: Seq<char>)
    ensures
        entries_map(e).dom().contains(k) <==> exists|i: int| 0 <= i < e.len() && #[trigger] e[i].0
            == k,
    decreases e.len(),
{
    if e.len() > 0 {
        lemma_entries_map_dom(e.drop_last(), k);
        if entries_map(e).dom().contains(k) && e.last().0 != k {
            let i = choose|i: int| 0 <= i < e.drop_last().len() && #[trigger] e.drop_last()[i].0 == k;
            assert(e[i].0 == k);
        }
        if exists|i: int| 0 <= i < e.len() && #[trigger] e[i].0 == k {
            let i = choose|i: int| 0 <= i < e.len() && #[trigger] e[i].0 == k;
            if i < e.len() - 1 {
                assert(e.drop_last()[i].0 == k);
            }
        }
    }
}

proof fn lemma_entries_map_at(e: Seq<(Seq<char>, Seq<char>)>, i: int)
    requires
        keys_unique(e),
        0 <= i < e.len(),
    ensures
        entries_map(e).dom().contains(e[i].0),
        entries_map(e)[e[i].0] == e[i].1,
    decreases e.len(),
{
    if i < e.len() - 1 {
        lemma_entries_map_at(e.drop_last(), i);
    }
}

proof fn lemma_entries_map_update(e: Seq<(Seq<char>, Seq<char>)>, i: int, v: Seq<char>)
    requires
        keys_unique(e),
        0 <= i < e.len(),
    ensures
        entries_map(e.update(i, (e[i].0, v))) == entries_map(e).insert(e[i].0, v),
    decreases e.len(),
{
    let f = e.update(i, (e[i].0, v));
    if i == e.len() - 1 {
        assert(f.drop_last() =~= e.drop_last());
        assert(entries_map(e).insert(e[i].0, v) =~= entries_map(e.drop_last()).insert(e[i].0, v));
    } else {
        lemma_entries_map_update(e.drop_last(), i, v);
        assert(f.drop_last() =~= e.drop_last().update(i, (e[i].0, v)));
        assert(entries_map(f) =~= entries_map(e).insert(e[i].0, v));
    }
}

proof fn lemma_entries_map_remove(e: Seq<(Seq<char>, Seq<char>)>, i: int)
    requires
        keys_unique(e),
        0 <= i < e.len(),
    ensures
        entries_map(e.remove(i)) == entries_map(e).remove(e[i].0),
    decreases e.len(),
{
    let f = e.remove(i);
    if i == e.len() - 1 {
        assert(f =~= e.drop_last());
        lemma_entries_map_dom(f, e[i].0);
        assert(entries_map(e).remove(e[i].0) =~= entries_map(f));
    } else {
        lemma_entries_map_remove(e.drop_last(), i);
        assert(f.drop_last() =~= e.drop_last().remove(i));
        assert(entries_map(f) =~= entries_map(e).remove(e[i].0));
    }
}

/// The query parameters of one link, keyed by parameter name.
///
/// Decoders take out the entries they use; whatever is left afterwards was
/// not understood by anyone.
pub struct QueryMap {
    entries: Vec<(String, String)>,
}

impl View for QueryMap {
    type V = Map<Seq<char>, Seq<char>>;

    closed spec fn view(&self) -> Map<Seq<char>, Seq<char>> {
        entries_map(self.entry_views())
    }
}

impl QueryMap {
    spec fn entry_views(&self) -> Seq<(Seq<char>, Seq<char>)> {
        pair_views(self.entries@)
    }

    #[verifier::type_invariant]
    spec fn wf(&self) -> bool {
        keys_unique(self.entry_views())
    }

    /// Moves the entries out, leaving an empty ledger behind.
    fn take_entries(&mut self) -> (r: Vec<(String, String)>)
        ensures
            pair_views(r@) == old(self).entry_views(),
            keys_unique(old(self).entry_views()),
    {
        let mut taken = QueryMap::new();
        std::mem::swap(self, &mut taken);
        proof {
            use_type_invariant(&taken);
        }
        taken.entries
    }

    /// An empty ledger.
    pub fn new() -> (r: QueryMap)
        ensures
            r@ == Map::<Seq<char>, Seq<char>>::empty(),
    {
        let r = QueryMap { entries: Vec::new() };
        assert(r.entry_views() =~= Seq::empty());
        r
    }

    /// The position of `key` among the entries, if it is there.
    fn find(&self, key: &str) -> (r: Option<usize>)
        ensures
            match r {
                Some(i) => i < self.entries.len() && self.entry_views()[i as int].0 == key@,
                None => !self@.dom().contains(key@),
            },
    {
        proof {
            lemma_entries_map_dom(self.entry_views(), key@);
        }
        let n = self.entries.len();
        let mut i: usize = 0;
        while i < n
            invariant
                n == self.entries.len(),
                i <= n,
                forall|j: int| 0 <= j < i ==> #[trigger] self.entry_views()[j].0 != key@,
            decreases n - i,
        {
            if key_equal(self.entries[i].0.as_str(), key) {
                return Some(i);
            }
            i = i + 1;
        }
        None
    }

    /// Sets `key` to `value`, replacing an earlier value of the same key.
    pub fn insert(&mut self, key: String, value: String)
        ensures
            final(self)@ == old(self)@.insert(key@, value@),
    {
        proof {
            use_type_invariant(&*self);
        }
        match self.find(key.as_str()) {
            Some(i) => {
                proof {
                    lemma_entries_map_update(self.entry_views(), i as int, value@);
                }
                let ghost before = self.entry_views();
                let mut entries = self.take_entries();
                entries.set(i, (key, value));
                proof {
                    assert forall|a: int, b: int| 0 <= a < b < entries@.len() implies
                        #[trigger] entries@[a].0@ != #[trigger] entries@[b].0@ by {
                        assert(before[a].0 == entries@[a].0@);
                        assert(before[b].0 == entries@[b].0@);
                    }
                }
                *self = QueryMap { entries };
                assert(self.entry_views() =~= before.update(i as int, (before[i as int].0, value@)));
            },
            None => {
                let ghost before = self.entry_views();
                proof {
                    lemma_entries_map_dom(before, key@);
                }
                let mut entries = self.take_entries();
                entries.push((key, value));
                proof {
                    assert forall|a: int, b: int| 0 <= a < b < entries@.len() implies
                        #[trigger] entries@[a].0@ != #[trigger] entries@[b].0@ by {
                        if b == entries@.len() - 1 {
                            assert(before[a].0 == entries@[a].0@);
                        } else {
                            assert(before[a].0 == entries@[a].0@);
                            assert(before[b].0 == entries@[b].0@);
                        }
                    }
                }
                *self = QueryMap { entries };
                assert(self.entry_views().drop_last() =~= before);
                assert(self.entry_views() =~= before.push((key@, value@)));
            },
        }
    }

    /// The value of `key`, if the ledger holds it.
    pub fn get(&self, key: &str) -> (r: Option<&String>)
        ensures
            match r {
                Some(v) => self@.dom().contains(key@) && self@[key@] == v@,
                None => !self@.dom().contains(key@),
            },
    {
        proof {
            use_type_invariant(self);
        }
        match self.find(key) {
            Some(i) => {
                proof {
                    lemma_entries_map_at(self.entry_views(), i as int);
                }
                Some(&self.entries[i].1)
            },
            None => None,
        }
    }

    /// Takes `key` out of the ledger and returns its value, if it was there.
    pub fn remove(&mut self, key: &str) -> (r: Option<String>)
        ensures
            final(self)@ == old(self)@.remove(key@),
            match r {
                Some(v) => old(self)@.dom().contains(key@) && old(self)@[key@] == v@,
                None => !old(self)@.dom().contains(key@),
            },
    {
        proof {
            use_type_invariant(&*self);
        }
        match self.find(key) {
            Some(i) => {
                let ghost before = self.entry_views();
                proof {
                    lemma_entries_map_at(before, i as int);
                    lemma_entries_map_remove(before, i as int);
                }
                let mut entries = self.take_entries();
                let (_, v) = entries.remove(i);
                proof {
                    assert forall|a: int, b: int| 0 <= a < b < entries@.len() implies
                        #[trigger] entries@[a].0@ != #[trigger] entries@[b].0@ by {
                        let (a0, b0) = (if a < i { a } else { a + 1 }, if b < i { b } else { b + 1 });
                        assert(before[a0].0 == entries@[a].0@);
                        assert(before[b0].0 == entries@[b].0@);
                    }
                }
                *self = QueryMap { entries };
                assert(self.entry_views() =~= before.remove(i as int));
                Some(v)
            },
            None => {
                assert(self@.remove(key@) =~= self@);
                None
            },
        }
    }

    /// The ledger of a link's query pairs, in the order the link gives them;
    /// where a key comes twice, its later value wins.
    pub fn from_pairs(pairs: &Vec<(String, String)>) -> (r: QueryMap)
        ensures
            r@ == pairs_map(pair_views(pairs@)),
    {
        let ghost p = pair_views(pairs@);
        let mut r = QueryMap::new();
        let n = pairs.len();
        let mut i: usize = 0;
        assert(p.take(0) =~= Seq::empty());
        while i < n
            invariant
                n == p.len(),
                p == pair_views(pairs@),
                i <= n,
                r@ == entries_map(p.take(i as int)),
            decreases n - i,
        {
            let k = pairs[i].0.clone();
            let v = pairs[i].1.clone();
            assert(p.take(i + 1).drop_last() =~= p.take(i as int));
            r.insert(k, v);
            i = i + 1;
        }
        assert(p.take(n as int) =~= p);
        r
    }

    /// Whether no entry is left.
    pub fn is_empty(&self) -> (r: bool)
        ensures
            r == (self@.dom() == Set::<Seq<char>>::empty()),
    {
        if self.entries.len() == 0 {
            assert(self.entry_views() =~= Seq::empty());
            assert(self@.dom() =~= Set::<Seq<char>>::empty());
            true
        } else {
            proof {
                lemma_entries_map_dom(self.entry_views(), self.entry_views()[0].0);
                assert(!Set::<Seq<char>>::empty().contains(self.entry_views()[0].0));
            }
            false
        }
    }

    /// The least key in the ledger, if any.
    pub fn first_key(&self) -> (r: Option<&String>)
        ensures
            match r {
                Some(k) => is_least_key(self@, k@),
                None => self@.dom() == Set::<Seq<char>>::empty(),
            },
    {
        proof {
            use_type_invariant(self);
        }
        let n = self.entries.len();
        if n == 0 {
            assert(self.entry_views() =~= Seq::empty());
            assert(self@.dom() =~= Set::<Seq<char>>::empty());
            return None;
        }
        let ghost e = self.entry_views();
        let mut best: usize = 0;
        let mut i: usize = 1;
        while i < n
            invariant
                n == self.entries.len(),
                e == self.entry_views(),
                1 <= i <= n,
                best < i,
                forall|j: int| 0 <= j < i && e[j].0 != e[best as int].0 ==> key_lt(e[best as int].0, #[trigger] e[j].0),
            decreases n - i,
        {
            if key_less(self.entries[i].0.as_str(), self.entries[best].0.as_str()) {
                proof {
                    assert forall|j: int| 0 <= j < i + 1 && e[j].0 != e[i as int].0 implies key_lt(e[i as int].0, #[trigger] e[j].0) by {
                        if j < i && e[j].0 != e[best as int].0 {
                            lemma_key_lt_transitive(e[i as int].0, e[best as int].0, e[j].0);
                        }
                    }
                }
                best = i;
            } else {
                proof {
                    if e[i as int].0 != e[best as int].0 {
                        lemma_key_lt_total(e[i as int].0, e[best as int].0);
                    }
                }
            }
            i = i + 1;
        }
        proof {
            lemma_entries_map_dom(e, e[best as int].0);
            assert forall|k: Seq<char>| #[trigger] self@.dom().contains(k) && k != e[best as int].0 implies key_lt(e[best as int].0, k) by {
                lemma_entries_map_dom(e, k);
            }
        }
        Some(&self.entries[best].0)
    }
}

/// Whether two texts are equal.
pub(crate) fn key_equal(a: &str, b: &str) -> (r: bool)
    ensures
        r == (a@ == b@),
{
    let la = a.unicode_len();
    let lb = b.unicode_len();
    if la != lb {
        return false;
    }
    let mut i: usize = 0;
    while i < la
        invariant
            la == a@.len(),
            lb == b@.len(),
            la == lb,
            i <= la,
            a@.take(i as int) == b@.take(i as int),
        decreases la - i,
    {
        if a.get_char(i) != b.get_char(i) {
            return false;
        }
        assert(a@.take(i + 1) =~= a@.take(i as int).push(a@[i as int]));
        assert(b@.take(i + 1) =~= b@.take(i as int).push(b@[i as int]));
        i = i + 1;
    }
    assert(a@ =~= a@.take(la as int));
    assert(b@ =~= b@.take(lb as int));
    true
}

} // verus!
