//! Counts of staged files by extension.

use vstd::multiset::Multiset;
use vstd::prelude::*;

verus! {

/// How many times `k` occurs in `keys`.
pub open spec fn count_of(keys: Seq<Seq<char>>, k: Seq<char>) -> nat
    decreases keys.len(),
{
    if keys.len() == 0 {
        0
    } else {
        count_of(keys.drop_last(), k) + if keys.last() == k {
            1nat
        } else {
            0nat
        }
    }
}

/// The histogram of a sequence of keys: each key that occurs, with how often.
pub open spec fn histogram_of(keys: Seq<Seq<char>>) -> Map<Seq<char>, nat> {
    Map::new(|k: Seq<char>| keys.contains(k), |k: Seq<char>| count_of(keys, k))
}

/// A key occurs exactly when it is counted at least once.
pub proof fn lemma_count_positive(keys: Seq<Seq<char>>, k: Seq<char>)
    ensures
        count_of(keys, k) > 0 <==> keys.contains(k),
        count_of(keys, k) <= keys.len(),
    decreases keys.len(),
{
    if keys.len() > 0 {
        let prev = keys.drop_last();
        lemma_count_positive(prev, k);
        assert(keys =~= prev.push(keys.last()));
        if prev.contains(k) {
            let i = choose|i: int| 0 <= i < prev.len() && prev[i] == k;
            assert(keys[i] == k);
        }
        if keys.contains(k) && keys.last() != k {
            let i = choose|i: int| 0 <= i < keys.len() && keys[i] == k;
            assert(prev[i] == k);
        }
    }
}

/// Recording one more key adds one to its count.
pub proof fn lemma_histogram_push(keys: Seq<Seq<char>>, x: Seq<char>)
    ensures
        histogram_of(keys.push(x)) == histogram_of(keys).insert(
            x,
            if histogram_of(keys).contains_key(x) {
                histogram_of(keys)[x] + 1
            } else {
                1
            },
        ),
{
    let ks = keys.push(x);
    assert(ks.drop_last() =~= keys);
    lemma_count_positive(keys, x);
    assert forall|k: Seq<char>| ks.contains(k) <==> keys.contains(k) || k == x by {
        if keys.contains(k) {
            let i = choose|i: int| 0 <= i < keys.len() && keys[i] == k;
            assert(ks[i] == k);
        }
        if ks.contains(k) && k != x {
            let i = choose|i: int| 0 <= i < ks.len() && ks[i] == k;
            assert(keys[i] == k);
        }
        if k == x {
            assert(ks[keys.len() as int] == k);
        }
    }
    assert(histogram_of(ks) =~= histogram_of(keys).insert(
        x,
        if histogram_of(keys).contains_key(x) {
            histogram_of(keys)[x] + 1
        } else {
            1
        },
    ));
}

/// A count is the multiplicity of the key in the multiset of keys.
pub proof fn lemma_count_is_multiplicity(keys: Seq<Seq<char>>, k: Seq<char>)
    ensures
        count_of(keys, k) == keys.to_multiset().count(k),
    decreases keys.len(),
{
    broadcast use vstd::seq_lib::group_to_multiset_ensures;

    if keys.len() > 0 {
        let prev = keys.drop_last();
        lemma_count_is_multiplicity(prev, k);
        assert(keys =~= prev.push(keys.last()));
        assert(prev.push(keys.last()).to_multiset() =~= prev.to_multiset().insert(keys.last()));
    } else {
        assert(keys.to_multiset() =~= Multiset::empty());
    }
}

/// The histogram does not depend on the order in which files are counted:
/// two sequences of keys that are permutations of each other give the same
/// histogram.
pub proof fn lemma_histogram_order_free(a: Seq<Seq<char>>, b: Seq<Seq<char>>)
    requires
        a.to_multiset() == b.to_multiset(),
    ensures
        histogram_of(a) == histogram_of(b),
{
    broadcast use vstd::seq_lib::group_to_multiset_ensures;

    assert forall|k: Seq<char>| #[trigger] a.contains(k) == b.contains(k) && count_of(a, k)
        == count_of(b, k) by {
        lemma_count_is_multiplicity(a, k);
        lemma_count_is_multiplicity(b, k);
    }
    assert(histogram_of(a) =~= histogram_of(b));
}

/// A mapping from extension (or full file name) to the number of files
/// recorded under it. Keys are kept as given, with no case folding.
#[derive(Debug)]
pub struct ExtensionHistogram {
    keys: Vec<String>,
    counts: Vec<u64>,
}

impl ExtensionHistogram {
    /// The position of `k` among the keys.
    spec fn index_of(&self, k: Seq<char>) -> int {
        choose|i: int| 0 <= i < self.keys@.len() && self.keys@[i]@ == k
    }

    pub closed spec fn has_key(&self, k: Seq<char>) -> bool {
        exists|i: int| 0 <= i < self.keys@.len() && self.keys@[i]@ == k
    }

    /// Keys are distinct, with one count each.
    pub closed spec fn wf(&self) -> bool {
        &&& self.keys@.len() == self.counts@.len()
        &&& forall|i: int, j: int|
            0 <= i < self.keys@.len() && 0 <= j < self.keys@.len() && i != j
                ==> #[trigger] self.keys@[i]@ != #[trigger] self.keys@[j]@
    }

    pub fn new() -> (r: ExtensionHistogram)
        ensures
            r.wf(),
            r@ == Map::<Seq<char>, nat>::empty(),
    {
        let r = ExtensionHistogram { keys: Vec::new(), counts: Vec::new() };
        assert(r@ =~= Map::<Seq<char>, nat>::empty());
        r
    }

    /// Counts one more file under `key`.
    pub fn record(&mut self, key: &String)
        requires
            old(self).wf(),
            old(self)@.contains_key(key@) ==> old(self)@[key@] < u64::MAX,
        ensures
            final(self).wf(),
            final(self)@ == old(self)@.insert(
                key@,
                if old(self)@.contains_key(key@) {
                    old(self)@[key@] + 1
                } else {
                    1
                },
            ),
    {
        let ghost before = *self;
        let mut i: usize = 0;
        while i < self.keys.len()
            invariant
                *self == before,
                before == *old(self),
                before@.contains_key(key@) ==> before@[key@] < u64::MAX,
                self.wf(),
                i <= self.keys@.len(),
                forall|j: int| 0 <= j < i ==> self.keys@[j]@ != key@,
            decreases self.keys@.len() - i,
        {
            if self.keys[i] == *key {
                proof {
                    assert(before.has_key(key@));
                    assert(before.index_of(key@) == i as int);
                    assert(before@[key@] == before.counts@[i as int] as nat);
                }
                let c = self.counts[i];
                self.counts.set(i, c + 1);
                proof {
                    assert(self.keys@ == before.keys@);
                    assert forall|k: Seq<char>| #[trigger] self@.contains_key(k) implies self@[k]
                        == before@.insert(key@, before@[key@] + 1)[k] by {
                        assert(before.has_key(k));
                        let j = before.index_of(k);
                        assert(self.index_of(k) == j);
                        if k != key@ {
                            assert(j != i as int);
                        }
                    }
                    assert forall|k: Seq<char>| #[trigger] before@.insert(key@, before@[key@] + 1).contains_key(k) implies self@.contains_key(k) by {
                        if k != key@ {
                            assert(before.has_key(k));
                        }
                    }
                    assert(self@ =~= before@.insert(key@, before@[key@] + 1));
                }
                return;
            }
            i = i + 1;
        }
        self.keys.push(key.clone());
        self.counts.push(1);
        proof {
            let n = before.keys@.len() as int;
            assert(self.keys@[n]@ == key@);
            assert forall|k: Seq<char>| #[trigger] before.has_key(k) implies self.index_of(k)
                == before.index_of(k) && self.has_key(k) by {
                let j = before.index_of(k);
                assert(self.keys@[j] == before.keys@[j]);
            }
            assert(self.has_key(key@));
            assert(self.index_of(key@) == n);
            assert forall|k: Seq<char>| #[trigger] self.has_key(k) implies before.has_key(k) || k
                == key@ by {
                let j = self.index_of(k);
                if j < n {
                    assert(before.keys@[j] == self.keys@[j]);
                }
            }
            assert(self@ =~= before@.insert(key@, 1));
        }
    }

    /// The count recorded under `key`, zero where there is none.
    pub fn get(&self, key: &str) -> (r: u64)
        requires
            self.wf(),
        ensures
            r == if self@.contains_key(key@) {
                self@[key@]
            } else {
                0
            },
    {
        let wanted = String::from_str(key);
        let mut i: usize = 0;
        while i < self.keys.len()
            invariant
                self.wf(),
                wanted@ == key@,
                i <= self.keys@.len(),
                forall|j: int| 0 <= j < i ==> self.keys@[j]@ != key@,
            decreases self.keys@.len() - i,
        {
            if self.keys[i] == wanted {
                proof {
                    assert(self.has_key(key@));
                    assert(self.index_of(key@) == i as int);
                }
                return self.counts[i];
            }
            i = i + 1;
        }
        0
    }

    /// The number of distinct keys.
    pub fn len(&self) -> (r: usize)
        requires
            self.wf(),
        ensures
            r == self@.dom().len(),
    {
        proof {
            self.lemma_dom_len();
        }
        self.keys.len()
    }

    /// Every key with its count.
    pub fn entries(&self) -> (r: Vec<(String, u64)>)
        requires
            self.wf(),
        ensures
            r@.len() == self@.dom().len(),
            forall|i: int|
                0 <= i < r@.len() ==> self@.contains_key(#[trigger] r@[i].0@) && self@[r@[i].0@]
                    == r@[i].1,
            forall|k: Seq<char>|
                self@.contains_key(k) ==> exists|i: int| 0 <= i < r@.len() && #[trigger] r@[i].0@
                    == k,
    {
        proof {
            self.lemma_dom_len();
        }
        let mut r: Vec<(String, u64)> = Vec::new();
        let mut i: usize = 0;
        while i < self.keys.len()
            invariant
                self.wf(),
                i <= self.keys@.len(),
                r@.len() == i,
                forall|j: int| 0 <= j < i ==> (#[trigger] r@[j]).0@ == self.keys@[j]@ && r@[j].1
                    == self.counts@[j],
            decreases self.keys@.len() - i,
        {
            r.push((self.keys[i].clone(), self.counts[i]));
            i = i + 1;
        }
        assert forall|j: int| 0 <= j < r@.len() implies self@.contains_key(#[trigger] r@[j].0@)
            && self@[r@[j].0@] == r@[j].1 by {
            assert(self.has_key(self.keys@[j]@));
            assert(self.index_of(self.keys@[j]@) == j);
        }
        assert forall|k: Seq<char>| self@.contains_key(k) implies exists|i: int|
            0 <= i < r@.len() && #[trigger] r@[i].0@ == k by {
            let j = self.index_of(k);
            assert(r@[j].0@ == k);
        }
        r
    }

    proof fn lemma_dom_len(&self)
        requires
            self.wf(),
        ensures
            self@.dom().len() == self.keys@.len(),
    {
        let ks = self.keys@.map_values(|s: String| s@);
        assert forall|i: int, j: int| 0 <= i < j < ks.len() implies ks[i] != ks[j] by {
            assert(self.keys@[i]@ != self.keys@[j]@);
        }
        ks.unique_seq_to_set();
        assert(self@.dom() =~= ks.to_set()) by {
            assert forall|k: Seq<char>| self@.dom().contains(k) implies ks.to_set().contains(k) by {
                let j = self.index_of(k);
                assert(ks[j] == k);
            }
            assert forall|k: Seq<char>| ks.to_set().contains(k) implies self@.dom().contains(k) by {
                let j = choose|j: int| 0 <= j < ks.len() && ks[j] == k;
                assert(self.keys@[j]@ == k);
            }
        }
    }
}

impl View for ExtensionHistogram {
    type V = Map<Seq<char>, nat>;

    closed spec fn view(&self) -> Map<Seq<char>, nat> {
        Map::new(|k: Seq<char>| self.has_key(k), |k: Seq<char>| self.counts@[self.index_of(k)] as nat)
    }
}

} // verus!
