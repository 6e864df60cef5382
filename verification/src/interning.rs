//! The intern registry: tables of opaque integer keys mapping to stored
//! objects, all served by one shared key generator so that no two live keys
//! are ever equal, across however many tables exist.

use vstd::prelude::*;

verus! {

/// Why a registry operation failed. The message is presentation only; the
/// contracts below say exactly when each failure occurs.
#[derive(Debug, Clone, PartialEq, Eq)]
pub struct InternError(String);

impl InternError {
    /// A human-readable description of the failure.
    pub fn message(&self) -> String {
        self.0.clone()
    }

    /// The failure of registering a cross-reference that already exists.
    pub(crate) fn already_registered() -> (e: InternError) {
        InternError(String::from_str("the user already has a client in this topic"))
    }

    /// The failure of deregistering a cross-reference that does not exist.
    pub(crate) fn not_registered() -> (e: InternError) {
        InternError(String::from_str("the user has no client in this topic"))
    }
}

/// An opaque, monotonically increasing 64-bit identifier for one registry
/// entry. Keys are never reused and never mutated.
#[derive(Debug, Clone, Copy, PartialEq, Eq, Hash, Structural)]
pub struct InternKey(u64);

impl InternKey {
    /// The numeric value of the key.
    pub closed spec fn spec_value(self) -> u64 {
        self.0
    }

    /// Wrap a raw key value.
    pub fn from_value(value: u64) -> (k: InternKey)
        ensures
            k.spec_value() == value,
    {
        InternKey(value)
    }

    /// The numeric value of the key.
    pub fn value(&self) -> (v: u64)
        ensures
            v == self.spec_value(),
    {
        self.0
    }
}

/// A typed, copyable reference made of an [`InternKey`]: it does not own its
/// referent, and outliving the referent is a normal runtime condition.
pub trait Handle: Sized {
    /// The key this handle carries.
    spec fn spec_key(self) -> InternKey;

    /// Read the key out of the handle.
    fn as_key(&self) -> (k: InternKey)
        ensures
            k == self.spec_key(),
    ;

    /// Build the handle carrying `key`.
    fn from_key(key: InternKey) -> (h: Self)
        ensures
            h.spec_key() == key,
    ;
}

/// The single source of fresh keys. Every table of one registry space shares
/// one generator, which makes cross-table key collisions structurally
/// impossible.
pub struct KeyGenerator {
    next: u64,
}

impl KeyGenerator {
    /// The value the next fresh key will carry.
    pub closed spec fn spec_next(self) -> u64 {
        self.next
    }

    /// A generator that starts at key zero.
    pub fn new() -> (g: KeyGenerator)
        ensures
            g.spec_next() == 0,
    {
        KeyGenerator { next: 0 }
    }

    /// Hand out the next key and advance the cursor. Fails only when the
    /// 64-bit key space is exhausted.
    pub fn fresh_key(&mut self) -> (r: Result<InternKey, InternError>)
        ensures
            r.is_ok() <==> old(self).spec_next() < u64::MAX,
            r.is_ok() ==> r.unwrap().spec_value() == old(self).spec_next()
                && final(self).spec_next() == old(self).spec_next() + 1,
            r.is_err() ==> *final(self) == *old(self),
    {
        if self.next < u64::MAX {
            let key = InternKey(self.next);
            self.next = self.next + 1;
            Ok(key)
        } else {
            Err(InternError(String::from_str("the key space of this generator is exhausted")))
        }
    }
}

/// One table of the registry: `InternKey -> T`, with explicit insert, lookup
/// and garbage collection. Backed by an association vector whose keys are
/// unique; all contracts speak through the pointwise spec functions below.
pub struct Interns<T> {
    entries: Vec<(u64, T)>,
}

impl<T> Interns<T> {
    /// The table holds an entry for `k`.
    pub closed spec fn contains_spec(self, k: u64) -> bool {
        exists|i: int| 0 <= i < self.entries@.len() && self.entries@[i].0 == k
    }

    /// The index of the entry for `k`, when one exists.
    pub closed spec fn index_of(self, k: u64) -> int {
        choose|i: int| 0 <= i < self.entries@.len() && self.entries@[i].0 == k
    }

    /// The value stored under `k`, when one exists.
    pub closed spec fn value_spec(self, k: u64) -> T {
        self.entries@[self.index_of(k)].1
    }

    /// How many entries the table holds.
    pub closed spec fn len_spec(self) -> nat {
        self.entries@.len()
    }

    /// Well-formed: no key occurs twice.
    pub closed spec fn wf(self) -> bool {
        forall|i: int, j: int|
            0 <= i < self.entries@.len() && 0 <= j < self.entries@.len() && i != j
                ==> (#[trigger] self.entries@[i]).0 != (#[trigger] self.entries@[j]).0
    }

    /// Every key of the table lies strictly below `bound`. A table served by
    /// a generator keeps this with `bound` the generator's cursor, which is
    /// what makes a fresh key fresh for every such table at once.
    pub closed spec fn keys_below(self, bound: u64) -> bool {
        forall|i: int| 0 <= i < self.entries@.len() ==> (#[trigger] self.entries@[i]).0 < bound
    }

    /// A contained key lies below every bound the table's keys lie below.
    pub proof fn lemma_contained_below(self, k: u64, b: u64)
        requires
            self.keys_below(b),
            self.contains_spec(k),
        ensures
            k < b,
    {
        let i = choose|i: int| 0 <= i < self.entries@.len() && self.entries@[i].0 == k;
        assert(self.entries@[i].0 < b);
    }

    /// Keys that lie below one bound lie below every larger bound.
    pub proof fn lemma_keys_below_mono(self, b1: u64, b2: u64)
        requires
            self.keys_below(b1),
            b1 <= b2,
        ensures
            self.keys_below(b2),
    {
    }

    /// An empty table.
    pub fn new() -> (t: Interns<T>)
        ensures
            t.wf(),
            t.len_spec() == 0,
            forall|k: u64| !t.contains_spec(k),
            forall|b: u64| t.keys_below(b),
    {
        Interns { entries: Vec::new() }
    }

    proof fn lemma_unique_index(self, k: u64)
        requires
            self.wf(),
            self.contains_spec(k),
        ensures
            0 <= self.index_of(k) < self.entries@.len(),
            self.entries@[self.index_of(k)].0 == k,
            forall|i: int|
                0 <= i < self.entries@.len() && self.entries@[i].0 == k ==> i == self.index_of(k),
    {
        let w = choose|i: int| 0 <= i < self.entries@.len() && self.entries@[i].0 == k;
        assert(self.entries@[w].0 == k);
    }

    proof fn lemma_push_shape(self, pre: Interns<T>, kv: (u64, T))
        requires
            pre.wf(),
            !pre.contains_spec(kv.0),
            self.entries@ == pre.entries@.push(kv),
        ensures
            self.wf(),
            self.contains_spec(kv.0),
            self.value_spec(kv.0) == kv.1,
            forall|q: u64| q != kv.0 ==> (self.contains_spec(q) <==> pre.contains_spec(q)),
            forall|q: u64|
                q != kv.0 && pre.contains_spec(q) ==> self.value_spec(q) == pre.value_spec(q),
            self.len_spec() == pre.len_spec() + 1,
            forall|b: u64| pre.keys_below(b) && kv.0 < b ==> self.keys_below(b),
    {
        let post = self.entries@;
        let old_seq = pre.entries@;
        let n = old_seq.len() as int;
        assert(post[n] == kv);
        assert forall|i: int| 0 <= i < n implies #[trigger] post[i] == old_seq[i] by {}
        assert forall|a: int, b: int|
            0 <= a < post.len() && 0 <= b < post.len() && a != b
            implies (#[trigger] post[a]).0 != (#[trigger] post[b]).0 by {
            if a < n && b < n {
                assert(post[a] == old_seq[a]);
                assert(post[b] == old_seq[b]);
            } else if a == n {
                assert(post[b] == old_seq[b]);
                assert(old_seq[b].0 != kv.0);
            } else {
                assert(post[a] == old_seq[a]);
                assert(old_seq[a].0 != kv.0);
            }
        };
        assert(self.contains_spec(kv.0));
        self.lemma_unique_index(kv.0);
        assert(self.index_of(kv.0) == n);
        assert forall|q: u64| q != kv.0 && #[trigger] self.contains_spec(q)
            implies pre.contains_spec(q) by {
            let i = choose|i: int| 0 <= i < post.len() && post[i].0 == q;
            assert(i != n);
            assert(post[i] == old_seq[i]);
        };
        assert forall|q: u64| q != kv.0 && #[trigger] pre.contains_spec(q)
            implies self.contains_spec(q) && self.value_spec(q) == pre.value_spec(q) by {
            pre.lemma_unique_index(q);
            let i = pre.index_of(q);
            assert(post[i] == old_seq[i]);
            assert(self.contains_spec(q));
            self.lemma_unique_index(q);
            assert(self.index_of(q) == i);
        };
        assert forall|b: u64| pre.keys_below(b) && kv.0 < b implies self.keys_below(b) by {
            assert forall|j: int| 0 <= j < post.len() implies (#[trigger] post[j]).0 < b by {
                if j < n {
                    assert(post[j] == old_seq[j]);
                }
            };
        };
    }

    /// Store `value` under a key drawn from `generator`. The key is fresh for
    /// every table whose keys lie below the generator's cursor; the check
    /// that it is not already occupied here is kept as a defensive check,
    /// though the invariant makes that branch unreachable.
    pub fn intern(&mut self, generator: &mut KeyGenerator, value: T) -> (r: Result<
        InternKey,
        InternError,
    >)
        requires
            old(self).wf(),
            old(self).keys_below(old(generator).spec_next()),
        ensures
            final(self).wf(),
            final(self).keys_below(final(generator).spec_next()),
            r.is_ok() <==> old(generator).spec_next() < u64::MAX,
            r.is_ok() ==> {
                &&& r.unwrap().spec_value() == old(generator).spec_next()
                &&& final(generator).spec_next() == old(generator).spec_next() + 1
                &&& !old(self).contains_spec(r.unwrap().spec_value())
                &&& final(self).contains_spec(r.unwrap().spec_value())
                &&& final(self).value_spec(r.unwrap().spec_value()) == value
                &&& forall|k: u64|
                    k != r.unwrap().spec_value()
                        ==> (final(self).contains_spec(k) <==> old(self).contains_spec(k))
                &&& forall|k: u64|
                    k != r.unwrap().spec_value() && old(self).contains_spec(k)
                        ==> final(self).value_spec(k) == old(self).value_spec(k)
                &&& final(self).len_spec() == old(self).len_spec() + 1
            },
            r.is_err() ==> *final(self) == *old(self) && *final(generator) == *old(generator),
    {
        let key = match generator.fresh_key() {
            Ok(key) => key,
            Err(e) => {
                return Err(e);
            },
        };
        let ghost pre = *self;
        if self.contains_key(key) {
            // Structurally impossible: every stored key lies below the
            // cursor the generator just advanced past.
            return Err(
                InternError(
                    String::from_str("a freshly generated key was already occupied"),
                ),
            );
        }
        self.entries.push((key.value(), value));
        proof {
            self.lemma_push_shape(pre, (key.spec_value(), value));
            assert forall|i: int| 0 <= i < self.entries@.len()
                implies (#[trigger] self.entries@[i]).0 < generator.spec_next() by {
                if i < pre.entries@.len() {
                    assert(self.entries@[i] == pre.entries@[i]);
                }
            };
        }
        Ok(key)
    }

    /// Whether the table currently holds an entry for `key`.
    pub fn contains_key(&self, key: InternKey) -> (b: bool)
        requires
            self.wf(),
        ensures
            b == self.contains_spec(key.spec_value()),
    {
        let k = key.value();
        let n = self.entries.len();
        let mut i: usize = 0;
        while i < n
            invariant
                k == key.spec_value(),
                n == self.entries@.len(),
                0 <= i <= n,
                forall|j: int| 0 <= j < i ==> (#[trigger] self.entries@[j]).0 != k,
            decreases n - i,
        {
            if self.entries[i].0 == k {
                return true;
            }
            i = i + 1;
        }
        false
    }

    /// Look up the entry for `key`. Fails exactly when no entry exists;
    /// dangling handles after garbage collection land here.
    pub fn get(&self, key: InternKey) -> (r: Result<&T, InternError>)
        requires
            self.wf(),
        ensures
            r.is_ok() <==> self.contains_spec(key.spec_value()),
            r.is_ok() ==> *r.unwrap() == self.value_spec(key.spec_value()),
    {
        let k = key.value();
        let n = self.entries.len();
        let mut i: usize = 0;
        while i < n
            invariant
                self.wf(),
                k == key.spec_value(),
                n == self.entries@.len(),
                0 <= i <= n,
                forall|j: int| 0 <= j < i ==> (#[trigger] self.entries@[j]).0 != k,
            decreases n - i,
        {
            if self.entries[i].0 == k {
                proof {
                    self.lemma_unique_index(k);
                }
                return Ok(&self.entries[i].1);
            }
            i = i + 1;
        }
        Err(InternError(String::from_str("could not find interned key")))
    }

    /// Remove and return the entry for `key`, so a caller can update it and
    /// put it back. Fails exactly when no entry exists.
    pub fn take(&mut self, key: InternKey) -> (r: Result<T, InternError>)
        requires
            old(self).wf(),
        ensures
            final(self).wf(),
            r.is_ok() <==> old(self).contains_spec(key.spec_value()),
            r.is_ok() ==> {
                &&& r.unwrap() == old(self).value_spec(key.spec_value())
                &&& !final(self).contains_spec(key.spec_value())
                &&& forall|k: u64|
                    k != key.spec_value()
                        ==> (final(self).contains_spec(k) <==> old(self).contains_spec(k))
                &&& forall|k: u64|
                    k != key.spec_value() && old(self).contains_spec(k)
                        ==> final(self).value_spec(k) == old(self).value_spec(k)
                &&& final(self).len_spec() + 1 == old(self).len_spec()
                &&& forall|b: u64| old(self).keys_below(b) ==> final(self).keys_below(b)
            },
            r.is_err() ==> *final(self) == *old(self),
    {
        let k = key.value();
        let ghost pre = *self;
        let n = self.entries.len();
        let mut i: usize = 0;
        while i < n
            invariant
                *self == *old(self),
                pre == *old(self),
                self.wf(),
                k == key.spec_value(),
                n == self.entries@.len(),
                0 <= i <= n,
                forall|j: int| 0 <= j < i ==> (#[trigger] self.entries@[j]).0 != k,
            decreases n - i,
        {
            if self.entries[i].0 == k {
                proof {
                    pre.lemma_unique_index(k);
                    assert(pre.index_of(k) == i);
                }
                let (_, value) = self.entries.remove(i);
                proof {
                    self.lemma_take_shape(pre, i as int, k);
                }
                return Ok(value);
            }
            i = i + 1;
        }
        Err(InternError(String::from_str("could not find interned key")))
    }

    proof fn lemma_take_shape(self, pre: Interns<T>, i: int, k: u64)
        requires
            pre.wf(),
            0 <= i < pre.entries@.len(),
            pre.entries@[i].0 == k,
            self.entries@ == pre.entries@.remove(i),
        ensures
            self.wf(),
            !self.contains_spec(k),
            forall|q: u64| q != k ==> (self.contains_spec(q) <==> pre.contains_spec(q)),
            forall|q: u64|
                q != k && pre.contains_spec(q) ==> self.value_spec(q) == pre.value_spec(q),
            forall|b: u64| pre.keys_below(b) ==> self.keys_below(b),
    {
        let post = self.entries@;
        let old_seq = pre.entries@;
        assert forall|a: int, b: int|
            0 <= a < post.len() && 0 <= b < post.len() && a != b
            implies (#[trigger] post[a]).0 != (#[trigger] post[b]).0 by {
            let a0 = if a < i { a } else { a + 1 };
            let b0 = if b < i { b } else { b + 1 };
            assert(post[a] == old_seq[a0]);
            assert(post[b] == old_seq[b0]);
        };
        assert forall|j: int| 0 <= j < post.len() implies (#[trigger] post[j]).0 != k by {
            let j0 = if j < i { j } else { j + 1 };
            assert(post[j] == old_seq[j0]);
            assert(j0 != i);
        };
        assert forall|q: u64| q != k && #[trigger] self.contains_spec(q)
            implies pre.contains_spec(q) by {
            let j = choose|j: int| 0 <= j < post.len() && post[j].0 == q;
            let j0 = if j < i { j } else { j + 1 };
            assert(old_seq[j0].0 == q);
        };
        assert forall|q: u64| q != k && #[trigger] pre.contains_spec(q)
            implies self.contains_spec(q) && self.value_spec(q) == pre.value_spec(q) by {
            pre.lemma_unique_index(q);
            let j0 = pre.index_of(q);
            let j = if j0 < i { j0 } else { j0 - 1 };
            assert(post[j] == old_seq[j0]);
            assert(self.contains_spec(q));
            self.lemma_unique_index(q);
            assert(self.index_of(q) == j);
        };
        assert forall|b: u64| pre.keys_below(b) implies self.keys_below(b) by {
            assert forall|j: int| 0 <= j < post.len() implies (#[trigger] post[j]).0 < b by {
                let j0 = if j < i { j } else { j + 1 };
                assert(post[j] == old_seq[j0]);
            };
        };
    }

    /// Put an entry back under a key that is currently vacant; the inverse of
    /// [`Interns::take`] for read-modify-write updates.
    pub(crate) fn restore(&mut self, key: InternKey, value: T)
        requires
            old(self).wf(),
            !old(self).contains_spec(key.spec_value()),
        ensures
            final(self).wf(),
            final(self).contains_spec(key.spec_value()),
            final(self).value_spec(key.spec_value()) == value,
            forall|k: u64|
                k != key.spec_value()
                    ==> (final(self).contains_spec(k) <==> old(self).contains_spec(k)),
            forall|k: u64|
                k != key.spec_value() && old(self).contains_spec(k)
                    ==> final(self).value_spec(k) == old(self).value_spec(k),
            final(self).len_spec() == old(self).len_spec() + 1,
            forall|b: u64|
                old(self).keys_below(b) && key.spec_value() < b ==> final(self).keys_below(b),
    {
        let ghost pre = *self;
        self.entries.push((key.value(), value));
        proof {
            self.lemma_push_shape(pre, (key.spec_value(), value));
        }
    }

    /// Remove the entry for `key`. Succeeds exactly once per interned key: a
    /// second call for the same key reports the double free as an error
    /// rather than ignoring it.
    pub fn garbage_collect(&mut self, key: InternKey) -> (r: Result<(), InternError>)
        requires
            old(self).wf(),
        ensures
            final(self).wf(),
            r.is_ok() <==> old(self).contains_spec(key.spec_value()),
            !final(self).contains_spec(key.spec_value()),
            forall|k: u64|
                k != key.spec_value()
                    ==> (final(self).contains_spec(k) <==> old(self).contains_spec(k)),
            forall|k: u64|
                k != key.spec_value() && old(self).contains_spec(k)
                    ==> final(self).value_spec(k) == old(self).value_spec(k),
            forall|b: u64| old(self).keys_below(b) ==> final(self).keys_below(b),
    {
        match self.take(key) {
            Ok(_) => Ok(()),
            Err(_) => Err(
                InternError(
                    String::from_str(
                        "key did not exist in the mapping when garbage collection was attempted",
                    ),
                ),
            ),
        }
    }
}

/// A key is nothing but its value: keys are equal exactly when their
/// values are.
pub proof fn lemma_intern_key_injective(a: InternKey, b: InternKey)
    ensures
        (a == b) <==> (a.spec_value() == b.spec_value()),
{
}

/// Uniqueness: one generator serving any two tables (of any value types)
/// never hands out a key that either table already holds, because every
/// stored key lies strictly below the cursor. Together with
/// [`KeyGenerator::fresh_key`] advancing the cursor on every call, no two
/// live keys are ever equal, across all tables sharing the generator.
pub proof fn lemma_generated_keys_globally_fresh<T1, T2>(
    t1: Interns<T1>,
    t2: Interns<T2>,
    g: KeyGenerator,
    k: u64,
)
    requires
        t1.keys_below(g.spec_next()),
        t2.keys_below(g.spec_next()),
        k >= g.spec_next(),
    ensures
        !t1.contains_spec(k),
        !t2.contains_spec(k),
{
}

/// Double free: `garbage_collect` succeeds exactly when the key is present
/// and always leaves it absent — its own contract — so collecting the same
/// key again fails; and because the generator only hands out keys at or
/// above its cursor, a collected key, which lies below the cursor, is never
/// re-issued, so no later intern makes it live again either.
pub proof fn lemma_garbage_collect_exactly_once<T>(t: Interns<T>, g: KeyGenerator, k: u64)
    requires
        t.keys_below(g.spec_next()),
        !t.contains_spec(k),
        k < g.spec_next(),
    ensures
        !t.contains_spec(k),
        k != g.spec_next(),
{
}

} // verus!
