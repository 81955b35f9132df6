//! The account book: per-client balances in first-seen order.
//!
//! The book is an insertion-ordered map from client id to
//! [`AccountBalance`], kept in an `indexmap::IndexMap` so that the final
//! report lists clients in the order they first appeared in the input. The
//! map is trusted through a small set of wrappers; everything the engine
//! relies on is stated over [`index_entries`], the map's key-value pairs in
//! their order, and proved from there.

use indexmap::IndexMap;
use std::collections::hash_map::RandomState;
use vstd::prelude::*;

use crate::account::AccountBalance;

verus! {

/// The `IndexMap` type of the `indexmap` crate, declared so that it can
/// stand in fields and signatures; its values are opaque here.
#[verifier::external_type_specification]
#[verifier::external_body]
#[verifier::reject_recursive_types(K)]
#[verifier::reject_recursive_types(V)]
#[verifier::reject_recursive_types(S)]
pub struct ExIndexMap<K, V, S>(IndexMap<K, V, S>);

/// The key-value pairs of the map, in their order: what `IndexMap::iter`
/// yields. The wrappers below state how each trusted call relates to it.
pub uninterp spec fn index_entries(m: IndexMap<u16, AccountBalance, RandomState>) -> Seq<
    (u16, AccountBalance),
>;

/// The value under the first entry with key `k`, if any. The map never
/// holds two entries with one key, so this is the value under `k`.
pub open spec fn seq_find(s: Seq<(u16, AccountBalance)>, k: u16) -> Option<AccountBalance>
    decreases s.len(),
{
    if s.len() == 0 {
        None
    } else if s[0].0 == k {
        Some(s[0].1)
    } else {
        seq_find(s.drop_first(), k)
    }
}

/// `s` with the first entry keyed `k` holding `v` in its place, or, when no
/// entry has key `k`, with `(k, v)` appended last: what `IndexMap::insert`
/// does to the entry sequence.
pub open spec fn seq_store(
    s: Seq<(u16, AccountBalance)>,
    k: u16,
    v: AccountBalance,
) -> Seq<(u16, AccountBalance)>
    decreases s.len(),
{
    if s.len() == 0 {
        seq![(k, v)]
    } else if s[0].0 == k {
        seq![(k, v)] + s.drop_first()
    } else {
        seq![s[0]] + seq_store(s.drop_first(), k, v)
    }
}

/// Relies on `indexmap::IndexMap::new`: a new map holds no entries.
#[verifier::external_body]
fn imap_new() -> (r: IndexMap<u16, AccountBalance, RandomState>)
    ensures
        index_entries(r) == Seq::<(u16, AccountBalance)>::empty(),
{
    IndexMap::new()
}

/// Relies on `indexmap::IndexMap::get`: the value stored under the key, if
/// it is present.
#[verifier::external_body]
fn imap_get(m: &IndexMap<u16, AccountBalance, RandomState>, k: u16) -> (r: Option<AccountBalance>)
    ensures
        r == seq_find(index_entries(*m), k),
{
    m.get(&k).copied()
}

/// Relies on `indexmap::IndexMap::insert`: an existing key keeps its place
/// in the order and gets the new value; a new key is appended last.
#[verifier::external_body]
fn imap_insert(m: &mut IndexMap<u16, AccountBalance, RandomState>, k: u16, v: AccountBalance)
    ensures
        index_entries(*final(m)) == seq_store(index_entries(*old(m)), k, v),
{
    m.insert(k, v);
}

/// Relies on `indexmap::IndexMap::iter`: the key-value pairs in their
/// order.
#[verifier::external_body]
fn imap_entries(m: &IndexMap<u16, AccountBalance, RandomState>) -> (r: Vec<(u16, AccountBalance)>)
    ensures
        r@ == index_entries(*m),
{
    m.iter().map(|(k, v)| (*k, *v)).collect()
}

/// Maps each client id to its balance, in first-seen order.
pub struct AccountBook {
    accounts: IndexMap<u16, AccountBalance, RandomState>,
}

impl View for AccountBook {
    type V = Seq<(u16, AccountBalance)>;

    closed spec fn view(&self) -> Seq<(u16, AccountBalance)> {
        index_entries(self.accounts)
    }
}

impl AccountBook {
    /// Well-formedness: every balance in the book is well-formed.
    pub open spec fn wf(self) -> bool {
        forall|i: int| 0 <= i < self@.len() ==> (#[trigger] self@[i]).1.wf()
    }

    /// An empty book.
    pub fn new() -> (r: AccountBook)
        ensures
            r@ == Seq::<(u16, AccountBalance)>::empty(),
            r.wf(),
    {
        AccountBook { accounts: imap_new() }
    }

    /// The balance of `client`, created lazily: the first reference to a
    /// client id appends a zero balance, which stays in the book whether or
    /// not the operation that referenced it succeeds.
    pub fn get_or_create(&mut self, client: u16) -> (b: AccountBalance)
        requires
            old(self).wf(),
        ensures
            final(self).wf(),
            b.wf(),
            match seq_find(old(self)@, client) {
                Some(bal) => b == bal && final(self)@ == old(self)@,
                None => b == AccountBalance::spec_zero() && final(self)@ == old(self)@.push(
                    (client, b),
                ),
            },
            seq_find(final(self)@, client) == Some(b),
    {
        match imap_get(&self.accounts, client) {
            Some(b) => {
                proof {
                    lemma_seq_find_wf(self@, client);
                }
                b
            },
            None => {
                let b = AccountBalance::zero();
                proof {
                    lemma_seq_store_absent(self@, client, b);
                    lemma_seq_find_push(self@, client, b);
                }
                imap_insert(&mut self.accounts, client, b);
                b
            },
        }
    }

    /// Store `b` as the balance of `client`, which keeps its place in the
    /// order.
    pub fn store(&mut self, client: u16, b: AccountBalance)
        requires
            old(self).wf(),
            b.wf(),
        ensures
            final(self)@ == seq_store(old(self)@, client, b),
            final(self).wf(),
            seq_find(final(self)@, client) == Some(b),
    {
        proof {
            lemma_seq_store_wf(self@, client, b);
            lemma_seq_find_store_same(self@, client, b);
        }
        imap_insert(&mut self.accounts, client, b);
    }

    /// Every client with its balance, in first-seen order.
    pub fn rows(&self) -> (r: Vec<(u16, AccountBalance)>)
        ensures
            r@ == self@,
    {
        imap_entries(&self.accounts)
    }
}

/// A found balance is one of the sequence's entries: whatever holds of
/// every balance in the sequence holds of it.
pub proof fn lemma_seq_find_holds(
    s: Seq<(u16, AccountBalance)>,
    k: u16,
    p: spec_fn(AccountBalance) -> bool,
)
    requires
        forall|i: int| 0 <= i < s.len() ==> #[trigger] p(s[i].1),
        seq_find(s, k) is Some,
    ensures
        p(seq_find(s, k)->Some_0),
    decreases s.len(),
{
    if s.len() > 0 && s[0].0 != k {
        lemma_seq_find_holds(s.drop_first(), k, p);
    }
}

/// Storing a balance keeps whatever held of every balance, provided it
/// holds of the stored one.
pub proof fn lemma_seq_store_holds(
    s: Seq<(u16, AccountBalance)>,
    k: u16,
    v: AccountBalance,
    p: spec_fn(AccountBalance) -> bool,
)
    requires
        forall|i: int| 0 <= i < s.len() ==> #[trigger] p(s[i].1),
        p(v),
    ensures
        forall|i: int|
            0 <= i < seq_store(s, k, v).len() ==> #[trigger] p(seq_store(s, k, v)[i].1),
    decreases s.len(),
{
    let t = seq_store(s, k, v);
    if s.len() == 0 {
        assert(t[0].1 == v);
    } else if s[0].0 == k {
        assert forall|i: int| 0 <= i < t.len() implies #[trigger] p(t[i].1) by {
            if i == 0 {
                assert(t[i].1 == v);
            } else {
                assert(t[i] == s.drop_first()[i - 1]);
                assert(s.drop_first()[i - 1] == s[i]);
            }
        }
    } else {
        assert(forall|i: int| 0 <= i < s.drop_first().len() ==> #[trigger] p(s.drop_first()[i].1));
        lemma_seq_store_holds(s.drop_first(), k, v, p);
        assert forall|i: int| 0 <= i < t.len() implies #[trigger] p(t[i].1) by {
            if i == 0 {
                assert(t[i] == s[0]);
            } else {
                assert(t[i] == seq_store(s.drop_first(), k, v)[i - 1]);
            }
        }
    }
}

/// Appending an entry leaves what is found under a key that is already
/// present as it was.
pub proof fn lemma_seq_find_push_other(
    s: Seq<(u16, AccountBalance)>,
    e: (u16, AccountBalance),
    k: u16,
)
    requires
        seq_find(s, k) is Some,
    ensures
        seq_find(s.push(e), k) == seq_find(s, k),
    decreases s.len(),
{
    if s.len() > 0 && s[0].0 != k {
        assert(s.push(e).drop_first() =~= s.drop_first().push(e));
        lemma_seq_find_push_other(s.drop_first(), e, k);
    } else {
        assert(s.push(e)[0] == s[0]);
    }
}

/// A found balance is one of the sequence's entries, so a well-formed book
/// only ever hands out well-formed balances.
proof fn lemma_seq_find_wf(s: Seq<(u16, AccountBalance)>, k: u16)
    requires
        forall|i: int| 0 <= i < s.len() ==> (#[trigger] s[i]).1.wf(),
        seq_find(s, k) is Some,
    ensures
        seq_find(s, k)->Some_0.wf(),
{
    let p = (|bal: AccountBalance| bal.wf());
    assert forall|i: int| 0 <= i < s.len() implies #[trigger] p(s[i].1) by {
        assert(s[i].1.wf());
    }
    lemma_seq_find_holds(s, k, p);
}

/// Storing under a key that is absent appends the entry last.
proof fn lemma_seq_store_absent(s: Seq<(u16, AccountBalance)>, k: u16, v: AccountBalance)
    requires
        seq_find(s, k) is None,
    ensures
        seq_store(s, k, v) == s.push((k, v)),
    decreases s.len(),
{
    if s.len() == 0 {
        assert(seq_store(s, k, v) =~= s.push((k, v)));
    } else {
        lemma_seq_store_absent(s.drop_first(), k, v);
        assert(seq_store(s, k, v) =~= s.push((k, v)));
    }
}

/// An appended entry is found under its key.
proof fn lemma_seq_find_push(s: Seq<(u16, AccountBalance)>, k: u16, v: AccountBalance)
    requires
        seq_find(s, k) is None,
    ensures
        seq_find(s.push((k, v)), k) == Some(v),
    decreases s.len(),
{
    if s.len() == 0 {
        assert(s.push((k, v)).drop_first() =~= Seq::<(u16, AccountBalance)>::empty());
    } else {
        lemma_seq_find_push(s.drop_first(), k, v);
        assert(s.push((k, v)).drop_first() =~= s.drop_first().push((k, v)));
    }
}

/// Storing a well-formed balance keeps every balance well-formed.
proof fn lemma_seq_store_wf(s: Seq<(u16, AccountBalance)>, k: u16, v: AccountBalance)
    requires
        forall|i: int| 0 <= i < s.len() ==> (#[trigger] s[i]).1.wf(),
        v.wf(),
    ensures
        forall|i: int|
            0 <= i < seq_store(s, k, v).len() ==> (#[trigger] seq_store(s, k, v)[i]).1.wf(),
{
    let p = (|bal: AccountBalance| bal.wf());
    assert forall|i: int| 0 <= i < s.len() implies #[trigger] p(s[i].1) by {
        assert(s[i].1.wf());
    }
    lemma_seq_store_holds(s, k, v, p);
    assert forall|i: int|
        0 <= i < seq_store(s, k, v).len() implies (#[trigger] seq_store(s, k, v)[i]).1.wf() by {
        assert(p(seq_store(s, k, v)[i].1));
    }
}

/// The stored value is found under its key.
pub proof fn lemma_seq_find_store_same(s: Seq<(u16, AccountBalance)>, k: u16, v: AccountBalance)
    ensures
        seq_find(seq_store(s, k, v), k) == Some(v),
    decreases s.len(),
{
    if s.len() == 0 {
    } else if s[0].0 == k {
    } else {
        lemma_seq_find_store_same(s.drop_first(), k, v);
        assert((seq![s[0]] + seq_store(s.drop_first(), k, v)).drop_first() =~= seq_store(
            s.drop_first(),
            k,
            v,
        ));
    }
}

/// Storing under one key leaves what is found under every other key as it
/// was.
pub proof fn lemma_seq_find_store_other(
    s: Seq<(u16, AccountBalance)>,
    k: u16,
    v: AccountBalance,
    k2: u16,
)
    requires
        k2 != k,
    ensures
        seq_find(seq_store(s, k, v), k2) == seq_find(s, k2),
    decreases s.len(),
{
    let t = seq_store(s, k, v);
    if s.len() == 0 {
        assert(t[0] == (k, v));
        assert(t.drop_first() =~= Seq::<(u16, AccountBalance)>::empty());
        assert(seq_find(t, k2) == seq_find(t.drop_first(), k2));
    } else if s[0].0 == k {
        assert(t[0] == (k, v));
        assert(t.drop_first() =~= s.drop_first());
        assert(seq_find(t, k2) == seq_find(t.drop_first(), k2));
        assert(seq_find(s, k2) == seq_find(s.drop_first(), k2));
    } else {
        lemma_seq_find_store_other(s.drop_first(), k, v, k2);
        assert(t[0] == s[0]);
        assert(t.drop_first() =~= seq_store(s.drop_first(), k, v));
        if s[0].0 == k2 {
            assert(seq_find(t, k2) == Some(t[0].1));
            assert(seq_find(s, k2) == Some(s[0].1));
        } else {
            assert(seq_find(t, k2) == seq_find(t.drop_first(), k2));
            assert(seq_find(s, k2) == seq_find(s.drop_first(), k2));
        }
    }
}

} // verus!
