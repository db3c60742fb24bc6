//! The model behind the engine's per-satellite "latest wins" caches.
//!
//! Each cache is a sequence of entries carrying a satellite key; latching
//! an entry drops whatever the sequence held for that satellite and
//! appends the new entry. The spec functions and lemmas here are shared by
//! the orbital-elements and clock caches.

use crate::gnss::SV;
use vstd::prelude::*;

verus! {

/// The satellites a cache holds an entry for include `sv`.
pub open spec fn has_key<T>(s: Seq<T>, key: spec_fn(T) -> SV, sv: SV) -> bool {
    exists|i: int| 0 <= i < s.len() && key(#[trigger] s[i]) == sv
}

/// No two entries carry the same satellite key: the cache invariant.
pub open spec fn keys_distinct<T>(s: Seq<T>, key: spec_fn(T) -> SV) -> bool {
    forall|i: int, j: int|
        0 <= i < j < s.len() ==> key(#[trigger] s[i]) != key(#[trigger] s[j])
}

/// The sequence with every entry keyed `sv` dropped, order preserved.
pub open spec fn without_key<T>(s: Seq<T>, key: spec_fn(T) -> SV, sv: SV) -> Seq<T>
    decreases s.len(),
{
    if s.len() == 0 {
        s
    } else {
        let rest = without_key(s.drop_last(), key, sv);
        if key(s.last()) == sv {
            rest
        } else {
            rest.push(s.last())
        }
    }
}

/// How many entries carry the key `sv`.
pub open spec fn count_key<T>(s: Seq<T>, key: spec_fn(T) -> SV, sv: SV) -> nat
    decreases s.len(),
{
    if s.len() == 0 {
        0
    } else {
        count_key(s.drop_last(), key, sv) + (if key(s.last()) == sv {
            1nat
        } else {
            0nat
        })
    }
}

/// The cache state after latching `entry`: every previous entry for that
/// satellite is dropped and `entry` is appended.
pub open spec fn latched<T>(s: Seq<T>, key: spec_fn(T) -> SV, entry: T) -> Seq<T> {
    without_key(s, key, key(entry)).push(entry)
}

/// An element survives `without_key` exactly when it was there and does
/// not carry the dropped satellite key.
pub proof fn lemma_without_key_contains<T>(s: Seq<T>, key: spec_fn(T) -> SV, sv: SV, x: T)
    ensures
        without_key(s, key, sv).contains(x) <==> (s.contains(x) && key(x) != sv),
    decreases s.len(),
{
    if s.len() > 0 {
        lemma_without_key_contains(s.drop_last(), key, sv, x);
        assert(s.contains(x) <==> (s.drop_last().contains(x) || x == s.last())) by {
            if s.contains(x) {
                let i = choose|i: int| 0 <= i < s.len() && s[i] == x;
                if i < s.len() - 1 {
                    assert(s.drop_last()[i] == x);
                }
            }
            if s.drop_last().contains(x) {
                let i = choose|i: int| 0 <= i < s.drop_last().len() && s.drop_last()[i] == x;
                assert(s[i] == x);
            }
        }
        let rest = without_key(s.drop_last(), key, sv);
        if key(s.last()) != sv {
            assert(rest.push(s.last()).contains(x) <==> (rest.contains(x) || x == s.last())) by {
                if rest.contains(x) {
                    let i = choose|i: int| 0 <= i < rest.len() && rest[i] == x;
                    assert(rest.push(s.last())[i] == x);
                }
                assert(rest.push(s.last())[rest.len() as int] == s.last());
                if rest.push(s.last()).contains(x) {
                    let i = choose|i: int|
                        0 <= i < rest.push(s.last()).len() && rest.push(s.last())[i] == x;
                    if i < rest.len() {
                        assert(rest[i] == x);
                    }
                }
            }
        }
    }
}

/// Every element of a sequence with distinct keys, except the last, keeps
/// its place in `drop_last`, so distinctness is inherited.
proof fn lemma_drop_last_distinct<T>(s: Seq<T>, key: spec_fn(T) -> SV)
    requires
        s.len() > 0,
        keys_distinct(s, key),
    ensures
        keys_distinct(s.drop_last(), key),
{
    assert forall|i: int, j: int| 0 <= i < j < s.drop_last().len() implies key(
        #[trigger] s.drop_last()[i],
    ) != key(#[trigger] s.drop_last()[j]) by {
        assert(s.drop_last()[i] == s[i]);
        assert(s.drop_last()[j] == s[j]);
    }
}

/// Dropping a key keeps the remaining keys distinct.
pub proof fn lemma_without_key_distinct<T>(s: Seq<T>, key: spec_fn(T) -> SV, sv: SV)
    requires
        keys_distinct(s, key),
    ensures
        keys_distinct(without_key(s, key, sv), key),
        forall|x: T| without_key(s, key, sv).contains(x) ==> #[trigger] s.contains(x),
    decreases s.len(),
{
    if s.len() > 0 {
        lemma_drop_last_distinct(s, key);
        lemma_without_key_distinct(s.drop_last(), key, sv);
        assert forall|x: T| without_key(s, key, sv).contains(x) implies #[trigger] s.contains(
            x,
        ) by {
            lemma_without_key_contains(s, key, sv, x);
        }
        let rest = without_key(s.drop_last(), key, sv);
        if key(s.last()) != sv {
            assert forall|i: int, j: int| 0 <= i < j < rest.push(s.last()).len() implies key(
                #[trigger] rest.push(s.last())[i],
            ) != key(#[trigger] rest.push(s.last())[j]) by {
                if j < rest.len() {
                    assert(rest.push(s.last())[i] == rest[i]);
                    assert(rest.push(s.last())[j] == rest[j]);
                } else {
                    assert(rest.push(s.last())[i] == rest[i]);
                    assert(rest.push(s.last())[j] == s.last());
                    lemma_without_key_contains(s.drop_last(), key, sv, rest[i]);
                    let w = choose|w: int|
                        0 <= w < s.drop_last().len() && s.drop_last()[w] == rest[i];
                    assert(s[w] == rest[i]);
                    assert(key(s[w]) != key(s[s.len() - 1]));
                }
            }
        }
    }
}

/// Unfolds `without_key` over a `push`.
pub proof fn lemma_without_key_push<T>(s: Seq<T>, key: spec_fn(T) -> SV, sv: SV, x: T)
    ensures
        without_key(s.push(x), key, sv) == (if key(x) == sv {
            without_key(s, key, sv)
        } else {
            without_key(s, key, sv).push(x)
        }),
{
    assert(s.push(x).drop_last() =~= s);
    assert(s.push(x).last() == x);
}

/// A latch preserves the cache invariant: keys stay distinct.
pub proof fn lemma_latched_distinct<T>(s: Seq<T>, key: spec_fn(T) -> SV, entry: T)
    requires
        keys_distinct(s, key),
    ensures
        keys_distinct(latched(s, key, entry), key),
{
    let sv = key(entry);
    let w = without_key(s, key, sv);
    lemma_without_key_distinct(s, key, sv);
    assert forall|i: int, j: int| 0 <= i < j < latched(s, key, entry).len() implies key(
        #[trigger] latched(s, key, entry)[i],
    ) != key(#[trigger] latched(s, key, entry)[j]) by {
        assert(latched(s, key, entry)[i] == w[i]);
        if j < w.len() {
            assert(latched(s, key, entry)[j] == w[j]);
        } else {
            assert(latched(s, key, entry)[j] == entry);
            assert(w.contains(w[i]));
            lemma_without_key_contains(s, key, sv, w[i]);
        }
    }
}

/// After a latch, the latched satellite has an entry, and every entry for
/// it is the latched one.
pub proof fn lemma_latched_lookup<T>(s: Seq<T>, key: spec_fn(T) -> SV, entry: T)
    ensures
        has_key(latched(s, key, entry), key, key(entry)),
        forall|i: int|
            0 <= i < latched(s, key, entry).len() && key(#[trigger] latched(s, key, entry)[i])
                == key(entry) ==> latched(s, key, entry)[i] == entry,
{
    let sv = key(entry);
    let w = without_key(s, key, sv);
    assert(latched(s, key, entry)[w.len() as int] == entry);
    assert forall|i: int|
        0 <= i < latched(s, key, entry).len() && key(#[trigger] latched(s, key, entry)[i])
            == sv implies latched(s, key, entry)[i] == entry by {
        if i < w.len() {
            assert(latched(s, key, entry)[i] == w[i]);
            assert(w.contains(w[i]));
            lemma_without_key_contains(s, key, sv, w[i]);
        }
    }
}

/// After dropping a key, no entry carries it.
pub proof fn lemma_without_key_count<T>(s: Seq<T>, key: spec_fn(T) -> SV, sv: SV)
    ensures
        count_key(without_key(s, key, sv), key, sv) == 0,
    decreases s.len(),
{
    if s.len() > 0 {
        lemma_without_key_count(s.drop_last(), key, sv);
        let rest = without_key(s.drop_last(), key, sv);
        if key(s.last()) != sv {
            lemma_count_key_push(rest, key, sv, s.last());
        }
    }
}

/// Unfolds `count_key` over a `push`.
pub proof fn lemma_count_key_push<T>(s: Seq<T>, key: spec_fn(T) -> SV, sv: SV, x: T)
    ensures
        count_key(s.push(x), key, sv) == count_key(s, key, sv) + (if key(x) == sv {
            1nat
        } else {
            0nat
        }),
{
    assert(s.push(x).drop_last() =~= s);
    assert(s.push(x).last() == x);
}

/// A latch leaves exactly one entry for the latched satellite.
pub proof fn lemma_latched_count<T>(s: Seq<T>, key: spec_fn(T) -> SV, entry: T)
    ensures
        count_key(latched(s, key, entry), key, key(entry)) == 1,
{
    lemma_without_key_count(s, key, key(entry));
    lemma_count_key_push(without_key(s, key, key(entry)), key, key(entry), entry);
}

/// Dropping a key is idempotent, and dropping the key of a freshly pushed
/// entry removes that entry again.
pub proof fn lemma_without_key_idempotent<T>(s: Seq<T>, key: spec_fn(T) -> SV, sv: SV)
    ensures
        without_key(without_key(s, key, sv), key, sv) == without_key(s, key, sv),
    decreases s.len(),
{
    if s.len() > 0 {
        lemma_without_key_idempotent(s.drop_last(), key, sv);
        let rest = without_key(s.drop_last(), key, sv);
        if key(s.last()) != sv {
            assert(rest.push(s.last()).drop_last() =~= rest);
        }
    }
}

/// Latching for one satellite twice leaves the same cache as latching the
/// latest entry alone: repetition does not accumulate state.
pub proof fn lemma_latch_latest_wins<T>(s: Seq<T>, key: spec_fn(T) -> SV, first: T, second: T)
    requires
        key(first) == key(second),
    ensures
        latched(latched(s, key, first), key, second) == latched(s, key, second),
{
    let sv = key(second);
    let w = without_key(s, key, sv);
    assert(w.push(first).drop_last() =~= w);
    assert(without_key(w.push(first), key, sv) == without_key(w, key, sv));
    lemma_without_key_idempotent(s, key, sv);
}

/// The cache state after latching a whole series of entries, in order.
pub open spec fn latched_all<T>(s: Seq<T>, key: spec_fn(T) -> SV, entries: Seq<T>) -> Seq<T>
    decreases entries.len(),
{
    if entries.len() == 0 {
        s
    } else {
        latched(latched_all(s, key, entries.drop_last()), key, entries.last())
    }
}

/// Latching any number of entries for one satellite leaves the cache as
/// if only the most recent entry had been latched: exactly one entry for
/// that satellite exists, and it holds the latest values.
pub proof fn lemma_latched_repeatedly<T>(s: Seq<T>, key: spec_fn(T) -> SV, entries: Seq<T>)
    requires
        entries.len() >= 1,
        forall|i: int| 0 <= i < entries.len() ==> key(#[trigger] entries[i]) == key(entries.last()),
    ensures
        latched_all(s, key, entries) == latched(s, key, entries.last()),
        count_key(latched_all(s, key, entries), key, key(entries.last())) == 1,
    decreases entries.len(),
{
    if entries.len() == 1 {
        assert(latched_all(s, key, entries.drop_last()) == s);
    } else {
        let rest = entries.drop_last();
        assert forall|i: int| 0 <= i < rest.len() implies key(#[trigger] rest[i]) == key(
            rest.last(),
        ) by {
            assert(rest[i] == entries[i]);
            assert(rest.last() == entries[entries.len() - 2]);
        }
        lemma_latched_repeatedly(s, key, rest);
        lemma_latch_latest_wins(s, key, rest.last(), entries.last());
    }
    lemma_latched_count(s, key, entries.last());
}

} // verus!
