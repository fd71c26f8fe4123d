//! The host input values a stream manifest keeps for its pipeline, by key:
//! an update sets or clears values under keys that are trimmed and put in
//! ASCII lower case. The values are held as a map sorted by key, each key
//! once; `V` stands for the stored value.
use vstd::prelude::*;
use crate::streams::edits::{lemma_lex_lt_irreflexive, lemma_lex_lt_transitive, lemma_lex_total, lex_lt, str_less};
use crate::text::{lower_seq, seq_eq, to_lower, trim, trim_str};

verus! {

/// Keys in increasing order, each once.
pub open spec fn keys_ascending<V>(s: Seq<(String, V)>) -> bool {
    forall|i: int, j: int| 0 <= i < j < s.len() ==> lex_lt((#[trigger] s[i]).0@, (#[trigger] s[j]).0@)
}

/// The values by key.
pub open spec fn entries_map<V>(s: Seq<(String, V)>) -> Map<Seq<char>, V>
    decreases s.len(),
{
    if s.len() == 0 {
        Map::empty()
    } else {
        entries_map(s.drop_last()).insert(s.last().0@, s.last().1)
    }
}

/// The key an update names: trimmed, in ASCII lower case.
pub open spec fn input_key(raw: Seq<char>) -> Seq<char> {
    lower_seq(trim(raw))
}

pub open spec fn update_views<V>(u: Seq<(String, Option<V>)>) -> Seq<(Seq<char>, Option<V>)> {
    u.map_values(|x: (String, Option<V>)| (x.0@, x.1))
}

/// The values after the first `n` updates, in order: a blank key is
/// skipped, a value is set under its key, and no value clears the key.
pub open spec fn updated<V>(m: Map<Seq<char>, V>, u: Seq<(Seq<char>, Option<V>)>, n: int) -> Map<Seq<char>, V>
    decreases n,
{
    if n <= 0 {
        m
    } else {
        let prev = updated(m, u, n - 1);
        let k = input_key(u[n - 1].0);
        if k.len() == 0 {
            prev
        } else {
            match u[n - 1].1 {
                Some(v) => prev.insert(k, v),
                None => prev.remove(k),
            }
        }
    }
}

proof fn lemma_lex_distinct(a: Seq<char>, b: Seq<char>)
    requires
        lex_lt(a, b),
    ensures
        a != b,
{
    if a == b {
        lemma_lex_lt_irreflexive(a, 0);
    }
}

/// With keys each once, the map holds exactly the keys of the entries,
/// each with its entry's value.
proof fn lemma_entries_map<V>(s: Seq<(String, V)>)
    requires
        keys_ascending(s),
    ensures
        forall|k: Seq<char>| #[trigger] entries_map(s).contains_key(k) <==> exists|i: int| 0 <= i < s.len() && (#[trigger] s[i]).0@ == k,
        forall|i: int| 0 <= i < s.len() ==> #[trigger] entries_map(s)[s[i].0@] == s[i].1,
    decreases s.len(),
{
    if s.len() > 0 {
        let d = s.drop_last();
        assert(keys_ascending(d)) by {
            assert forall|i: int, j: int| 0 <= i < j < d.len() implies lex_lt((#[trigger] d[i]).0@, (#[trigger] d[j]).0@) by {
                assert(d[i] == s[i] && d[j] == s[j]);
            }
        }
        lemma_entries_map(d);
        let x = s.last();
        assert(entries_map(s) == entries_map(d).insert(x.0@, x.1));
        assert forall|k: Seq<char>| #[trigger] entries_map(s).contains_key(k) <==> exists|i: int| 0 <= i < s.len() && (#[trigger] s[i]).0@ == k by {
            if entries_map(s).contains_key(k) && k != x.0@ {
                assert(entries_map(d).contains_key(k));
                let i = choose|i: int| 0 <= i < d.len() && (#[trigger] d[i]).0@ == k;
                assert(s[i] == d[i]);
            }
            if exists|i: int| 0 <= i < s.len() && (#[trigger] s[i]).0@ == k {
                let i = choose|i: int| 0 <= i < s.len() && (#[trigger] s[i]).0@ == k;
                if i < d.len() {
                    assert(d[i] == s[i]);
                }
            }
        }
        assert forall|i: int| 0 <= i < s.len() implies #[trigger] entries_map(s)[s[i].0@] == s[i].1 by {
            if i < d.len() {
                assert(d[i] == s[i]);
                assert(lex_lt(s[i].0@, s[s.len() - 1].0@));
                lemma_lex_distinct(s[i].0@, x.0@);
                assert(entries_map(d)[d[i].0@] == d[i].1);
            }
        }
    }
}

/// The first position whose key is not below `key`.
fn key_position<V>(s: &Vec<(String, V)>, key: &str) -> (r: usize)
    ensures
        r <= s@.len(),
        forall|i: int| 0 <= i < r ==> lex_lt((#[trigger] s@[i]).0@, key@),
        r < s@.len() ==> !lex_lt(s@[r as int].0@, key@),
{
    let mut i: usize = 0;
    while i < s.len() && str_less(s[i].0.as_str(), key)
        invariant
            i <= s@.len(),
            forall|k: int| 0 <= k < i ==> lex_lt((#[trigger] s@[k]).0@, key@),
        decreases s@.len() - i,
    {
        i = i + 1;
    }
    i
}

/// No entry at or after `p` has a key below `key` or equal to it, when the
/// entry at `p` has a key above it.
proof fn lemma_above_from<V>(s: Seq<(String, V)>, key: Seq<char>, p: int)
    requires
        keys_ascending(s),
        0 <= p < s.len(),
        lex_lt(key, s[p].0@),
    ensures
        forall|j: int| p <= j < s.len() ==> lex_lt(key, (#[trigger] s[j]).0@),
{
    assert forall|j: int| p <= j < s.len() implies lex_lt(key, (#[trigger] s[j]).0@) by {
        if j > p {
            lemma_lex_lt_transitive(key, s[p].0@, s[j].0@, 0);
        }
    }
}

/// Sets `value` under `key`, keeping the keys in order.
pub(crate) fn set_input<V>(entries: &mut Vec<(String, V)>, key: String, value: V)
    requires
        keys_ascending(old(entries)@),
    ensures
        keys_ascending(final(entries)@),
        entries_map(final(entries)@) == entries_map(old(entries)@).insert(key@, value),
{
    let ghost s = entries@;
    let ghost kv = key@;
    proof {
        lemma_entries_map(s);
    }
    let p = key_position(entries, key.as_str());
    if p < entries.len() && seq_eq(entries[p].0.as_str(), key.as_str()) {
        let ghost x = (key, value);
        entries.set(p, (key, value));
        let ghost t = entries@;
        assert(t == s.update(p as int, x));
        assert(keys_ascending(t)) by {
            assert forall|i: int, j: int| 0 <= i < j < t.len() implies lex_lt((#[trigger] t[i]).0@, (#[trigger] t[j]).0@) by {
                assert(t[i].0@ == s[i].0@ && t[j].0@ == s[j].0@);
            }
        }
        proof {
            lemma_entries_map(t);
            assert forall|k: Seq<char>| #[trigger] entries_map(t).contains_key(k) <==> entries_map(s).insert(kv, value).contains_key(k) by {
                if exists|i: int| 0 <= i < t.len() && (#[trigger] t[i]).0@ == k {
                    let i = choose|i: int| 0 <= i < t.len() && (#[trigger] t[i]).0@ == k;
                    assert(s[i].0@ == k);
                }
                if exists|i: int| 0 <= i < s.len() && (#[trigger] s[i]).0@ == k {
                    let i = choose|i: int| 0 <= i < s.len() && (#[trigger] s[i]).0@ == k;
                    assert(t[i].0@ == k);
                }
                if k == kv {
                    assert(t[p as int].0@ == k);
                }
            }
            assert forall|k: Seq<char>| #[trigger] entries_map(t).contains_key(k) implies entries_map(t)[k] == entries_map(s).insert(kv, value)[k] by {
                let i = choose|i: int| 0 <= i < t.len() && (#[trigger] t[i]).0@ == k;
                assert(entries_map(t)[t[i].0@] == t[i].1);
                if i != p {
                    assert(t[i] == s[i]);
                    assert(s[i].0@ != kv) by {
                        if i < p {
                            lemma_lex_distinct(s[i].0@, s[p as int].0@);
                        } else {
                            lemma_lex_distinct(s[p as int].0@, s[i].0@);
                        }
                    }
                }
            }
            assert(entries_map(t) =~= entries_map(s).insert(kv, value));
        }
    } else {
        let ghost x = (key, value);
        proof {
            if (p as int) < s.len() {
                lemma_lex_total(kv, s[p as int].0@);
                lemma_above_from(s, kv, p as int);
            }
        }
        entries.insert(p, (key, value));
        let ghost t = entries@;
        assert(t == s.insert(p as int, x));
        assert(keys_ascending(t)) by {
            assert forall|i: int, j: int| 0 <= i < j < t.len() implies lex_lt((#[trigger] t[i]).0@, (#[trigger] t[j]).0@) by {
                if j < p {
                    assert(t[i] == s[i] && t[j] == s[j]);
                } else if j == p {
                    assert(t[i] == s[i]);
                } else if i == p {
                    assert(t[j] == s[j - 1]);
                } else if i < p {
                    assert(t[i] == s[i] && t[j] == s[j - 1]);
                    lemma_lex_lt_transitive(s[i].0@, kv, s[j - 1].0@, 0);
                } else {
                    assert(t[i] == s[i - 1] && t[j] == s[j - 1]);
                }
            }
        }
        proof {
            lemma_entries_map(t);
            assert forall|k: Seq<char>| #[trigger] entries_map(t).contains_key(k) <==> entries_map(s).insert(kv, value).contains_key(k) by {
                if exists|i: int| 0 <= i < t.len() && (#[trigger] t[i]).0@ == k {
                    let i = choose|i: int| 0 <= i < t.len() && (#[trigger] t[i]).0@ == k;
                    if i < p {
                        assert(s[i] == t[i]);
                    } else if i > p {
                        assert(s[i - 1] == t[i]);
                    }
                }
                if exists|i: int| 0 <= i < s.len() && (#[trigger] s[i]).0@ == k {
                    let i = choose|i: int| 0 <= i < s.len() && (#[trigger] s[i]).0@ == k;
                    if i < p {
                        assert(t[i] == s[i]);
                    } else {
                        assert(t[i + 1] == s[i]);
                    }
                }
                if k == kv {
                    assert(t[p as int].0@ == k);
                }
            }
            assert forall|k: Seq<char>| #[trigger] entries_map(t).contains_key(k) implies entries_map(t)[k] == entries_map(s).insert(kv, value)[k] by {
                let i = choose|i: int| 0 <= i < t.len() && (#[trigger] t[i]).0@ == k;
                assert(entries_map(t)[t[i].0@] == t[i].1);
                if i < p {
                    assert(t[i] == s[i]);
                    lemma_lex_distinct(s[i].0@, kv);
                } else if i > p {
                    assert(t[i] == s[i - 1]);
                    lemma_lex_distinct(kv, s[i - 1].0@);
                }
            }
            assert(entries_map(t) =~= entries_map(s).insert(kv, value));
        }
    }
}

/// Where the value under `key` is kept, if there is one.
pub(crate) fn find_input<V>(entries: &Vec<(String, V)>, key: &str) -> (r: Option<usize>)
    requires
        keys_ascending(entries@),
    ensures
        match r {
            Some(i) => i < entries@.len() && entries@[i as int].0@ == key@ && entries_map(entries@).contains_key(key@)
                && entries_map(entries@)[key@] == entries@[i as int].1,
            None => !entries_map(entries@).contains_key(key@),
        },
{
    let ghost s = entries@;
    let ghost kv = key@;
    proof {
        lemma_entries_map(s);
    }
    let p = key_position(entries, key);
    if p < entries.len() && seq_eq(entries[p].0.as_str(), key) {
        proof {
            assert(entries_map(s)[s[p as int].0@] == s[p as int].1);
        }
        Some(p)
    } else {
        proof {
            assert(!entries_map(s).contains_key(kv)) by {
                if exists|i: int| 0 <= i < s.len() && (#[trigger] s[i]).0@ == kv {
                    let i = choose|i: int| 0 <= i < s.len() && (#[trigger] s[i]).0@ == kv;
                    if i < p {
                        lemma_lex_distinct(s[i].0@, kv);
                    } else {
                        lemma_lex_total(kv, s[p as int].0@);
                        lemma_above_from(s, kv, p as int);
                        lemma_lex_distinct(kv, s[i].0@);
                    }
                }
            }
        }
        None
    }
}

/// Clears the value under `key`, if there is one.
fn clear_input<V>(entries: &mut Vec<(String, V)>, key: &str)
    requires
        keys_ascending(old(entries)@),
    ensures
        keys_ascending(final(entries)@),
        entries_map(final(entries)@) == entries_map(old(entries)@).remove(key@),
{
    let ghost s = entries@;
    let ghost kv = key@;
    proof {
        lemma_entries_map(s);
    }
    let p = key_position(entries, key);
    if p < entries.len() && seq_eq(entries[p].0.as_str(), key) {
        let _gone = entries.remove(p);
        let ghost t = entries@;
        assert(t == s.remove(p as int));
        assert(keys_ascending(t)) by {
            assert forall|i: int, j: int| 0 <= i < j < t.len() implies lex_lt((#[trigger] t[i]).0@, (#[trigger] t[j]).0@) by {
                if j < p {
                    assert(t[i] == s[i] && t[j] == s[j]);
                } else if i < p {
                    assert(t[i] == s[i] && t[j] == s[j + 1]);
                } else {
                    assert(t[i] == s[i + 1] && t[j] == s[j + 1]);
                }
            }
        }
        proof {
            lemma_entries_map(t);
            assert forall|k: Seq<char>| #[trigger] entries_map(t).contains_key(k) <==> entries_map(s).remove(kv).contains_key(k) by {
                if exists|i: int| 0 <= i < t.len() && (#[trigger] t[i]).0@ == k {
                    let i = choose|i: int| 0 <= i < t.len() && (#[trigger] t[i]).0@ == k;
                    if i < p {
                        assert(s[i] == t[i]);
                        lemma_lex_distinct(s[i].0@, s[p as int].0@);
                    } else {
                        assert(s[i + 1] == t[i]);
                        lemma_lex_distinct(s[p as int].0@, s[i + 1].0@);
                    }
                }
                if k != kv && exists|i: int| 0 <= i < s.len() && (#[trigger] s[i]).0@ == k {
                    let i = choose|i: int| 0 <= i < s.len() && (#[trigger] s[i]).0@ == k;
                    if i < p {
                        assert(t[i] == s[i]);
                    } else {
                        assert(i != p);
                        assert(t[i - 1] == s[i]);
                    }
                }
            }
            assert forall|k: Seq<char>| #[trigger] entries_map(t).contains_key(k) implies entries_map(t)[k] == entries_map(s).remove(kv)[k] by {
                let i = choose|i: int| 0 <= i < t.len() && (#[trigger] t[i]).0@ == k;
                assert(entries_map(t)[t[i].0@] == t[i].1);
                if i < p {
                    assert(t[i] == s[i]);
                } else {
                    assert(t[i] == s[i + 1]);
                }
            }
            assert(entries_map(t) =~= entries_map(s).remove(kv));
        }
    } else {
        proof {
            assert(!entries_map(s).contains_key(kv)) by {
                if exists|i: int| 0 <= i < s.len() && (#[trigger] s[i]).0@ == kv {
                    let i = choose|i: int| 0 <= i < s.len() && (#[trigger] s[i]).0@ == kv;
                    if i < p {
                        lemma_lex_distinct(s[i].0@, kv);
                    } else {
                        lemma_lex_total(kv, s[p as int].0@);
                        lemma_above_from(s, kv, p as int);
                        lemma_lex_distinct(kv, s[i].0@);
                    }
                }
            }
            assert(entries_map(s).remove(kv) =~= entries_map(s));
        }
    }
}

/// Applies a host input update to the values a manifest keeps: each entry
/// in turn, its key trimmed and put in ASCII lower case, a blank key
/// skipped, a value set and no value cleared.
pub fn apply_pipeline_host_inputs_update<V>(entries: &mut Vec<(String, V)>, updates: Vec<(String, Option<V>)>)
    requires
        keys_ascending(old(entries)@),
    ensures
        keys_ascending(final(entries)@),
        entries_map(final(entries)@) == updated(
            entries_map(old(entries)@),
            update_views(updates@),
            updates@.len() as int,
        ),
{
    let ghost u = update_views(updates@);
    let count = updates.len();
    let ghost n = updates@.len();
    let ghost start = entries_map(entries@);
    let mut rest = updates;
    let mut i: usize = 0;
    while rest.len() > 0
        invariant
            u == update_views(updates@),
            n == updates@.len(),
            n == count,
            i <= n,
            rest@.len() == n - i,
            forall|j: int| 0 <= j < rest@.len() ==> (#[trigger] rest@[j]).0@ == u[i + j].0 && rest@[j].1 == u[i + j].1,
            keys_ascending(entries@),
            entries_map(entries@) == updated(start, u, i as int),
        decreases rest@.len(),
    {
        let ghost r0 = rest@;
        let (raw, value) = rest.remove(0);
        assert(raw@ == u[i as int].0 && value == u[i as int].1);
        assert forall|j: int| 0 <= j < rest@.len() implies (#[trigger] rest@[j]).0@ == u[i + 1 + j].0 && rest@[j].1 == u[i + 1 + j].1 by {
            assert(rest@[j] == r0[j + 1]);
        }
        let key = to_lower(trim_str(raw.as_str()));
        if key.as_str().unicode_len() > 0 {
            match value {
                Some(v) => set_input(entries, key, v),
                None => clear_input(entries, key.as_str()),
            }
        }
        i = i + 1;
    }
}

} // verus!
