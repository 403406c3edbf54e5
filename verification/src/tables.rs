//! Small collections of strings: sets of names kept without repeats, and
//! tables of names and values kept in order of names.
use vstd::prelude::*;
use crate::text::{
    first_index, lemma_first_index, lemma_first_index_is, lemma_first_index_none, str_eq, owned,
    str_lt, str_less, lemma_str_lt_irreflexive, lemma_str_lt_transitive, lemma_str_lt_total,
    opt_view,
};

verus! {

// ---------------------------------------------------------------------------
// Small collections of strings
// ---------------------------------------------------------------------------

/// The views of a sequence of strings.
pub open spec fn strings_view(v: Seq<String>) -> Seq<Seq<char>> {
    v.map_values(|s: String| s@)
}

/// A copy of a sequence of strings.
pub fn clone_strings(v: &Vec<String>) -> (r: Vec<String>)
    ensures
        strings_view(r@) == strings_view(v@),
{
    let mut r: Vec<String> = Vec::new();
    let mut i: usize = 0;
    while i < v.len()
        invariant
            i <= v.len(),
            r@.len() == i,
            forall|j: int| 0 <= j < i ==> (#[trigger] r@[j])@ == v@[j]@,
        decreases v.len() - i,
    {
        r.push(v[i].clone());
        i = i + 1;
    }
    proof {
        assert(strings_view(r@) =~= strings_view(v@));
    }
    r
}

/// A set of names held in a sequence: adding a name already there changes
/// nothing.
pub open spec fn names_insert(names: Seq<Seq<char>>, n: Seq<char>) -> Seq<Seq<char>> {
    if names.contains(n) {
        names
    } else {
        names.push(n)
    }
}

/// The names other than `n`.
pub open spec fn names_remove(names: Seq<Seq<char>>, n: Seq<char>) -> Seq<Seq<char>> {
    names.filter(|x: Seq<char>| x != n)
}

pub fn names_contains(v: &Vec<String>, n: &str) -> (r: bool)
    ensures
        r == strings_view(v@).contains(n@),
{
    let mut i: usize = 0;
    while i < v.len()
        invariant
            i <= v.len(),
            forall|j: int| 0 <= j < i ==> v@[j]@ != n@,
        decreases v.len() - i,
    {
        if str_eq(v[i].as_str(), n) {
            proof {
                assert(strings_view(v@)[i as int] == n@);
            }
            return true;
        }
        i = i + 1;
    }
    false
}

pub fn names_add(v: &mut Vec<String>, n: &str)
    ensures
        strings_view(final(v)@) == names_insert(strings_view(old(v)@), n@),
{
    if !names_contains(v, n) {
        v.push(owned(n));
        proof {
            assert(strings_view(final(v)@) =~= strings_view(old(v)@).push(n@));
        }
    }
}

pub fn names_drop(v: &mut Vec<String>, n: &str) -> (r: bool)
    ensures
        strings_view(final(v)@) == names_remove(strings_view(old(v)@), n@),
        r == strings_view(old(v)@).contains(n@),
        !r ==> strings_view(final(v)@) == strings_view(old(v)@),
{
    let found = names_contains(v, n);
    let mut kept: Vec<String> = Vec::new();
    let mut i: usize = 0;
    let ghost old_v = strings_view(v@);
    while i < v.len()
        invariant
            i <= v.len(),
            old_v == strings_view(v@),
            strings_view(kept@) == names_remove(old_v.take(i as int), n@),
            found == old_v.contains(n@),
            !found ==> strings_view(kept@) == old_v.take(i as int),
        decreases v.len() - i,
    {
        proof {
            assert(old_v.take(i + 1).drop_last() =~= old_v.take(i as int));
            reveal(Seq::filter);
        }
        if !str_eq(v[i].as_str(), n) {
            kept.push(v[i].clone());
        }
        proof {
            assert(strings_view(kept@) =~= names_remove(old_v.take(i + 1), n@));
            if !found {
                assert(old_v[i as int] != n@);
                assert(strings_view(kept@) =~= old_v.take(i + 1));
            }
        }
        i = i + 1;
    }
    proof {
        assert(old_v.take(v.len() as int) =~= old_v);
    }
    *v = kept;
    found
}

/// A table of names and values, kept in ascending order of names (the order
/// of `BTreeMap<String, String>`).
pub open spec fn table_view(v: Seq<(String, String)>) -> Seq<(Seq<char>, Seq<char>)> {
    v.map_values(|e: (String, String)| (e.0@, e.1@))
}

/// The predicate "the entry has the name `k`".
pub open spec fn entry_named(k: Seq<char>) -> spec_fn((Seq<char>, Seq<char>)) -> bool {
    |e: (Seq<char>, Seq<char>)| e.0 == k
}

/// The value the table holds for `k`.
pub open spec fn table_lookup(t: Seq<(Seq<char>, Seq<char>)>, k: Seq<char>) -> Option<Seq<char>> {
    match first_index(t, entry_named(k)) {
        Some(i) => Some(t[i].1),
        None => None,
    }
}

/// Whether the names of a table ascend strictly.
pub open spec fn table_sorted(t: Seq<(Seq<char>, Seq<char>)>) -> bool {
    forall|i: int, j: int| 0 <= i < j < t.len() ==> str_lt(#[trigger] t[i].0, #[trigger] t[j].0)
}

/// The table with `k` set to `v`: the entry named `k` takes the new value,
/// or a new entry goes before the first name that comes after `k`.
pub open spec fn table_insert(t: Seq<(Seq<char>, Seq<char>)>, k: Seq<char>, v: Seq<char>) -> Seq<
    (Seq<char>, Seq<char>),
>
    decreases t.len(),
{
    if t.len() == 0 {
        seq![(k, v)]
    } else if t[0].0 == k {
        t.update(0, (k, v))
    } else if str_lt(k, t[0].0) {
        seq![(k, v)] + t
    } else {
        seq![t[0]] + table_insert(t.drop_first(), k, v)
    }
}

pub proof fn lemma_table_insert_step(t: Seq<(Seq<char>, Seq<char>)>, k: Seq<char>, v: Seq<char>, i: int)
    requires
        0 <= i < t.len(),
        t[i].0 != k,
        !str_lt(k, t[i].0),
    ensures
        table_insert(t.skip(i), k, v) == seq![t[i]] + table_insert(t.skip(i + 1), k, v),
{
    assert(t.skip(i).drop_first() =~= t.skip(i + 1));
}

/// Setting a name keeps a sorted table sorted; afterwards the name holds the
/// new value and every other name its old one.
pub proof fn law_table_insert(t: Seq<(Seq<char>, Seq<char>)>, k: Seq<char>, v: Seq<char>)
    requires
        table_sorted(t),
    ensures
        table_sorted(table_insert(t, k, v)),
        forall|x: Seq<char>| #[trigger]
            table_lookup(table_insert(t, k, v), x) == if x == k {
                Some(v)
            } else {
                table_lookup(t, x)
            },
    decreases t.len(),
{
    let r = table_insert(t, k, v);
    if t.len() == 0 {
        assert forall|x: Seq<char>| #[trigger]
            table_lookup(r, x) == if x == k {
                Some(v)
            } else {
                table_lookup(t, x)
            } by {
            lemma_first_index(r, entry_named(x));
            lemma_first_index(t, entry_named(x));
        }
    } else if t[0].0 == k {
        assert forall|i: int, j: int| 0 <= i < j < r.len() implies str_lt(#[trigger] r[i].0, #[trigger] r[j].0) by {
            assert(str_lt(t[i].0, t[j].0));
        }
        assert forall|x: Seq<char>| #[trigger]
            table_lookup(r, x) == if x == k {
                Some(v)
            } else {
                table_lookup(t, x)
            } by {
            lemma_first_index(r, entry_named(x));
            lemma_first_index(t, entry_named(x));
            if x == k {
                lemma_first_index_is(r, entry_named(x), 0);
            } else {
                assert(r[0].0 != x);
                match first_index(t, entry_named(x)) {
                    Some(i) => {
                        lemma_first_index_is(r, entry_named(x), i);
                    },
                    None => {
                        lemma_first_index_none(r, entry_named(x));
                    },
                }
            }
        }
    } else if str_lt(k, t[0].0) {
        assert forall|i: int, j: int| 0 <= i < j < r.len() implies str_lt(#[trigger] r[i].0, #[trigger] r[j].0) by {
            if i == 0 {
                if j > 1 {
                    assert(str_lt(t[0].0, t[j - 1].0));
                    lemma_str_lt_transitive(k, t[0].0, t[j - 1].0);
                }
            } else {
                assert(str_lt(t[i - 1].0, t[j - 1].0));
            }
        }
        assert forall|x: Seq<char>| #[trigger]
            table_lookup(r, x) == if x == k {
                Some(v)
            } else {
                table_lookup(t, x)
            } by {
            lemma_first_index(r, entry_named(x));
            lemma_first_index(t, entry_named(x));
            if x == k {
                lemma_first_index_is(r, entry_named(x), 0);
            } else {
                match first_index(t, entry_named(x)) {
                    Some(i) => {
                        assert forall|j: int| 0 <= j < i + 1 implies !entry_named(x)(#[trigger] r[j]) by {
                            if j > 0 {
                                assert(r[j] == t[j - 1]);
                            }
                        }
                        lemma_first_index_is(r, entry_named(x), i + 1);
                    },
                    None => {
                        assert forall|j: int| 0 <= j < r.len() implies !entry_named(x)(#[trigger] r[j]) by {
                            if j > 0 {
                                assert(r[j] == t[j - 1]);
                            }
                        }
                        lemma_first_index_none(r, entry_named(x));
                    },
                }
            }
        }
    } else {
        let rest = t.drop_first();
        assert(table_sorted(rest)) by {
            assert forall|i: int, j: int| 0 <= i < j < rest.len() implies str_lt(#[trigger] rest[i].0, #[trigger] rest[j].0) by {
                assert(str_lt(t[i + 1].0, t[j + 1].0));
            }
        }
        law_table_insert(rest, k, v);
        let ri = table_insert(rest, k, v);
        lemma_str_lt_total(k, t[0].0);
        assert(str_lt(t[0].0, k));
        assert forall|y: int| 0 <= y < ri.len() implies str_lt(t[0].0, #[trigger] ri[y].0) by {
            let x = ri[y].0;
            lemma_first_index(ri, entry_named(x));
            assert(entry_named(x)(ri[y]));
            if x != k {
                assert(table_lookup(ri, x) == table_lookup(rest, x));
                lemma_first_index(rest, entry_named(x));
                let ti = first_index(rest, entry_named(x))->0;
                assert(rest[ti].0 == x);
                assert(str_lt(t[0].0, t[ti + 1].0));
            }
        }
        assert forall|i: int, j: int| 0 <= i < j < r.len() implies str_lt(#[trigger] r[i].0, #[trigger] r[j].0) by {
            if i == 0 {
                assert(r[j] == ri[j - 1]);
            } else {
                assert(r[i] == ri[i - 1]);
                assert(r[j] == ri[j - 1]);
            }
        }
        assert forall|x: Seq<char>| #[trigger]
            table_lookup(r, x) == if x == k {
                Some(v)
            } else {
                table_lookup(t, x)
            } by {
            lemma_first_index(r, entry_named(x));
            lemma_first_index(t, entry_named(x));
            lemma_first_index(ri, entry_named(x));
            lemma_first_index(rest, entry_named(x));
            assert(table_lookup(ri, x) == if x == k {
                Some(v)
            } else {
                table_lookup(rest, x)
            });
            if x == t[0].0 {
                lemma_first_index_is(r, entry_named(x), 0);
                lemma_first_index_is(t, entry_named(x), 0);
            } else {
                assert(!entry_named(x)(r[0]));
                assert(!entry_named(x)(t[0]));
                match first_index(ri, entry_named(x)) {
                    Some(i) => {
                        assert forall|j: int| 0 <= j < i + 1 implies !entry_named(x)(#[trigger] r[j]) by {
                            if j > 0 {
                                assert(r[j] == ri[j - 1]);
                            }
                        }
                        lemma_first_index_is(r, entry_named(x), i + 1);
                        assert(r[i + 1] == ri[i]);
                    },
                    None => {
                        assert forall|j: int| 0 <= j < r.len() implies !entry_named(x)(#[trigger] r[j]) by {
                            if j > 0 {
                                assert(r[j] == ri[j - 1]);
                            }
                        }
                        lemma_first_index_none(r, entry_named(x));
                    },
                }
                match first_index(rest, entry_named(x)) {
                    Some(i) => {
                        assert forall|j: int| 0 <= j < i + 1 implies !entry_named(x)(#[trigger] t[j]) by {
                            if j > 0 {
                                assert(t[j] == rest[j - 1]);
                            }
                        }
                        lemma_first_index_is(t, entry_named(x), i + 1);
                        assert(t[i + 1] == rest[i]);
                    },
                    None => {
                        assert forall|j: int| 0 <= j < t.len() implies !entry_named(x)(#[trigger] t[j]) by {
                            if j > 0 {
                                assert(t[j] == rest[j - 1]);
                            }
                        }
                        lemma_first_index_none(t, entry_named(x));
                    },
                }
            }
        }
    }
}

pub fn table_set(t: &mut Vec<(String, String)>, k: &str, v: &str)
    ensures
        table_view(final(t)@) == table_insert(table_view(old(t)@), k@, v@),
{
    let ghost tv = table_view(t@);
    let mut i: usize = 0;
    proof {
        assert(tv.skip(0) =~= tv);
        assert(tv.take(0) + table_insert(tv.skip(0), k@, v@) =~= table_insert(tv, k@, v@));
    }
    while i < t.len()
        invariant
            i <= t.len(),
            tv == table_view(t@),
            tv == table_view(old(t)@),
            table_insert(tv, k@, v@) == tv.take(i as int) + table_insert(tv.skip(i as int), k@, v@),
        decreases t.len() - i,
    {
        proof {
            assert(tv.skip(i as int)[0] == tv[i as int]);
        }
        if str_eq(t[i].0.as_str(), k) {
            proof {
                let rest = tv.skip(i as int);
                assert(rest[0].0 == k@);
                assert(table_insert(rest, k@, v@) == rest.update(0, (k@, v@)));
            }
            t.set(i, (owned(k), owned(v)));
            proof {
                assert(table_view(t@) =~= tv.update(i as int, (k@, v@)));
                assert(table_view(t@) =~= table_insert(tv, k@, v@));
            }
            return;
        }
        if str_less(k, t[i].0.as_str()) {
            proof {
                let rest = tv.skip(i as int);
                assert(rest[0].0 != k@);
                assert(str_lt(k@, rest[0].0));
                assert(table_insert(rest, k@, v@) == seq![(k@, v@)] + rest);
            }
            t.insert(i, (owned(k), owned(v)));
            proof {
                assert(table_view(t@) =~= tv.take(i as int) + (seq![(k@, v@)] + tv.skip(i as int)));
                assert(table_view(t@) =~= table_insert(tv, k@, v@));
            }
            return;
        }
        proof {
            lemma_table_insert_step(tv, k@, v@, i as int);
            assert(tv.take(i as int) + seq![tv[i as int]] =~= tv.take(i + 1));
        }
        i = i + 1;
    }
    t.push((owned(k), owned(v)));
    proof {
        assert(tv.skip(i as int) =~= Seq::<(Seq<char>, Seq<char>)>::empty());
        assert(tv.take(i as int) =~= tv);
        assert(table_view(t@) =~= table_insert(tv, k@, v@));
    }
}

pub fn table_get(t: &Vec<(String, String)>, k: &str) -> (r: Option<String>)
    ensures
        r.deep_view() == table_lookup(table_view(t@), k@),
{
    let ghost tv = table_view(t@);
    let mut i: usize = 0;
    while i < t.len()
        invariant
            i <= t.len(),
            tv == table_view(t@),
            forall|j: int| 0 <= j < i ==> !entry_named(k@)(#[trigger] tv[j]),
        decreases t.len() - i,
    {
        if str_eq(t[i].0.as_str(), k) {
            proof {
                lemma_first_index_is(tv, entry_named(k@), i as int);
            }
            return Some(t[i].1.clone());
        }
        i = i + 1;
    }
    proof {
        lemma_first_index_none(tv, entry_named(k@));
    }
    None
}

pub fn clone_table(t: &Vec<(String, String)>) -> (r: Vec<(String, String)>)
    ensures
        table_view(r@) == table_view(t@),
{
    let mut r: Vec<(String, String)> = Vec::new();
    let mut i: usize = 0;
    while i < t.len()
        invariant
            i <= t.len(),
            r@.len() == i,
            forall|j: int| 0 <= j < i ==> (#[trigger] r@[j]).0@ == t@[j].0@ && r@[j].1@ == t@[j].1@,
        decreases t.len() - i,
    {
        r.push((t[i].0.clone(), t[i].1.clone()));
        i = i + 1;
    }
    proof {
        assert(table_view(r@) =~= table_view(t@));
    }
    r
}

/// What `show-options NAME` lists: the entry for that name, if any.
pub open spec fn table_show(t: Seq<(Seq<char>, Seq<char>)>, name: Option<Seq<char>>) -> Seq<
    (Seq<char>, Seq<char>),
> {
    match name {
        Some(n) => match table_lookup(t, n) {
            Some(v) => seq![(n, v)],
            None => seq![],
        },
        None => t,
    }
}

pub fn table_show_exec(t: &Vec<(String, String)>, name: Option<&str>) -> (r: Vec<(String, String)>)
    ensures
        table_view(r@) == table_show(table_view(t@), opt_view(name)),
{
    match name {
        Some(n) => match table_get(t, n) {
            Some(v) => {
                let r = vec![(owned(n), v)];
                proof {
                    assert(table_view(r@) =~= table_show(table_view(t@), opt_view(name)));
                }
                r
            },
            None => {
                let r: Vec<(String, String)> = Vec::new();
                proof {
                    assert(table_view(r@) =~= table_show(table_view(t@), opt_view(name)));
                }
                r
            },
        },
        None => clone_table(t),
    }
}

/// The message log after logging `m`: only the newest 200 messages stay.
pub open spec fn log_push(log: Seq<Seq<char>>, m: Seq<char>) -> Seq<Seq<char>> {
    let l = log.push(m);
    if l.len() > 200 {
        l.skip(l.len() - 200)
    } else {
        l
    }
}


/// The table without the entry named `k`.
pub open spec fn table_remove(t: Seq<(Seq<char>, Seq<char>)>, k: Seq<char>) -> Seq<(Seq<char>, Seq<char>)> {
    match first_index(t, entry_named(k)) {
        Some(i) => t.remove(i),
        None => t,
    }
}

/// Removes the entry named `k`.
pub fn table_delete(t: &mut Vec<(String, String)>, k: &str)
    ensures
        table_view(final(t)@) == table_remove(table_view(old(t)@), k@),
{
    let ghost tv = table_view(t@);
    let mut i: usize = 0;
    while i < t.len()
        invariant
            i <= t.len(),
            tv == table_view(t@),
            tv == table_view(old(t)@),
            forall|j: int| 0 <= j < i ==> !entry_named(k@)(#[trigger] tv[j]),
        decreases t.len() - i,
    {
        if str_eq(t[i].0.as_str(), k) {
            proof {
                lemma_first_index_is(tv, entry_named(k@), i as int);
            }
            t.remove(i);
            proof {
                assert(table_view(t@) =~= tv.remove(i as int));
            }
            return;
        }
        i = i + 1;
    }
    proof {
        lemma_first_index_none(tv, entry_named(k@));
    }
}

/// Removing a name keeps a sorted table sorted.
pub proof fn law_table_remove_sorted(t: Seq<(Seq<char>, Seq<char>)>, k: Seq<char>)
    requires
        table_sorted(t),
    ensures
        table_sorted(table_remove(t, k)),
{
    lemma_first_index(t, entry_named(k));
    if let Some(x) = first_index(t, entry_named(k)) {
        let r = t.remove(x);
        assert forall|i: int, j: int| 0 <= i < j < r.len() implies str_lt(#[trigger] r[i].0, #[trigger] r[j].0) by {
            let i0 = if i < x { i } else { i + 1 };
            let j0 = if j < x { j } else { j + 1 };
            assert(r[i] == t[i0]);
            assert(r[j] == t[j0]);
        }
    }
}

} // verus!
