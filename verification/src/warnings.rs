//! Reuse warnings: how many entries share an entry's user name, and how
//! many share its password, so that weak spots show at a glance.

use vstd::prelude::*;

use crate::db::Entry;

verus! {

/// How many of `vals` are `v`.
pub open spec fn count_equal(vals: Seq<Seq<char>>, v: Seq<char>) -> nat
    decreases vals.len(),
{
    if vals.len() == 0 {
        0
    } else {
        count_equal(vals.drop_last(), v) + if vals.last() == v {
            1nat
        } else {
            0nat
        }
    }
}

/// How many entries share the value `v`: none for an empty value, which is
/// no reuse, and otherwise the entries holding exactly `v`, the entry itself
/// among them.
pub open spec fn reuse_of(vals: Seq<Seq<char>>, v: Seq<char>) -> nat {
    if v.len() == 0 {
        0
    } else {
        count_equal(vals, v)
    }
}

/// The user names of the entries.
pub open spec fn users_of(entries: Seq<Entry>) -> Seq<Seq<char>> {
    entries.map_values(|e: Entry| e.user@)
}

/// The passwords of the entries.
pub open spec fn passwords_of(entries: Seq<Entry>) -> Seq<Seq<char>> {
    entries.map_values(|e: Entry| e.password@)
}

/// How many entries hold `v` as user name (`user`) or as password.
fn count_sharing(entries: &Vec<Entry>, v: &String, user: bool) -> (c: usize)
    ensures
        c == reuse_of(if user { users_of(entries@) } else { passwords_of(entries@) }, v@),
{
    let ghost vals = if user {
        users_of(entries@)
    } else {
        passwords_of(entries@)
    };
    if v.as_str().is_empty() {
        return 0;
    }
    let mut c: usize = 0;
    let mut j: usize = 0;
    while j < entries.len()
        invariant
            j <= entries@.len(),
            vals == if user { users_of(entries@) } else { passwords_of(entries@) },
            c == count_equal(vals.take(j as int), v@),
            c <= j,
        decreases entries@.len() - j,
    {
        assert(vals.take(j + 1).drop_last() == vals.take(j as int));
        let same = if user {
            entries[j].user == *v
        } else {
            entries[j].password == *v
        };
        if same {
            c = c + 1;
        }
        j = j + 1;
    }
    assert(vals.take(entries@.len() as int) == vals);
    c
}

/// For every entry, how many entries share its user name and how many
/// share its password.
pub fn reuse_counts(entries: &Vec<Entry>) -> (r: Vec<(usize, usize)>)
    ensures
        r@.len() == entries@.len(),
        forall|i: int|
            0 <= i < r@.len() ==> #[trigger] r@[i].0 == reuse_of(users_of(entries@), entries@[i].user@)
                && r@[i].1 == reuse_of(passwords_of(entries@), entries@[i].password@),
{
    let mut r: Vec<(usize, usize)> = Vec::new();
    let mut i: usize = 0;
    while i < entries.len()
        invariant
            i <= entries@.len(),
            r@.len() == i,
            forall|k: int|
                0 <= k < i ==> #[trigger] r@[k].0 == reuse_of(users_of(entries@), entries@[k].user@)
                    && r@[k].1 == reuse_of(passwords_of(entries@), entries@[k].password@),
        decreases entries@.len() - i,
    {
        let users = count_sharing(entries, &entries[i].user, true);
        let passwords = count_sharing(entries, &entries[i].password, false);
        r.push((users, passwords));
        i = i + 1;
    }
    r
}

/// How many entries of the list share the user name and the password of
/// `entry`, which may be one of them or a copy being edited.
pub fn reuse_of_entry(entries: &Vec<Entry>, entry: &Entry) -> (r: (usize, usize))
    ensures
        r.0 == reuse_of(users_of(entries@), entry.user@),
        r.1 == reuse_of(passwords_of(entries@), entry.password@),
{
    (count_sharing(entries, &entry.user, true), count_sharing(entries, &entry.password, false))
}

/// Two entries with the same non-empty user name get the same user count,
/// and it counts both of them.
pub proof fn lemma_shared_user_counted(entries: Seq<Entry>, i: int, j: int)
    requires
        0 <= i < entries.len(),
        0 <= j < entries.len(),
        i != j,
        entries[i].user@ == entries[j].user@,
        entries[i].user@.len() > 0,
    ensures
        reuse_of(users_of(entries), entries[i].user@) == reuse_of(users_of(entries), entries[j].user@),
        reuse_of(users_of(entries), entries[i].user@) >= 2,
{
    lemma_count_at_least_two(users_of(entries), entries[i].user@, i, j);
}

proof fn lemma_count_at_least_two(vals: Seq<Seq<char>>, v: Seq<char>, i: int, j: int)
    requires
        0 <= i < vals.len(),
        0 <= j < vals.len(),
        i != j,
        vals[i] == v,
        vals[j] == v,
    ensures
        count_equal(vals, v) >= 2,
    decreases vals.len(),
{
    let n = vals.len() - 1;
    if i < n && j < n {
        assert(vals.drop_last()[i] == v && vals.drop_last()[j] == v);
        lemma_count_at_least_two(vals.drop_last(), v, i, j);
    } else {
        let k = if i == n { j } else { i };
        assert(vals.drop_last()[k] == v);
        lemma_count_at_least_one(vals.drop_last(), v, k);
    }
}

proof fn lemma_count_at_least_one(vals: Seq<Seq<char>>, v: Seq<char>, k: int)
    requires
        0 <= k < vals.len(),
        vals[k] == v,
    ensures
        count_equal(vals, v) >= 1,
    decreases vals.len(),
{
    if k < vals.len() - 1 {
        assert(vals.drop_last()[k] == v);
        lemma_count_at_least_one(vals.drop_last(), v, k);
    }
}

/// The reuse count of a non-empty value is the number of values equal to
/// it, every one of them counted and no cap; an empty value counts none.
pub proof fn lemma_reuse_is_the_number_of_sharers(vals: Seq<Seq<char>>, v: Seq<char>)
    ensures
        v.len() > 0 ==> reuse_of(vals, v) == vals.filter(|x: Seq<char>| x == v).len(),
        v.len() == 0 ==> reuse_of(vals, v) == 0,
    decreases vals.len(),
{
    reveal(Seq::filter);
    if vals.len() > 0 {
        lemma_reuse_is_the_number_of_sharers(vals.drop_last(), v);
    }
}

/// One more entry holding a non-empty user name or password raises the
/// count of every entry sharing it by one and leaves the counts of other
/// values as they were.
pub proof fn lemma_one_more_sharer(entries: Seq<Entry>, e: Entry, v: Seq<char>)
    ensures
        e.user@.len() > 0 ==> reuse_of(users_of(entries.push(e)), e.user@) == reuse_of(
            users_of(entries),
            e.user@,
        ) + 1,
        e.password@.len() > 0 ==> reuse_of(passwords_of(entries.push(e)), e.password@) == reuse_of(
            passwords_of(entries),
            e.password@,
        ) + 1,
        v != e.user@ ==> reuse_of(users_of(entries.push(e)), v) == reuse_of(users_of(entries), v),
        v != e.password@ ==> reuse_of(passwords_of(entries.push(e)), v) == reuse_of(
            passwords_of(entries),
            v,
        ),
{
    assert(users_of(entries.push(e)).drop_last() =~= users_of(entries));
    assert(passwords_of(entries.push(e)).drop_last() =~= passwords_of(entries));
}

} // verus!
