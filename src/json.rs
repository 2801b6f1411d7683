//! A JSON document as the relay reads and writes it.

use vstd::prelude::*;

verus! {

/// A JSON value. A number is kept as its text, since nothing here computes
/// with one; an object keeps its members in document order.
#[derive(Debug)]
pub enum JsonValue {
    Null,
    Bool(bool),
    Number(String),
    Str(String),
    Array(Vec<JsonValue>),
    Object(Vec<(String, JsonValue)>),
}

/// The value of the last member named `k`.
pub open spec fn lookup(members: Seq<(String, JsonValue)>, k: Seq<char>) -> Option<JsonValue>
    decreases members.len(),
{
    if members.len() == 0 {
        None
    } else if members.last().0@ == k {
        Some(members.last().1)
    } else {
        lookup(members.drop_last(), k)
    }
}

/// Every member's name is one of `names`.
pub open spec fn names_within(members: Seq<(String, JsonValue)>, names: Seq<Seq<char>>) -> bool {
    forall|i: int| 0 <= i < members.len() ==> names.contains(#[trigger] members[i].0@)
}

/// No name occurs twice.
pub open spec fn names_distinct(members: Seq<(String, JsonValue)>) -> bool {
    forall|i: int, j: int|
        0 <= i < j < members.len() ==> #[trigger] members[i].0@ != #[trigger] members[j].0@
}

/// The value of member `k` of `members`.
pub fn member<'a>(members: &'a Vec<(String, JsonValue)>, k: &String) -> (r: Option<&'a JsonValue>)
    ensures
        match r {
            Some(v) => lookup(members@, k@) == Some(*v),
            None => lookup(members@, k@) is None,
        },
{
    let mut i: usize = members.len();
    assert(members@.take(i as int) =~= members@);
    while i > 0
        invariant
            i <= members.len(),
            lookup(members@, k@) == lookup(members@.take(i as int), k@),
        decreases i,
    {
        let ghost t = members@.take(i as int);
        if members[i - 1].0.eq(k) {
            return Some(&members[i - 1].1);
        }
        assert(t.drop_last() =~= members@.take(i - 1));
        i = i - 1;
    }
    assert(members@.take(0) =~= Seq::<(String, JsonValue)>::empty());
    None
}

/// Whether every member is named by one of `names`, and no name occurs twice.
pub fn names_fit(members: &Vec<(String, JsonValue)>, names: &Vec<String>) -> (r: bool)
    ensures
        r == (names_within(members@, names@.map_values(|s: String| s@)) && names_distinct(
            members@,
        )),
{
    let ghost allowed = names@.map_values(|s: String| s@);
    let mut i: usize = 0;
    while i < members.len()
        invariant
            i <= members.len(),
            allowed == names@.map_values(|s: String| s@),
            names_within(members@.take(i as int), allowed),
            names_distinct(members@.take(i as int)),
        decreases members.len() - i,
    {
        let key = &members[i].0;
        let mut known = false;
        let mut n: usize = 0;
        while n < names.len()
            invariant
                n <= names.len(),
                allowed == names@.map_values(|s: String| s@),
                known == (exists|m: int| 0 <= m < n && allowed[m] == key@),
            decreases names.len() - n,
        {
            assert(allowed[n as int] == names@[n as int]@);
            if names[n].eq(key) {
                known = true;
            }
            n = n + 1;
        }
        if !known {
            assert(!allowed.contains(members@[i as int].0@));
            assert(!names_within(members@, allowed));
            return false;
        }
        let mut j: usize = 0;
        while j < i
            invariant
                j <= i < members.len(),
                key@ == members@[i as int].0@,
                forall|m: int| 0 <= m < j ==> members@[m].0@ != members@[i as int].0@,
            decreases i - j,
        {
            if members[j].0.eq(key) {
                assert(members@[j as int].0@ == members@[i as int].0@);
                assert(!names_distinct(members@));
                return false;
            }
            j = j + 1;
        }
        assert(names_within(members@.take(i + 1), allowed)) by {
            assert forall|m: int| 0 <= m < i + 1 implies allowed.contains(
                #[trigger] members@.take(i + 1)[m].0@,
            ) by {
                if m < i {
                    assert(members@.take(i + 1)[m] == members@.take(i as int)[m]);
                }
            }
        }
        assert(names_distinct(members@.take(i + 1))) by {
            assert forall|a: int, b: int| 0 <= a < b < i + 1 implies #[trigger] members@.take(
                i + 1,
            )[a].0@ != #[trigger] members@.take(i + 1)[b].0@ by {
                if b < i {
                    assert(members@.take(i + 1)[a] == members@.take(i as int)[a]);
                    assert(members@.take(i + 1)[b] == members@.take(i as int)[b]);
                }
            }
        }
        i = i + 1;
    }
    assert(members@.take(members.len() as int) =~= members@);
    true
}

} // verus!
