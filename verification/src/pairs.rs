//! Lists of named values in which a name occurs once, in the order in which
//! the names first came.

use vstd::prelude::*;

verus! {

/// A list with the names taken as texts.
pub open spec fn keyed<V>(list: Seq<(String, V)>) -> Seq<(Seq<char>, V)> {
    Seq::new(list.len(), |i: int| (list[i].0@, list[i].1))
}

/// A list with the values taken as texts.
pub open spec fn texts(list: Seq<(Seq<char>, String)>) -> Seq<(Seq<char>, Seq<char>)> {
    Seq::new(list.len(), |i: int| (list[i].0, list[i].1@))
}

/// A list with names and values taken as texts.
pub open spec fn text_pairs(list: Seq<(String, String)>) -> Seq<(Seq<char>, Seq<char>)> {
    Seq::new(list.len(), |i: int| (list[i].0@, list[i].1@))
}

/// Where a name stands in a list; the list's length when it is not there.
pub open spec fn position<V>(list: Seq<(Seq<char>, V)>, name: Seq<char>) -> nat
    decreases list.len(),
{
    if list.len() == 0 || list[0].0 == name {
        0
    } else {
        1 + position(list.skip(1), name)
    }
}

/// The list after a name was given a value: in its place when the name was
/// there, at the end otherwise.
pub open spec fn put<V>(list: Seq<(Seq<char>, V)>, name: Seq<char>, value: V) -> Seq<(Seq<char>, V)> {
    let at = position(list, name);
    if at < list.len() {
        list.update(at as int, (name, value))
    } else {
        list.push((name, value))
    }
}

/// Whether no name occurs twice.
pub open spec fn distinct<V>(list: Seq<(Seq<char>, V)>) -> bool {
    forall|i: int, j: int| 0 <= i < j < list.len() ==> #[trigger] list[i].0 != #[trigger] list[j].0
}

pub proof fn lemma_position<V>(list: Seq<(Seq<char>, V)>, name: Seq<char>)
    ensures
        position(list, name) <= list.len(),
        position(list, name) < list.len() ==> list[position(list, name) as int].0 == name,
        forall|i: int| 0 <= i < position(list, name) ==> #[trigger] list[i].0 != name,
    decreases list.len(),
{
    if list.len() > 0 && list[0].0 != name {
        let rest = list.skip(1);
        lemma_position(rest, name);
        assert forall|i: int| 0 <= i < position(list, name) implies #[trigger] list[i].0 != name by {
            if i > 0 {
                assert(list[i] == rest[i - 1]);
            }
        }
    }
}

pub proof fn lemma_position_is<V>(list: Seq<(Seq<char>, V)>, name: Seq<char>, at: nat)
    requires
        at <= list.len(),
        forall|i: int| 0 <= i < at ==> #[trigger] list[i].0 != name,
        at == list.len() || list[at as int].0 == name,
    ensures
        position(list, name) == at,
    decreases list.len(),
{
    if list.len() > 0 && list[0].0 != name {
        let rest = list.skip(1);
        assert forall|i: int| 0 <= i < at - 1 implies #[trigger] rest[i].0 != name by {
            assert(rest[i] == list[i + 1]);
        }
        lemma_position_is(rest, name, (at - 1) as nat);
    }
}

/// Giving a name a value keeps every name unique, makes the name stand for the
/// value and leaves what the other names stand for.
pub proof fn lemma_put<V>(list: Seq<(Seq<char>, V)>, name: Seq<char>, value: V)
    requires
        distinct(list),
    ensures
        distinct(put(list, name, value)),
        put(list, name, value).contains((name, value)),
        forall|other: Seq<char>, v: V|
            other != name ==> (put(list, name, value).contains((other, v)) <==> list.contains((other, v))),
{
    lemma_position(list, name);
    let at = position(list, name);
    let after = put(list, name, value);
    if at < list.len() {
        assert(after[at as int] == (name, value));
        assert forall|i: int, j: int| 0 <= i < j < after.len() implies #[trigger] after[i].0 != #[trigger] after[j].0 by {
            assert(list[i].0 != list[j].0);
        }
        assert forall|other: Seq<char>, v: V| other != name implies (after.contains((other, v)) <==> list.contains(
            (other, v),
        )) by {
            if after.contains((other, v)) {
                let i = choose|i: int| 0 <= i < after.len() && after[i] == (other, v);
                assert(list[i] == (other, v));
            }
            if list.contains((other, v)) {
                let i = choose|i: int| 0 <= i < list.len() && list[i] == (other, v);
                assert(after[i] == (other, v));
            }
        }
    } else {
        assert(after[list.len() as int] == (name, value));
        assert forall|i: int, j: int| 0 <= i < j < after.len() implies #[trigger] after[i].0 != #[trigger] after[j].0 by {
            if j < list.len() {
                assert(list[i].0 != list[j].0);
            } else {
                assert(list[i].0 != name);
            }
        }
        assert forall|other: Seq<char>, v: V| other != name implies (after.contains((other, v)) <==> list.contains(
            (other, v),
        )) by {
            if after.contains((other, v)) {
                let i = choose|i: int| 0 <= i < after.len() && after[i] == (other, v);
                assert(list[i] == (other, v));
            }
            if list.contains((other, v)) {
                let i = choose|i: int| 0 <= i < list.len() && list[i] == (other, v);
                assert(after[i] == (other, v));
            }
        }
    }
}

/// Give a name a value.
pub fn insert<V>(list: &mut Vec<(String, V)>, name: String, value: V)
    ensures
        keyed(final(list)@) == put(keyed(old(list)@), name@, value),
{
    let ghost before = keyed(list@);
    let ghost text = name@;
    let mut i: usize = 0;
    while i < list.len() && !list[i].0.eq(&name)
        invariant
            i <= list@.len(),
            before == keyed(list@),
            text == name@,
            forall|j: int| 0 <= j < i ==> #[trigger] before[j].0 != text,
        decreases list@.len() - i,
    {
        i += 1;
    }
    proof {
        lemma_position_is(before, text, i as nat);
    }
    if i < list.len() {
        list.set(i, (name, value));
        assert(keyed(list@) =~= before.update(i as int, (text, value)));
    } else {
        list.push((name, value));
        assert(keyed(list@) =~= before.push((text, value)));
    }
}

/// Give a name a text.
pub fn insert_text(list: &mut Vec<(String, String)>, name: String, value: String)
    ensures
        text_pairs(final(list)@) == put(text_pairs(old(list)@), name@, value@),
{
    let ghost before = keyed(list@);
    let ghost text = value@;
    let ghost n = name@;
    let ghost v = value;
    insert(list, name, value);
    proof {
        lemma_texts_put(before, n, v);
        assert(texts(before) =~= text_pairs(old(list)@));
        assert(texts(keyed(list@)) =~= text_pairs(list@));
    }
}

proof fn lemma_texts_put(list: Seq<(Seq<char>, String)>, name: Seq<char>, value: String)
    ensures
        texts(put(list, name, value)) == put(texts(list), name, value@),
{
    lemma_position(list, name);
    let at = position(list, name);
    lemma_position_is(texts(list), name, at);
    assert(texts(put(list, name, value)) =~= put(texts(list), name, value@));
}

/// The value of a name.
pub fn find<'a, V>(list: &'a Vec<(String, V)>, name: &str) -> (r: Option<&'a V>)
    ensures
        match r {
            Some(value) => position(keyed(list@), name@) < list@.len() && *value == list@[position(
                keyed(list@),
                name@,
            ) as int].1,
            None => position(keyed(list@), name@) == list@.len(),
        },
{
    let wanted = name.to_string();
    let mut i: usize = 0;
    while i < list.len()
        invariant
            i <= list@.len(),
            wanted@ == name@,
            forall|j: int| 0 <= j < i ==> #[trigger] keyed(list@)[j].0 != name@,
        decreases list@.len() - i,
    {
        if list[i].0.eq(&wanted) {
            proof {
                lemma_position_is(keyed(list@), name@, i as nat);
            }
            return Some(&list[i].1);
        }
        i += 1;
    }
    proof {
        lemma_position_is(keyed(list@), name@, i as nat);
    }
    None
}

} // verus!
