//! Lookup of a name in an ordered list of names.

use vstd::prelude::*;

verus! {

/// The first position at or after `start` where `names` holds `name`.
pub open spec fn position_from(names: Seq<Seq<char>>, name: Seq<char>, start: int) -> Option<int>
    decreases names.len() - start,
{
    if start < 0 || start >= names.len() {
        None
    } else if names[start] == name {
        Some(start)
    } else {
        position_from(names, name, start + 1)
    }
}

/// The first position where `names` holds `name`.
pub open spec fn position(names: Seq<Seq<char>>, name: Seq<char>) -> Option<int> {
    position_from(names, name, 0)
}

/// Whether `names` holds `name`.
pub open spec fn holds(names: Seq<Seq<char>>, name: Seq<char>) -> bool {
    position(names, name) is Some
}

/// Whether no name occurs twice.
pub open spec fn distinct(names: Seq<Seq<char>>) -> bool {
    forall|i: int, j: int| 0 <= i < j < names.len() ==> names[i] != names[j]
}

/// What `position_from` finds is the first match at or after `start`.
pub proof fn lemma_position_from(names: Seq<Seq<char>>, name: Seq<char>, start: int)
    requires
        0 <= start,
    ensures
        match position_from(names, name, start) {
            Some(i) => start <= i < names.len() && names[i] == name && forall|j: int|
                start <= j < i ==> names[j] != name,
            None => forall|j: int| start <= j < names.len() ==> names[j] != name,
        },
    decreases names.len() - start,
{
    if start < names.len() && names[start] != name {
        lemma_position_from(names, name, start + 1);
    }
}

/// `position` finds the first match, and finds one whenever there is one.
pub proof fn lemma_position(names: Seq<Seq<char>>, name: Seq<char>)
    ensures
        match position(names, name) {
            Some(i) => 0 <= i < names.len() && names[i] == name && forall|j: int|
                0 <= j < i ==> names[j] != name,
            None => forall|j: int| 0 <= j < names.len() ==> names[j] != name,
        },
{
    lemma_position_from(names, name, 0);
}

/// A match with nothing equal before it is what `position` finds.
pub proof fn lemma_position_is(names: Seq<Seq<char>>, name: Seq<char>, i: int)
    requires
        0 <= i < names.len(),
        names[i] == name,
        forall|j: int| 0 <= j < i ==> names[j] != name,
    ensures
        position(names, name) == Some(i),
{
    lemma_position(names, name);
}

/// A name that nothing in the list equals has no position.
pub proof fn lemma_position_none(names: Seq<Seq<char>>, name: Seq<char>)
    requires
        forall|j: int| 0 <= j < names.len() ==> names[j] != name,
    ensures
        position(names, name) is None,
{
    lemma_position(names, name);
}

/// Appending a name keeps every earlier position, and gives the new name the last position
/// when it was not held before.
pub proof fn lemma_position_push(names: Seq<Seq<char>>, added: Seq<char>, name: Seq<char>)
    ensures
        position(names, name) is Some ==> position(names.push(added), name) == position(
            names,
            name,
        ),
        position(names, name) is None && added == name ==> position(names.push(added), name)
            == Some(names.len() as int),
        position(names, name) is None && added != name ==> position(names.push(added), name)
            is None,
{
    lemma_position(names, name);
    lemma_position(names.push(added), name);
    let grown = names.push(added);
    match position(names, name) {
        Some(i) => {
            assert(grown[i] == name);
            assert forall|j: int| 0 <= j < i implies grown[j] != name by {
                assert(grown[j] == names[j]);
            }
            lemma_position_is(grown, name, i);
        },
        None => {
            if added == name {
                assert(grown[names.len() as int] == name);
                assert forall|j: int| 0 <= j < names.len() implies grown[j] != name by {
                    assert(grown[j] == names[j]);
                }
                lemma_position_is(grown, name, names.len() as int);
            } else {
                assert forall|j: int| 0 <= j < grown.len() implies grown[j] != name by {
                    if j < names.len() {
                        assert(grown[j] == names[j]);
                    }
                }
                lemma_position_none(grown, name);
            }
        },
    }
}

/// A name is held by the first `n + 1` names exactly when it is held by the first `n` or is
/// the name at `n`.
pub proof fn lemma_holds_take(names: Seq<Seq<char>>, n: int, name: Seq<char>)
    requires
        0 <= n < names.len(),
    ensures
        holds(names.take(n + 1), name) <==> holds(names.take(n), name) || names[n] == name,
        holds(names.take(n), name) ==> position(names.take(n + 1), name) == position(
            names.take(n),
            name,
        ),
{
    assert(names.take(n + 1) =~= names.take(n).push(names[n]));
    lemma_position_push(names.take(n), names[n], name);
}

} // verus!
