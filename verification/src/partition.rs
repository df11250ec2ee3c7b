//! Sequences in two parts: picking the items at the set or at the unset
//! flags of a sequence of flags, and putting the two parts together again.

use vstd::prelude::*;

verus! {

/// How many of the flags at the positions below `upto` are set.
pub open spec fn set_before(flags: Seq<bool>, upto: int) -> nat
    decreases upto,
{
    if upto <= 0 {
        0
    } else {
        set_before(flags, upto - 1) + if flags[upto - 1] {
            1nat
        } else {
            0nat
        }
    }
}

/// The items at the positions whose flag is `wanted`, in their order.
pub open spec fn pick<T>(flags: Seq<bool>, items: Seq<T>, wanted: bool) -> Seq<T>
    decreases flags.len(),
{
    if flags.len() == 0 {
        Seq::empty()
    } else {
        let before = pick(flags.drop_last(), items.drop_last(), wanted);
        if flags.last() == wanted {
            before.push(items.last())
        } else {
            before
        }
    }
}

/// One item per flag: at a position whose flag is set the next of
/// `captured`, at any other the next of `supplied`.
pub open spec fn interleave<T>(flags: Seq<bool>, captured: Seq<T>, supplied: Seq<T>) -> Seq<
    T,
> {
    Seq::new(
        flags.len(),
        |i: int|
            if flags[i] {
                captured[set_before(flags, i) as int]
            } else {
                supplied[i - set_before(flags, i)]
            },
    )
}

/// Between two positions there are no more set flags than positions.
pub proof fn lemma_set_before_grows(flags: Seq<bool>, from: int, to: int)
    requires
        0 <= from <= to,
    ensures
        set_before(flags, from) <= set_before(flags, to),
        set_before(flags, to) - set_before(flags, from) <= to - from,
    decreases to - from,
{
    if from < to {
        lemma_set_before_grows(flags, from, to - 1);
    }
}

/// The count of set flags below a position depends on the flags below it
/// only.
pub proof fn lemma_set_before_prefix(a: Seq<bool>, b: Seq<bool>, upto: int)
    requires
        0 <= upto <= a.len(),
        upto <= b.len(),
        forall|j: int| 0 <= j < upto ==> a[j] == b[j],
    ensures
        set_before(a, upto) == set_before(b, upto),
    decreases upto,
{
    if upto > 0 {
        lemma_set_before_prefix(a, b, upto - 1);
    }
}

/// As many items are picked as there are positions with the wanted flag.
pub proof fn lemma_pick_len<T>(flags: Seq<bool>, items: Seq<T>)
    requires
        flags.len() == items.len(),
    ensures
        pick(flags, items, true).len() == set_before(flags, flags.len() as int),
        pick(flags, items, false).len() == flags.len() - set_before(flags, flags.len() as int),
    decreases flags.len(),
{
    if flags.len() > 0 {
        lemma_pick_len(flags.drop_last(), items.drop_last());
        lemma_set_before_prefix(flags, flags.drop_last(), flags.len() - 1);
    }
}

/// Interleaving what was picked apart gives the sequence back: whatever the
/// order of set and unset flags, every item returns to its position.
pub proof fn lemma_interleave_of_picked<T>(flags: Seq<bool>, items: Seq<T>)
    requires
        flags.len() == items.len(),
    ensures
        interleave(flags, pick(flags, items, true), pick(flags, items, false)) == items,
    decreases flags.len(),
{
    let captured = pick(flags, items, true);
    let supplied = pick(flags, items, false);
    let whole = interleave(flags, captured, supplied);
    if flags.len() > 0 {
        let n = flags.len() - 1;
        let head = flags.drop_last();
        let items0 = items.drop_last();
        let captured0 = pick(head, items0, true);
        let supplied0 = pick(head, items0, false);
        let whole0 = interleave(head, captured0, supplied0);
        lemma_interleave_of_picked(head, items0);
        lemma_pick_len(head, items0);
        assert forall|i: int| 0 <= i < flags.len() implies whole[i] == items[i] by {
            if i < n {
                lemma_set_before_prefix(flags, head, i);
                lemma_set_before_grows(head, 0, i);
                lemma_set_before_grows(head, i + 1, n);
                assert(whole0[i] == items0[i]);
            } else {
                lemma_set_before_prefix(flags, head, n);
            }
        }
    }
}

/// Picking an interleaving apart gives back what was interleaved: the
/// captured items at the set flags, the supplied ones at the others.
pub proof fn lemma_pick_of_interleaved<T>(
    flags: Seq<bool>,
    captured: Seq<T>,
    supplied: Seq<T>,
)
    requires
        captured.len() == set_before(flags, flags.len() as int),
        captured.len() + supplied.len() == flags.len(),
    ensures
        pick(flags, interleave(flags, captured, supplied), true) == captured,
        pick(flags, interleave(flags, captured, supplied), false) == supplied,
    decreases flags.len(),
{
    let whole = interleave(flags, captured, supplied);
    if flags.len() > 0 {
        let n = flags.len() - 1;
        let head = flags.drop_last();
        lemma_set_before_prefix(flags, head, n);
        lemma_set_before_grows(flags, 0, n);
        let captured0 = if flags.last() {
            captured.take(captured.len() - 1)
        } else {
            captured
        };
        let supplied0 = if flags.last() {
            supplied
        } else {
            supplied.take(supplied.len() - 1)
        };
        let whole0 = interleave(head, captured0, supplied0);
        assert forall|i: int| 0 <= i < n implies whole.drop_last()[i] == whole0[i] by {
            lemma_set_before_prefix(flags, head, i);
            lemma_set_before_grows(head, 0, i);
            lemma_set_before_grows(head, i + 1, n);
        }
        assert(whole.drop_last() =~= whole0);
        lemma_pick_of_interleaved(head, captured0, supplied0);
    }
}

/// With a set flag at either end and two unset ones between them, the
/// captured items go to the ends and the supplied ones between them.
pub proof fn lemma_interleave_curried_ends<T>(first: T, a: T, b: T, last: T)
    ensures
        interleave(seq![true, false, false, true], seq![first, last], seq![a, b]) == seq![
            first,
            a,
            b,
            last,
        ],
{
    reveal_with_fuel(set_before, 5);
}

/// Without a set flag, picking the unset positions picks everything.
pub proof fn lemma_pick_all<T>(flags: Seq<bool>, items: Seq<T>)
    requires
        flags.len() == items.len(),
        pick(flags, items, true).len() == 0,
    ensures
        pick(flags, items, false) == items,
    decreases flags.len(),
{
    if flags.len() > 0 {
        lemma_pick_all(flags.drop_last(), items.drop_last());
    }
}

} // verus!
