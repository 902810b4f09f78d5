//! Sorting in descending order, with what compares equal left as it stands.

use vstd::prelude::*;
use vstd::string::*;

use crate::text::chars_of;

verus! {

/// Whether a text comes behind another in the order of their characters.
pub open spec fn text_above(left: Seq<char>, right: Seq<char>) -> bool
    decreases left.len(),
{
    if left.len() == 0 {
        false
    } else if right.len() == 0 {
        true
    } else if left[0] != right[0] {
        left[0] > right[0]
    } else {
        text_above(left.skip(1), right.skip(1))
    }
}

/// What can be sorted: values of which one is above another.
pub trait Rank: Sized {
    /// Whether this value is above another.
    spec fn is_above(&self, other: &Self) -> bool;

    /// Tells whether this value is above another.
    fn above(&self, other: &Self) -> (r: bool)
        ensures
            r == self.is_above(other),
    ;

    /// Of two values, not both are above each other.
    proof fn lemma_asymmetric(left: &Self, right: &Self)
        ensures
            !(left.is_above(right) && right.is_above(left)),
    ;

    /// A value that is above another is above whatever that is not below.
    proof fn lemma_transitive(left: &Self, middle: &Self, right: &Self)
        requires
            !left.is_above(middle),
            !middle.is_above(right),
        ensures
            !left.is_above(right),
    ;
}

impl Rank for i64 {
    open spec fn is_above(&self, other: &Self) -> bool {
        *self > *other
    }

    fn above(&self, other: &Self) -> (r: bool) {
        *self > *other
    }

    proof fn lemma_asymmetric(left: &Self, right: &Self) {
    }

    proof fn lemma_transitive(left: &Self, middle: &Self, right: &Self) {
    }
}

impl Rank for Option<i128> {
    open spec fn is_above(&self, other: &Self) -> bool {
        match (*self, *other) {
            (Some(left), Some(right)) => left > right,
            (Some(_), None) => true,
            _ => false,
        }
    }

    fn above(&self, other: &Self) -> (r: bool) {
        match (*self, *other) {
            (Some(left), Some(right)) => left > right,
            (Some(_), None) => true,
            _ => false,
        }
    }

    proof fn lemma_asymmetric(left: &Self, right: &Self) {
    }

    proof fn lemma_transitive(left: &Self, middle: &Self, right: &Self) {
    }
}

proof fn lemma_text_asymmetric(left: Seq<char>, right: Seq<char>)
    ensures
        !(text_above(left, right) && text_above(right, left)),
    decreases left.len(),
{
    if left.len() > 0 && right.len() > 0 && left[0] == right[0] {
        lemma_text_asymmetric(left.skip(1), right.skip(1));
    }
}

proof fn lemma_text_transitive(left: Seq<char>, middle: Seq<char>, right: Seq<char>)
    requires
        !text_above(left, middle),
        !text_above(middle, right),
    ensures
        !text_above(left, right),
    decreases left.len(),
{
    if left.len() > 0 && middle.len() > 0 && right.len() > 0 && left[0] == middle[0] && middle[0]
        == right[0] {
        lemma_text_transitive(left.skip(1), middle.skip(1), right.skip(1));
    }
}

impl Rank for String {
    open spec fn is_above(&self, other: &Self) -> bool {
        text_above(self@, other@)
    }

    fn above(&self, other: &Self) -> (r: bool) {
        let left = chars_of(self);
        let right = chars_of(other);
        let mut i: usize = 0;
        assert(left@.skip(0) =~= left@);
        assert(right@.skip(0) =~= right@);
        while i < left.len() && i < right.len()
            invariant
                i <= left@.len(),
                i <= right@.len(),
                left@ == self@,
                right@ == other@,
                text_above(left@, right@) == text_above(
                    left@.skip(i as int),
                    right@.skip(i as int),
                ),
            decreases left@.len() - i,
        {
            assert(left@.skip(i as int).skip(1) =~= left@.skip(i + 1));
            assert(right@.skip(i as int).skip(1) =~= right@.skip(i + 1));
            if left[i] != right[i] {
                return left[i] > right[i];
            }
            i += 1;
        }
        i < left.len()
    }

    proof fn lemma_asymmetric(left: &Self, right: &Self) {
        lemma_text_asymmetric(left@, right@);
    }

    proof fn lemma_transitive(left: &Self, middle: &Self, right: &Self) {
        lemma_text_transitive(left@, middle@, right@);
    }
}

/// Whether places are those of so many values, each of them once.
pub open spec fn is_rearrangement(order: Seq<usize>, count: int) -> bool {
    &&& order.len() == count
    &&& forall|i: int| 0 <= i < order.len() ==> 0 <= #[trigger] order[i] < count
    &&& forall|i: int, j: int| 0 <= i < j < order.len() ==> order[i] != order[j]
    &&& forall|place: int| 0 <= place < count ==> #[trigger] stands_in(order, place)
}

/// Whether a place is among others.
pub open spec fn stands_in(order: Seq<usize>, place: int) -> bool {
    exists|i: int| 0 <= i < order.len() && #[trigger] order[i] == place
}

/// Whether the value at one place goes before that at another: it is above
/// it, or as high and earlier.
pub open spec fn goes_before<K: Rank>(keys: Seq<K>, first: int, second: int) -> bool {
    keys[first].is_above(&keys[second]) || (!keys[second].is_above(&keys[first]) && first < second)
}

/// Whether places are in descending order of the values there, with what is
/// as high left as it stands.
pub open spec fn goes_down<K: Rank>(keys: Seq<K>, order: Seq<usize>) -> bool {
    forall|i: int, j: int|
        #![trigger order[i], order[j]]
        0 <= i < j < order.len() ==> goes_before(keys, order[i] as int, order[j] as int)
}

/// What stands in some places, one behind the other.
pub open spec fn rearranged<T>(items: Seq<T>, order: Seq<usize>) -> Seq<T> {
    Seq::new(order.len(), |i: int| items[order[i] as int])
}

/// The order is descending and stable, and there is only one such order.
pub proof fn law_descending_order_is_determined<K: Rank>(
    keys: Seq<K>,
    left: Seq<usize>,
    right: Seq<usize>,
)
    requires
        is_rearrangement(left, keys.len() as int),
        is_rearrangement(right, keys.len() as int),
        goes_down(keys, left),
        goes_down(keys, right),
    ensures
        left == right,
{
    assert forall|i: int| 0 <= i < left.len() implies left[i] == right[i] by {
        lemma_same_place(keys, left, right, i);
    }
    assert(left =~= right);
}

proof fn lemma_same_place<K: Rank>(keys: Seq<K>, left: Seq<usize>, right: Seq<usize>, at: int)
    requires
        is_rearrangement(left, keys.len() as int),
        is_rearrangement(right, keys.len() as int),
        goes_down(keys, left),
        goes_down(keys, right),
        0 <= at < left.len(),
    ensures
        left[at] == right[at],
    decreases at,
{
    assert forall|i: int| 0 <= i < at implies left[i] == right[i] by {
        lemma_same_place(keys, left, right, i);
    }
    if left[at] != right[at] {
        assert(stands_in(right, left[at] as int));
        assert(stands_in(left, right[at] as int));
        let there = choose|j: int| 0 <= j < right.len() && #[trigger] right[j] == left[at];
        let here = choose|j: int| 0 <= j < left.len() && #[trigger] left[j] == right[at];
        if there < at {
            assert(left[there] == right[there]);
        }
        if here < at {
            assert(left[here] == right[here]);
        }
        assert(there > at && here > at);
        assert(goes_before(keys, left[at] as int, left[here] as int));
        assert(goes_before(keys, right[at] as int, right[there] as int));
        K::lemma_asymmetric(&keys[left[at] as int], &keys[right[at] as int]);
    }
}

proof fn lemma_inserted<K: Rank>(keys: Seq<K>, before: Seq<usize>, at: int, place: usize)
    requires
        0 <= at <= before.len(),
        place < keys.len(),
        is_rearrangement(before, place as int),
        goes_down(keys, before),
        forall|i: int|
            0 <= i < at ==> !keys[place as int].is_above(&keys[#[trigger] before[i] as int]),
        at < before.len() ==> keys[place as int].is_above(&keys[before[at] as int]),
    ensures
        is_rearrangement(before.insert(at, place), place + 1),
        goes_down(keys, before.insert(at, place)),
{
    let after = before.insert(at, place);
    assert forall|other: int| 0 <= other < place + 1 implies #[trigger] stands_in(after, other) by {
        if other == place {
            assert(after[at] == other);
        } else {
            assert(stands_in(before, other));
            let i = choose|i: int| 0 <= i < before.len() && #[trigger] before[i] == other;
            if i < at {
                assert(after[i] == other);
            } else {
                assert(after[i + 1] == other);
            }
        }
    }
    assert forall|i: int| at <= i < before.len() implies keys[place as int].is_above(
        &keys[#[trigger] before[i] as int],
    ) by {
        if i > at {
            assert(goes_before(keys, before[at] as int, before[i] as int));
            K::lemma_asymmetric(&keys[before[at] as int], &keys[before[i] as int]);
            if !keys[place as int].is_above(&keys[before[i] as int]) {
                K::lemma_transitive(
                    &keys[place as int],
                    &keys[before[i] as int],
                    &keys[before[at] as int],
                );
            }
        }
    }
    assert forall|i: int, j: int|
        #![trigger after[i], after[j]]
        0 <= i < j < after.len() implies goes_before(keys, after[i] as int, after[j] as int) by {
        if j < at {
            assert(after[i] == before[i] && after[j] == before[j]);
        } else if j == at {
            assert(after[i] == before[i]);
        } else if i < at {
            assert(after[i] == before[i] && after[j] == before[j - 1]);
        } else if i == at {
            assert(after[j] == before[j - 1]);
        } else {
            assert(after[i] == before[i - 1] && after[j] == before[j - 1]);
        }
    }
    assert forall|i: int, j: int| 0 <= i < j < after.len() implies after[i] != after[j] by {
        let left = if i < at {
            i
        } else {
            i - 1
        };
        let right = if j < at {
            j
        } else {
            j - 1
        };
        if i != at && j != at {
            assert(before[left] != before[right]);
        } else if i == at {
            assert(before[right] < place);
        } else {
            assert(before[left] < place);
        }
    }
    assert forall|i: int| 0 <= i < after.len() implies 0 <= #[trigger] after[i] < place + 1 by {
        if i < at {
            assert(before[i] < place);
        } else if i > at {
            assert(before[i - 1] < place);
        }
    }
}

/// The places of values in descending order, with what is as high left as it
/// stands.
pub fn descending_order<K: Rank>(keys: &Vec<K>) -> (r: Vec<usize>)
    ensures
        is_rearrangement(r@, keys@.len() as int),
        goes_down(keys@, r@),
{
    let mut order: Vec<usize> = Vec::new();
    let mut place: usize = 0;
    while place < keys.len()
        invariant
            place <= keys@.len(),
            is_rearrangement(order@, place as int),
            goes_down(keys@, order@),
        decreases keys@.len() - place,
    {
        let mut at: usize = 0;
        while at < order.len() && !keys[place].above(&keys[order[at]])
            invariant
                at <= order@.len(),
                place < keys@.len(),
                is_rearrangement(order@, place as int),
                forall|i: int|
                    0 <= i < at ==> !keys@[place as int].is_above(
                        &keys@[#[trigger] order@[i] as int],
                    ),
            decreases order@.len() - at,
        {
            at += 1;
        }
        proof {
            lemma_inserted(keys@, order@, at as int, place);
        }
        order.insert(at, place);
        place += 1;
    }
    order
}

} // verus!
