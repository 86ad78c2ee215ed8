//! Sequences that are put together of others.

use vstd::prelude::*;

verus! {

/// How many items there are in the parts before the one at `end`.
pub open spec fn count_before<A>(parts: Seq<Seq<A>>, end: nat) -> nat
    decreases end,
{
    if end == 0 {
        0
    } else {
        count_before(parts, (end - 1) as nat) + parts[end - 1].len()
    }
}

/// Whether `s` has this item at this place.
pub open spec fn is_at<A>(s: Seq<A>, place: int, item: A) -> bool {
    0 <= place < s.len() && s[place] == item
}

/// Whether `whole` holds the items of all the parts, in order, and nothing else:
/// the item at `j` of the part at `i` comes behind all those of the earlier parts.
pub open spec fn holds_all<A>(whole: Seq<A>, parts: Seq<Seq<A>>) -> bool {
    &&& whole.len() == count_before(parts, parts.len())
    &&& forall|i: int, j: int|
        0 <= i < parts.len() && 0 <= j < parts[i].len() ==> is_at(
            whole,
            count_before(parts, i as nat) + j,
            #[trigger] parts[i][j],
        )
}

/// The count depends on the counted parts alone.
proof fn lemma_count_before_prefix<A>(parts: Seq<Seq<A>>, n: nat, end: nat)
    requires
        end <= n <= parts.len(),
    ensures
        count_before(parts.take(n as int), end) == count_before(parts, end),
    decreases end,
{
    if end > 0 {
        lemma_count_before_prefix(parts, n, (end - 1) as nat);
    }
}

/// Putting another part behind what holds the earlier ones holds it too.
pub proof fn lemma_holds_all_step<A>(whole: Seq<A>, parts: Seq<Seq<A>>)
    requires
        parts.len() > 0,
        holds_all(whole, parts.drop_last()),
    ensures
        holds_all(whole + parts.last(), parts),
{
    let last = (parts.len() - 1) as nat;
    let earlier = parts.drop_last();
    assert(earlier =~= parts.take(last as int));
    lemma_count_before_prefix(parts, last, last);
    let longer = whole + parts.last();
    assert forall|i: int, j: int|
        0 <= i < parts.len() && 0 <= j < parts[i].len() implies is_at(
        longer,
        count_before(parts, i as nat) + j,
        #[trigger] parts[i][j],
    ) by {
        if i < last {
            lemma_count_before_prefix(parts, last, i as nat);
            assert(earlier[i][j] == parts[i][j]);
        }
    }
}

/// Every place belongs to an item of a part.
proof fn lemma_every_place_is_held<A>(parts: Seq<Seq<A>>, end: nat, place: int) -> (at: (int, int))
    requires
        end <= parts.len(),
        0 <= place < count_before(parts, end),
    ensures
        0 <= at.0 < end,
        0 <= at.1 < parts[at.0].len(),
        place == count_before(parts, at.0 as nat) + at.1,
    decreases end,
{
    let before = (end - 1) as nat;
    if place < count_before(parts, before) {
        lemma_every_place_is_held(parts, before, place)
    } else {
        (before as int, place - count_before(parts, before))
    }
}

/// Concatenation holds all the parts.
proof fn lemma_flatten_holds_all<A>(parts: Seq<Seq<A>>)
    ensures
        holds_all(parts.flatten(), parts),
    decreases parts.len(),
{
    if parts.len() > 0 {
        lemma_flatten_holds_all(parts.drop_last());
        lemma_holds_all_step(parts.drop_last().flatten(), parts);
        parts.drop_last().lemma_flatten_push(parts.last());
        assert(parts.drop_last().push(parts.last()) =~= parts);
    }
}

/// What holds all the parts, in order and nothing else, is their concatenation.
pub proof fn lemma_holds_all_is_concatenation<A>(whole: Seq<A>, parts: Seq<Seq<A>>)
    requires
        holds_all(whole, parts),
    ensures
        whole == parts.flatten(),
{
    let flat = parts.flatten();
    lemma_flatten_holds_all(parts);
    assert forall|place: int| 0 <= place < whole.len() implies whole[place] == flat[place] by {
        let at = lemma_every_place_is_held(parts, parts.len(), place);
        let item = parts[at.0][at.1];
        assert(is_at(whole, place, item));
        assert(is_at(flat, place, item));
    }
    assert(whole =~= flat);
}

} // verus!
