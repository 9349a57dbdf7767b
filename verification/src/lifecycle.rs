//! What every body of the battle shares: it lives until something ends it,
//! and the dead are swept out at the end of a frame.

use vstd::prelude::*;

verus! {

/// A body that can die.
pub trait Mortal {
    /// Every part of the body is within its bounds.
    spec fn sound(&self) -> bool;

    spec fn lives(&self) -> bool;

    fn still_lives(&self) -> (r: bool)
        ensures
            r == self.lives(),
    ;
}

/// The living among `items`, in their order.
pub open spec fn living<T: Mortal>(items: Seq<T>) -> Seq<T> {
    items.filter(|e: T| e.lives())
}

pub open spec fn all_sound<T: Mortal>(items: Seq<T>) -> bool {
    forall|i: int| 0 <= i < items.len() ==> (#[trigger] items[i]).sound()
}

/// `after` is `before` with more behind it, or `before` itself.
pub open spec fn extends<T>(before: Seq<T>, after: Seq<T>) -> bool {
    before.len() <= after.len() && after.take(before.len() as int) == before
}

/// What extends a sequence still extends it with one more behind.
pub proof fn lemma_extends_push<T>(before: Seq<T>, after: Seq<T>, last: T)
    requires
        extends(before, after),
    ensures
        extends(before, after.push(last)),
{
    assert(after.push(last).take(before.len() as int) =~= after.take(before.len() as int));
}

/// A sequence extends itself.
pub proof fn lemma_extends_self<T>(items: Seq<T>)
    ensures
        extends(items, items),
{
    assert(items.take(items.len() as int) =~= items);
}

/// What extends an extension extends the sequence itself.
pub proof fn lemma_extends_twice<T>(before: Seq<T>, between: Seq<T>, after: Seq<T>)
    requires
        extends(before, between),
        extends(between, after),
    ensures
        extends(before, after),
{
    assert(after.take(before.len() as int) =~= between.take(before.len() as int));
}

/// Every one of the living is alive and was among `items`.
pub proof fn lemma_living_came_from<T: Mortal>(items: Seq<T>)
    ensures
        forall|i: int|
            0 <= i < living(items).len() ==> items.contains(#[trigger] living(items)[i]) && living(
                items,
            )[i].lives(),
{
    let alive = |e: T| e.lives();
    assert forall|i: int| 0 <= i < living(items).len() implies items.contains(#[trigger] living(items)[i])
        && living(items)[i].lives() by {
        items.lemma_filter_contains_rev(alive, living(items)[i]);
        items.lemma_filter_pred(alive, i);
    }
}

/// Sweeping out the dead leaves only bodies that were there.
pub proof fn lemma_living_sound<T: Mortal>(items: Seq<T>)
    requires
        all_sound(items),
    ensures
        all_sound(living(items)),
{
    lemma_living_came_from(items);
}

/// Removes the dead and keeps the living in their order.
pub fn keep_living<T: Mortal>(items: &mut Vec<T>)
    ensures
        final(items)@ == living(old(items)@),
{
    let ghost before = items@;
    let ghost alive = |e: T| e.lives();
    let mut kept: usize = 0;
    let ghost mut seen: int = 0;
    proof {
        assert(before.take(0) =~= Seq::<T>::empty());
        before.take(0).lemma_filter_len(alive);
        assert(before.take(0).filter(alive) =~= Seq::<T>::empty());
        assert(before.skip(0) =~= before);
    }
    while kept < items.len()
        invariant
            0 <= seen <= before.len(),
            kept <= items.len(),
            alive == (|e: T| e.lives()),
            items@ =~= before.take(seen).filter(alive) + before.skip(seen),
            kept == before.take(seen).filter(alive).len(),
        decreases before.len() - seen,
    {
        proof {
            assert(items@.len() == kept + (before.len() - seen));
            assert(items@[kept as int] == before.skip(seen)[0]);
            assert(before.take(seen + 1) =~= before.take(seen).push(before[seen]));
            before.take(seen).lemma_filter_push(before[seen], alive);
            assert(before.skip(seen + 1) =~= before.skip(seen).skip(1));
        }
        if items[kept].still_lives() {
            kept += 1;
        } else {
            items.remove(kept);
        }
        proof {
            seen = seen + 1;
        }
    }
    proof {
        assert(seen == before.len());
        assert(before.take(seen) =~= before);
        assert(before.skip(seen) =~= Seq::<T>::empty());
    }
}

} // verus!
