//! Shard sets and slots: what it is for them to be well sized, and the
//! functions that test and convert them.

use vstd::prelude::*;
use crate::error::RseError;

verus! {

/// A shard set whose shards all have the same nonzero number of bytes.
pub open spec fn uniform(shards: Seq<Seq<u8>>) -> bool {
    &&& shards.len() > 0
    &&& shards[0].len() > 0
    &&& forall|i: int| 0 <= i < shards.len() ==> (#[trigger] shards[i]).len() == shards[0].len()
}

/// The shards that are present in a set of slots are not empty and all have
/// the same number of bytes.
pub open spec fn consistent(slots: Seq<Option<Seq<u8>>>) -> bool {
    &&& forall|i: int|
        0 <= i < slots.len() && (#[trigger] slots[i]) is Some ==> slots[i]->Some_0.len() > 0
    &&& forall|i: int, j: int|
        0 <= i < slots.len() && 0 <= j < slots.len() && (#[trigger] slots[i]) is Some
            && (#[trigger] slots[j]) is Some ==> slots[i]->Some_0.len() == slots[j]->Some_0.len()
}

/// Every shard of the set is as long as each shard that the slots hold.
pub open spec fn sized_like(shards: Seq<Seq<u8>>, slots: Seq<Option<Seq<u8>>>) -> bool {
    forall|i: int, j: int|
        0 <= i < shards.len() && 0 <= j < slots.len() && (#[trigger] slots[j]) is Some
            ==> (#[trigger] shards[i]).len() == slots[j]->Some_0.len()
}

/// How many of the slots hold a shard.
pub open spec fn present_count(slots: Seq<Option<Seq<u8>>>) -> nat
    decreases slots.len(),
{
    if slots.len() == 0 {
        0
    } else if slots.last() is Some {
        present_count(slots.drop_last()) + 1
    } else {
        present_count(slots.drop_last())
    }
}

/// The slots that a list of buffers stands for: an empty buffer marks a
/// missing shard, any other buffer is a shard that is present.
pub open spec fn slots_of(buffers: Seq<Seq<u8>>) -> Seq<Option<Seq<u8>>> {
    Seq::new(
        buffers.len(),
        |i: int| if buffers[i].len() == 0 { None } else { Some(buffers[i]) },
    )
}

/// A shard set of which the shards at the indices in `gone` have been lost.
pub open spec fn erased(shards: Seq<Seq<u8>>, gone: Set<int>) -> Seq<Option<Seq<u8>>> {
    Seq::new(shards.len(), |i: int| if gone.contains(i) { None } else { Some(shards[i]) })
}

/// A shard set in which the shards at the indices in `gone` have been
/// replaced by empty buffers.
pub open spec fn blanked(shards: Seq<Seq<u8>>, gone: Set<int>) -> Seq<Seq<u8>> {
    Seq::new(shards.len(), |i: int| if gone.contains(i) { Seq::empty() } else { shards[i] })
}

/// Whether each of the first `count` slots holds a shard.
pub open spec fn leading_present(slots: Seq<Option<Seq<u8>>>, count: nat) -> bool {
    &&& count <= slots.len()
    &&& forall|i: int| 0 <= i < count ==> (#[trigger] slots[i]) is Some
}

/// The shards in the first `count` slots.
pub open spec fn leading_shards(slots: Seq<Option<Seq<u8>>>, count: nat) -> Seq<Seq<u8>> {
    Seq::new(count, |i: int| slots[i]->Some_0)
}

/// No more slots hold a shard than there are slots.
pub proof fn lemma_present_count_bound(slots: Seq<Option<Seq<u8>>>)
    ensures
        present_count(slots) <= slots.len(),
    decreases slots.len(),
{
    if slots.len() > 0 {
        lemma_present_count_bound(slots.drop_last());
    }
}

/// Where as many slots hold a shard as there are slots, each of them does.
pub proof fn lemma_all_present(slots: Seq<Option<Seq<u8>>>)
    requires
        present_count(slots) >= slots.len(),
    ensures
        forall|i: int| 0 <= i < slots.len() ==> (#[trigger] slots[i]) is Some,
    decreases slots.len(),
{
    if slots.len() > 0 {
        lemma_present_count_bound(slots.drop_last());
        lemma_all_present(slots.drop_last());
        assert forall|i: int| 0 <= i < slots.len() implies (#[trigger] slots[i]) is Some by {
            if i < slots.len() - 1 {
                assert(slots.drop_last()[i] == slots[i]);
            }
        }
    }
}

/// Erasing shards at `gone` leaves at least all but `gone.len()` of them.
pub proof fn lemma_erased_present_count(shards: Seq<Seq<u8>>, gone: Set<int>)
    requires
        gone.finite(),
    ensures
        present_count(erased(shards, gone)) + gone.len() >= shards.len(),
    decreases shards.len(),
{
    if shards.len() > 0 {
        let last = shards.len() - 1;
        let rest = shards.drop_last();
        if gone.contains(last) {
            let fewer = gone.remove(last);
            assert(erased(shards, gone).drop_last() =~= erased(rest, fewer));
            lemma_erased_present_count(rest, fewer);
        } else {
            assert(erased(shards, gone).drop_last() =~= erased(rest, gone));
            lemma_erased_present_count(rest, gone);
        }
    }
}

/// The common length of the shards of a set, or `None` where the set is empty,
/// its first shard is empty, or two of its shards differ in length.
pub fn common_length(shards: &Vec<Vec<u8>>) -> (r: Option<usize>)
    ensures
        r is Some <==> uniform(shards.deep_view()),
        r matches Some(len) ==> len == shards.deep_view()[0].len(),
{
    if shards.len() == 0 {
        return None;
    }
    let len: usize = shards[0].len();
    if len == 0 {
        return None;
    }
    let mut i: usize = 1;
    while i < shards.len()
        invariant
            1 <= i <= shards.len(),
            len == shards@[0]@.len(),
            forall|k: int| 0 <= k < i ==> (#[trigger] shards@[k])@.len() == len,
        decreases shards.len() - i,
    {
        if shards[i].len() != len {
            assert(shards.deep_view()[i as int].len() != shards.deep_view()[0].len());
            return None;
        }
        i += 1;
    }
    assert forall|k: int| 0 <= k < shards@.len() implies (#[trigger] shards.deep_view()[k]).len()
        == shards.deep_view()[0].len() by {
        assert(shards@[k]@.len() == len);
    }
    Some(len)
}

/// Whether the shards that are present are all of one nonzero length.
pub fn is_consistent(slots: &Vec<Option<Vec<u8>>>) -> (ok: bool)
    ensures
        ok == consistent(slots.deep_view()),
{
    let ghost view = slots.deep_view();
    let mut seen: Option<usize> = None;
    let mut i: usize = 0;
    while i < slots.len()
        invariant
            i <= slots.len(),
            view == slots.deep_view(),
            forall|k: int|
                0 <= k < i && (#[trigger] view[k]) is Some ==> view[k]->Some_0.len() > 0 && seen is Some
                    && seen->Some_0 == view[k]->Some_0.len(),
            seen is Some ==> exists|k: int|
                0 <= k < i && (#[trigger] view[k]) is Some && view[k]->Some_0.len() == seen->Some_0,
        decreases slots.len() - i,
    {
        match &slots[i] {
            Some(shard) => {
                let len: usize = shard.len();
                assert(view[i as int] is Some && view[i as int]->Some_0.len() == len);
                if len == 0 {
                    return false;
                }
                match seen {
                    Some(first) => {
                        if first != len {
                            let ghost k = choose|k: int|
                                0 <= k < i && (#[trigger] view[k]) is Some && view[k]->Some_0.len() == first;
                            assert(view[k] is Some && view[i as int] is Some);
                            return false;
                        }
                    },
                    None => {
                        seen = Some(len);
                    },
                }
            },
            None => {
                assert(view[i as int] is None);
            },
        }
        i += 1;
    }
    true
}

/// Counts the slots that hold a shard.
pub fn count_present(slots: &Vec<Option<Vec<u8>>>) -> (count: usize)
    ensures
        count == present_count(slots.deep_view()),
{
    let ghost view = slots.deep_view();
    let mut count: usize = 0;
    let mut i: usize = 0;
    while i < slots.len()
        invariant
            i <= slots.len(),
            view == slots.deep_view(),
            count == present_count(view.take(i as int)),
            count <= i,
        decreases slots.len() - i,
    {
        proof {
            assert(view.take(i + 1).drop_last() =~= view.take(i as int));
            assert(view.take(i + 1).last() == view[i as int]);
        }
        if slots[i].is_some() {
            count += 1;
        }
        i += 1;
    }
    proof {
        assert(view.take(i as int) =~= view);
    }
    count
}

/// Reads a list of buffers as slots: an empty buffer marks a missing shard.
pub fn absent_if_empty(buffers: Vec<Vec<u8>>) -> (slots: Vec<Option<Vec<u8>>>)
    ensures
        slots.deep_view() == slots_of(buffers.deep_view()),
{
    let ghost view = buffers.deep_view();
    let mut slots: Vec<Option<Vec<u8>>> = Vec::new();
    for buffer in iter: buffers
        invariant
            view == buffers.deep_view(),
            iter.seq() == buffers@,
            slots@.len() == iter.index(),
            forall|k: int| 0 <= k < slots@.len() ==> (#[trigger] slots.deep_view()[k]) == slots_of(view)[k],
    {
        let ghost before = slots.deep_view();
        assert(view[iter.index()] == buffer.deep_view());
        if buffer.len() == 0 {
            slots.push(None);
        } else {
            slots.push(Some(buffer));
        }
        assert forall|k: int| 0 <= k < slots@.len() implies (#[trigger] slots.deep_view()[k]) == slots_of(
            view,
        )[k] by {
            if k < before.len() {
                assert(slots.deep_view()[k] == before[k]);
            }
        }
    }
    assert(slots.deep_view() =~= slots_of(view));
    slots
}

/// Takes the shards out of the first `count` slots. That one of these slots
/// is empty, or that there are fewer slots than `count`, is reported as
/// `SingularMatrix`: after a reconstruction every data shard must be there.
pub fn collect_data(slots: Vec<Option<Vec<u8>>>, count: usize) -> (r: Result<Vec<Vec<u8>>, RseError>)
    ensures
        match r {
            Ok(data) => leading_present(slots.deep_view(), count as nat) && data.deep_view()
                == leading_shards(slots.deep_view(), count as nat),
            Err(e) => e == RseError::SingularMatrix && !leading_present(slots.deep_view(), count as nat),
        },
{
    let ghost view = slots.deep_view();
    if slots.len() < count {
        return Err(RseError::SingularMatrix);
    }
    let mut leading = slots;
    leading.truncate(count);
    let mut data: Vec<Vec<u8>> = Vec::new();
    for slot in iter: leading
        invariant
            view == slots.deep_view(),
            iter.seq() == slots@.take(count as int),
            count <= slots@.len(),
            data@.len() == iter.index(),
            forall|k: int|
                0 <= k < data@.len() ==> (#[trigger] view[k]) is Some
                    && data.deep_view()[k] == view[k]->Some_0,
    {
        assert(view[iter.index()] == slot.deep_view());
        match slot {
            Some(shard) => {
                data.push(shard);
            },
            None => {
                return Err(RseError::SingularMatrix);
            },
        }
    }
    assert(data.deep_view() =~= leading_shards(view, count as nat));
    Ok(data)
}

} // verus!
