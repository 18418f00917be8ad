//! Cutting a list into batches.
use vstd::prelude::*;

verus! {

/// The list cut into batches of `size` elements, the last of which may be shorter.
pub open spec fn batches<T>(list: Seq<T>, size: nat) -> Seq<Seq<T>>
    decreases list.len(),
{
    if list.len() == 0 || size == 0 {
        Seq::empty()
    } else if list.len() <= size {
        seq![list]
    } else {
        seq![list.take(size as int)] + batches(list.skip(size as int), size)
    }
}

/// The contents of a list of lists.
pub open spec fn contents<T>(lists: Seq<Vec<T>>) -> Seq<Seq<T>> {
    lists.map_values(|list: Vec<T>| list@)
}

/// Cuts a list into batches of `size` elements, the last of which may be shorter.
pub fn cut<T>(list: Vec<T>, size: usize) -> (cuts: Vec<Vec<T>>)
    requires
        size > 0,
    ensures
        contents(cuts@) == batches(list@, size as nat),
{
    let mut cuts: Vec<Vec<T>> = Vec::new();
    let mut rest = list;
    if rest.len() == 0 {
        assert(contents(cuts@) =~= batches(list@, size as nat));
        return cuts;
    }
    while rest.len() > size
        invariant
            size > 0,
            rest.len() > 0,
            contents(cuts@) + batches(rest@, size as nat) == batches(list@, size as nat),
        decreases rest.len(),
    {
        let ghost done = cuts@;
        let ghost whole = rest@;
        let tail = rest.split_off(size);
        cuts.push(rest);
        rest = tail;
        proof {
            assert(cuts@.last()@ =~= whole.take(size as int));
            assert(rest@ =~= whole.skip(size as int));
            assert(contents(cuts@) + batches(rest@, size as nat) =~= contents(done) + batches(
                whole,
                size as nat,
            ));
        }
    }
    let ghost done = cuts@;
    let ghost whole = rest@;
    cuts.push(rest);
    proof {
        assert(contents(cuts@) =~= contents(done) + batches(whole, size as nat));
    }
    cuts
}

/// Mapping each element of a list maps each element of its batches.
pub proof fn lemma_batches_map<A, B>(list: Seq<A>, f: spec_fn(A) -> B, size: nat)
    ensures
        batches(list.map_values(f), size) == batches(list, size).map_values(
            |batch: Seq<A>| batch.map_values(f),
        ),
    decreases list.len(),
{
    let each = |batch: Seq<A>| batch.map_values(f);
    if list.len() > size && size > 0 {
        let rest = list.skip(size as int);
        lemma_batches_map(rest, f, size);
        assert(list.take(size as int).map_values(f) =~= list.map_values(f).take(size as int));
        assert(rest.map_values(f) =~= list.map_values(f).skip(size as int));
    }
    assert(batches(list.map_values(f), size) =~= batches(list, size).map_values(each));
}

/// Every element stands in exactly one batch and the order is kept: the
/// batches, one after the other, are the list.
pub proof fn law_batches_are_the_list<T>(list: Seq<T>, size: nat)
    requires
        size > 0,
    ensures
        batches(list, size).flatten() == list,
    decreases list.len(),
{
    if list.len() == 0 {
        assert(batches(list, size).flatten() =~= list);
    } else if list.len() <= size {
        seq![list].lemma_flatten_one_element();
    } else {
        let head = seq![list.take(size as int)];
        let tail = batches(list.skip(size as int), size);
        law_batches_are_the_list(list.skip(size as int), size);
        head.lemma_flatten_one_element();
        vstd::seq_lib::lemma_flatten_concat(head, tail);
        assert(list =~= list.take(size as int) + list.skip(size as int));
    }
}

/// What stands in a batch stands in the list.
pub proof fn lemma_batch_is_part<T>(list: Seq<T>, size: nat, k: int, item: T)
    requires
        0 <= k < batches(list, size).len(),
        batches(list, size)[k].contains(item),
    ensures
        list.contains(item),
    decreases list.len(),
{
    let batch = batches(list, size)[k];
    let i = choose|i: int| 0 <= i < batch.len() && batch[i] == item;
    if list.len() <= size || k == 0 {
        assert(list[i] == item);
    } else {
        let rest = list.skip(size as int);
        assert(batch == batches(rest, size)[k - 1]);
        lemma_batch_is_part(rest, size, k - 1, item);
        let j = choose|j: int| 0 <= j < rest.len() && rest[j] == item;
        assert(list[size + j] == item);
    }
}

/// What stands in the list stands in a batch.
pub proof fn lemma_part_is_in_a_batch<T>(list: Seq<T>, size: nat, i: int)
    requires
        size > 0,
        0 <= i < list.len(),
    ensures
        exists|k: int|
            0 <= k < batches(list, size).len() && (#[trigger] batches(list, size)[k]).contains(
                list[i],
            ),
    decreases list.len(),
{
    if list.len() <= size {
        assert(batches(list, size)[0] == list);
        assert(list.contains(list[i]));
    } else if i < size {
        let head = list.take(size as int);
        assert(batches(list, size)[0] == head);
        assert(head[i] == list[i]);
        assert(batches(list, size)[0].contains(list[i]));
    } else {
        let rest = list.skip(size as int);
        lemma_part_is_in_a_batch(rest, size, i - size);
        assert(rest[i - size] == list[i]);
        let k = choose|k: int|
            0 <= k < batches(rest, size).len() && (#[trigger] batches(rest, size)[k]).contains(
                list[i],
            );
        assert(batches(list, size)[k + 1] == batches(rest, size)[k]);
    }
}

/// No batch is empty and none is longer than `size`.
pub proof fn law_batches_are_bounded<T>(list: Seq<T>, size: nat)
    requires
        size > 0,
    ensures
        forall|i: int|
            0 <= i < batches(list, size).len() ==> 0 < (#[trigger] batches(list, size)[i]).len()
                <= size,
    decreases list.len(),
{
    if list.len() > size {
        law_batches_are_bounded(list.skip(size as int), size);
        let tail = batches(list.skip(size as int), size);
        assert forall|i: int| 0 <= i < batches(list, size).len() implies 0 < (
        #[trigger] batches(list, size)[i]).len() <= size by {
            if i > 0 {
                assert(batches(list, size)[i] == tail[i - 1]);
            }
        }
    }
}

} // verus!
