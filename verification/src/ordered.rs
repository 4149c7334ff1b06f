//! Ascending traversal of epoch-keyed maps.

use std::collections::BTreeMap;
use vstd::prelude::*;
use vstd::std_specs::cmp::OrdSpec;
use vstd::std_specs::iter::IteratorSpec;

verus! {

/// `epochs` lists exactly the keys of `index`, each once, in ascending order.
pub open spec fn lists_keys_ascending<V>(epochs: Seq<u32>, index: Map<u32, V>) -> bool {
    &&& forall|i: int, j: int| 0 <= i < j < epochs.len() ==> epochs[i] < epochs[j]
    &&& forall|e: u32| epochs.contains(e) <==> index.contains_key(e)
}

/// The epochs below `n` that satisfy `wanted`, in ascending order.
pub open spec fn epochs_below(wanted: spec_fn(u32) -> bool, n: nat) -> Seq<u32>
    decreases n,
{
    if n == 0 {
        Seq::empty()
    } else {
        let earlier = epochs_below(wanted, (n - 1) as nat);
        if wanted((n - 1) as u32) {
            earlier.push((n - 1) as u32)
        } else {
            earlier
        }
    }
}

/// `epochs_below` lists exactly the wanted epochs below `n`, each once, in
/// ascending order.
pub proof fn lemma_epochs_below(wanted: spec_fn(u32) -> bool, n: nat)
    requires
        n <= 0x1_0000_0000,
    ensures
        forall|i: int|
            0 <= i < epochs_below(wanted, n).len() ==> (#[trigger] epochs_below(wanted, n)[i]) < n
                && wanted(epochs_below(wanted, n)[i]),
        forall|i: int, j: int|
            0 <= i < j < epochs_below(wanted, n).len() ==> epochs_below(wanted, n)[i]
                < epochs_below(wanted, n)[j],
        forall|e: u32| e < n && #[trigger] wanted(e) ==> epochs_below(wanted, n).contains(e),
    decreases n,
{
    if n > 0 {
        let earlier = epochs_below(wanted, (n - 1) as nat);
        lemma_epochs_below(wanted, (n - 1) as nat);
        let last = (n - 1) as u32;
        assert forall|e: u32| e < n && #[trigger] wanted(e) implies epochs_below(wanted, n).contains(
            e,
        ) by {
            if e == last {
                assert(epochs_below(wanted, n)[earlier.len() as int] == e);
            } else {
                let k = choose|k: int| 0 <= k < earlier.len() && earlier[k] == e;
                assert(epochs_below(wanted, n)[k] == e);
            }
        }
    }
}

/// A range without wanted epochs adds nothing.
pub proof fn lemma_epochs_below_skip(wanted: spec_fn(u32) -> bool, m: nat, n: nat)
    requires
        m <= n <= 0x1_0000_0000,
        forall|e: u32| m <= e < n ==> !#[trigger] wanted(e),
    ensures
        epochs_below(wanted, n) == epochs_below(wanted, m),
    decreases n,
{
    if m < n {
        lemma_epochs_below_skip(wanted, m, (n - 1) as nat);
    }
}

/// Where `epoch` stands in an ascending list of the keys.
pub proof fn lemma_key_position<V>(epochs: Seq<u32>, index: Map<u32, V>, epoch: u32) -> (k: int)
    requires
        lists_keys_ascending(epochs, index),
        index.contains_key(epoch),
    ensures
        0 <= k < epochs.len(),
        epochs[k] == epoch,
{
    assert(epochs.contains(epoch));
    choose|k: int| 0 <= k < epochs.len() && epochs[k] == epoch
}

/// No key lies strictly between two neighbours of an ascending list of the
/// keys, nor below its first entry.
pub proof fn lemma_no_key_between<V>(epochs: Seq<u32>, index: Map<u32, V>, i: int, epoch: u32)
    requires
        lists_keys_ascending(epochs, index),
        0 <= i < epochs.len(),
        i > 0 ==> epochs[i - 1] < epoch,
        epoch < epochs[i],
    ensures
        !index.contains_key(epoch),
{
    if index.contains_key(epoch) {
        let k = lemma_key_position(epochs, index, epoch);
        if k < i - 1 {
            assert(epochs[k] < epochs[i - 1]);
        } else if k > i {
            assert(epochs[i] < epochs[k]);
        }
    }
}

/// The last entry of an ascending list of the keys is the highest key.
pub proof fn lemma_last_is_highest<V>(epochs: Seq<u32>, index: Map<u32, V>)
    requires
        lists_keys_ascending(epochs, index),
        epochs.len() > 0,
    ensures
        index.contains_key(epochs.last()),
        forall|e: u32| index.contains_key(e) ==> e <= epochs.last(),
{
    assert(epochs.contains(epochs.last()));
    assert forall|e: u32| index.contains_key(e) implies e <= epochs.last() by {
        let k = lemma_key_position(epochs, index, e);
        if k < epochs.len() - 1 {
            assert(epochs[k] < epochs[epochs.len() - 1]);
        }
    }
}

/// An empty list of the keys means an empty index.
pub proof fn lemma_no_keys<V>(epochs: Seq<u32>, index: Map<u32, V>)
    requires
        lists_keys_ascending(epochs, index),
        epochs.len() == 0,
    ensures
        forall|e: u32| !index.contains_key(e),
{
    assert forall|e: u32| !index.contains_key(e) by {
        assert(!epochs.contains(e));
    }
}

/// The keys of `index` in ascending order.
pub(crate) fn ascending_epochs<V>(index: &BTreeMap<u32, V>) -> (epochs: Vec<u32>)
    ensures
        lists_keys_ascending(epochs@, index@),
{
    broadcast use vstd::std_specs::btree::group_btree_axioms;
    broadcast use vstd::laws_cmp::group_laws_cmp;

    let mut epochs: Vec<u32> = Vec::new();
    let ghost keys = index.keys().remaining();
    for key in it: index.keys()
        invariant
            it.seq() == keys,
            epochs@.len() == it.index(),
            forall|i: int| 0 <= i < epochs@.len() ==> epochs@[i] == *keys[i],
    {
        epochs.push(*key);
    }
    proof {
        broadcast use vstd::laws_cmp::lemma_ref_obeys_cmp_spec;

        assert(epochs@ =~= keys.unref());
        assert(vstd::laws_cmp::obeys_cmp::<&u32>());
        vstd::std_specs::btree::axiom_increasing_seq_meaning::<&u32>(keys);
        assert forall|i: int, j: int| 0 <= i < j < epochs@.len() implies epochs@[i] < epochs@[j] by {
            assert(OrdSpec::cmp_spec(&keys[i], &keys[j]) is Less);
        }
        assert forall|e: u32| epochs@.contains(e) <==> index@.contains_key(e) by {
            assert(keys.unref().to_set().contains(e) <==> index@.dom().contains(e));
        }
    }
    epochs
}

/// Records `value` for `epoch`, in place of what the index held for it.
pub(crate) fn insert_entry<V>(index: &mut BTreeMap<u32, V>, epoch: u32, value: V)
    ensures
        final(index)@ == old(index)@.insert(epoch, value),
{
    broadcast use vstd::std_specs::btree::group_btree_axioms;
    broadcast use vstd::laws_cmp::group_laws_cmp;

    index.insert(epoch, value);
}

/// The value that `index` holds for `epoch`, if any.
pub(crate) fn lookup<'a, V>(index: &'a BTreeMap<u32, V>, epoch: u32) -> (value: Option<&'a V>)
    ensures
        value is Some <==> index@.contains_key(epoch),
        value is Some ==> *value->0 == index@[epoch],
{
    broadcast use vstd::std_specs::btree::group_btree_axioms;
    broadcast use vstd::laws_cmp::group_laws_cmp;

    index.get(&epoch)
}

} // verus!
