//! The epoch index: which checkpoint directory belongs to which epoch.
//!
//! A store is listed as the locations of the immediate children of its root.
//! The last segment of a location is the directory's name, and the name
//! decides whether the directory is a checkpoint and of which epoch.

use crate::epoch_name::{classify_dir_name, parse_dir_name, DirName};
use crate::handler::DBCheckpointHandler;
use crate::ordered::insert_entry;
use crate::store_path::{filename_of, path_filename};
use std::collections::BTreeMap;
use vstd::prelude::*;

verus! {

/// A directory whose name starts like a checkpoint's but names no epoch.
#[derive(Debug, PartialEq, Eq)]
pub struct MalformedEpochName {
    /// The offending directory name.
    pub name: String,
}

/// The locations of an index as character sequences.
pub open spec fn locations(index: Map<u32, String>) -> Map<u32, Seq<char>> {
    index.map_values(|location: String| location@)
}

/// What a listed location is, going by the last segment of its path.
pub open spec fn entry_kind(location: Seq<char>) -> DirName {
    match path_filename(location) {
        Some(name) => classify_dir_name(name),
        None => DirName::Other,
    }
}

/// The listed locations as character sequences.
pub open spec fn listing(entries: Seq<String>) -> Seq<Seq<char>> {
    entries.map_values(|entry: String| entry@)
}

/// The index that a listing gives: each checkpoint directory under its
/// epoch. Of two directories of one epoch the later one in the listing stays.
pub open spec fn index_of(entries: Seq<Seq<char>>) -> Map<u32, Seq<char>>
    decreases entries.len(),
{
    if entries.len() == 0 {
        Map::empty()
    } else {
        let earlier = index_of(entries.drop_last());
        match entry_kind(entries.last()) {
            DirName::Epoch(epoch) => earlier.insert(epoch, entries.last()),
            _ => earlier,
        }
    }
}

/// Whether `i` is the position of the first malformed entry of the listing.
pub open spec fn is_first_malformed(entries: Seq<Seq<char>>, i: int) -> bool {
    &&& 0 <= i < entries.len()
    &&& entry_kind(entries[i]) is Malformed
    &&& forall|j: int| 0 <= j < i ==> !(entry_kind(entries[j]) is Malformed)
}

/// An epoch is in the index exactly if some listed directory is named for it,
/// and the index then holds the last such directory.
pub proof fn lemma_index_of(entries: Seq<Seq<char>>, epoch: u32)
    ensures
        index_of(entries).contains_key(epoch) <==> exists|i: int|
            0 <= i < entries.len() && #[trigger] entry_kind(entries[i]) == DirName::Epoch(epoch),
        index_of(entries).contains_key(epoch) ==> exists|i: int|
            {
                &&& 0 <= i < entries.len()
                &&& #[trigger] entry_kind(entries[i]) == DirName::Epoch(epoch)
                &&& index_of(entries)[epoch] == entries[i]
                &&& forall|j: int|
                    i < j < entries.len() ==> #[trigger] entry_kind(entries[j]) != DirName::Epoch(
                        epoch,
                    )
            },
    decreases entries.len(),
{
    if entries.len() > 0 {
        let earlier = entries.drop_last();
        let last = entries.len() - 1;
        lemma_index_of(earlier, epoch);
        assert forall|i: int| 0 <= i < earlier.len() implies earlier[i] == entries[i] by {}
        if entry_kind(entries.last()) == DirName::Epoch(epoch) {
            assert(entry_kind(entries[last]) == DirName::Epoch(epoch));
        } else if index_of(entries).contains_key(epoch) {
            assert(index_of(earlier).contains_key(epoch));
            let i = choose|i: int|
                {
                    &&& 0 <= i < earlier.len()
                    &&& #[trigger] entry_kind(earlier[i]) == DirName::Epoch(epoch)
                    &&& index_of(earlier)[epoch] == earlier[i]
                    &&& forall|j: int|
                        i < j < earlier.len() ==> #[trigger] entry_kind(earlier[j])
                            != DirName::Epoch(epoch)
                };
            assert(entry_kind(entries[i]) == DirName::Epoch(epoch));
            assert forall|j: int| i < j < entries.len() implies #[trigger] entry_kind(entries[j])
                != DirName::Epoch(epoch) by {
                if j < earlier.len() {
                    assert(entry_kind(earlier[j]) != DirName::Epoch(epoch));
                }
            }
        } else {
            if exists|i: int|
                0 <= i < entries.len() && #[trigger] entry_kind(entries[i]) == DirName::Epoch(epoch) {
                let i = choose|i: int|
                    0 <= i < entries.len() && #[trigger] entry_kind(entries[i]) == DirName::Epoch(
                        epoch,
                    );
                assert(entry_kind(earlier[i]) == DirName::Epoch(epoch));
            }
        }
    }
}

impl DBCheckpointHandler {
    /// Builds the epoch index of a store from the listing of its root.
    ///
    /// Directories that are not named like a checkpoint are left out. A
    /// directory named like a checkpoint but without a valid epoch fails the
    /// whole listing; the error names the first such directory.
    pub fn read_checkpoint_dir(&self, entries: &Vec<String>) -> (result: Result<
        BTreeMap<u32, String>,
        MalformedEpochName,
    >)
        ensures
            match result {
                Ok(index) => {
                    &&& forall|i: int|
                        0 <= i < entries@.len() ==> !(#[trigger] entry_kind(entries@[i]@)
                            is Malformed)
                    &&& locations(index@) == index_of(listing(entries@))
                },
                Err(error) => exists|i: int|
                    {
                        &&& #[trigger] is_first_malformed(listing(entries@), i)
                        &&& path_filename(entries@[i]@) == Some(error.name@)
                    },
            },
    {
        let mut index: BTreeMap<u32, String> = BTreeMap::new();
        let mut i: usize = 0;
        assert(locations(index@) =~= index_of(listing(entries@).subrange(0, 0)));
        while i < entries.len()
            invariant
                i <= entries.len(),
                forall|k: int| 0 <= k < i ==> !(#[trigger] entry_kind(entries@[k]@) is Malformed),
                locations(index@) == index_of(listing(entries@).subrange(0, i as int)),
            decreases entries.len() - i,
        {
            let entry = &entries[i];
            let ghost seen = listing(entries@).subrange(0, i as int);
            let ghost next = listing(entries@).subrange(0, i + 1);
            proof {
                assert(next.drop_last() =~= seen);
                assert(next.last() == entry@);
            }
            match filename_of(entry.as_str()) {
                Some(name) => {
                    match parse_dir_name(name.as_str()) {
                        DirName::Epoch(epoch) => {
                            let ghost before = index@;
                            insert_entry(&mut index, epoch, entry.clone());
                            assert(locations(index@) =~= locations(before).insert(epoch, entry@));
                        },
                        DirName::Malformed => {
                            proof {
                                assert(is_first_malformed(listing(entries@), i as int));
                            }
                            return Err(MalformedEpochName { name });
                        },
                        DirName::Other => {},
                    }
                },
                None => {},
            }
            i += 1;
        }
        proof {
            assert(listing(entries@).subrange(0, i as int) =~= listing(entries@));
        }
        Ok(index)
    }
}

} // verus!
