//! The block catalog: what meshing needs to know of each kind of block.

use vstd::prelude::*;
use crate::block::{BlockId, BlockMesh};

verus! {

/// Meshing data by block id. A later registration of an id replaces an earlier
/// one.
#[derive(Clone, Debug)]
pub struct BlockCatalog {
    pub entries: Vec<(BlockId, BlockMesh)>,
}

/// The map that a list of registrations stands for: each entry overrides the
/// entries before it that have the same id.
pub open spec fn entries_map(entries: Seq<(BlockId, BlockMesh)>) -> Map<Seq<char>, BlockMesh>
    decreases entries.len(),
{
    if entries.len() == 0 {
        Map::empty()
    } else {
        entries_map(entries.drop_last()).insert(entries.last().0@, entries.last().1)
    }
}

/// What the catalog knows of the block in a voxel: nothing for air and for an
/// id that is not registered.
pub open spec fn resolved(voxel: Option<Seq<char>>, catalog: Map<Seq<char>, BlockMesh>) -> Option<
    BlockMesh,
> {
    match voxel {
        Some(name) => if catalog.dom().contains(name) {
            Some(catalog[name])
        } else {
            None
        },
        None => None,
    }
}

impl View for BlockCatalog {
    type V = Map<Seq<char>, BlockMesh>;

    open spec fn view(&self) -> Map<Seq<char>, BlockMesh> {
        entries_map(self.entries@)
    }
}

impl BlockCatalog {
    /// A catalog that knows no block.
    pub fn new() -> (catalog: BlockCatalog)
        ensures
            catalog@ == Map::<Seq<char>, BlockMesh>::empty(),
    {
        BlockCatalog { entries: Vec::new() }
    }

    /// Registers `mesh` for `id`, in place of what was registered for it
    /// before.
    pub fn register(&mut self, id: BlockId, mesh: BlockMesh)
        ensures
            final(self)@ == old(self)@.insert(id@, mesh),
    {
        self.entries.push((id, mesh));
        proof {
            assert(self.entries@.drop_last() =~= old(self).entries@);
        }
    }

    /// What is registered for `id`, if anything.
    pub fn get(&self, id: &BlockId) -> (found: Option<BlockMesh>)
        ensures
            found == resolved(Some(id@), self@),
    {
        let mut i: usize = self.entries.len();
        proof {
            assert(self.entries@.take(i as int) =~= self.entries@);
        }
        while i > 0
            invariant
                i <= self.entries.len(),
                resolved(Some(id@), self@) == resolved(
                    Some(id@),
                    entries_map(self.entries@.take(i as int)),
                ),
            decreases i,
        {
            proof {
                let prefix = self.entries@.take(i as int);
                assert(prefix.drop_last() =~= self.entries@.take(i as int - 1));
                assert(prefix.last() == self.entries@[i as int - 1]);
            }
            i -= 1;
            if self.entries[i].0.same_as(id) {
                return Some(self.entries[i].1);
            }
        }
        proof {
            assert(self.entries@.take(0).len() == 0);
        }
        None
    }
}

} // verus!
