//! What is done when a copy has run to its end.

use vstd::prelude::*;
use crate::plans::physical::StageFileInfo;

verus! {

/// The paths of some files, in their order.
pub open spec fn paths_of(files: Seq<StageFileInfo>) -> Seq<Seq<char>> {
    Seq::new(files.len(), |i: int| files[i].path@)
}

/// The texts of a list.
pub open spec fn path_texts(paths: Seq<String>) -> Seq<Seq<char>> {
    Seq::new(paths.len(), |i: int| paths[i]@)
}

/// The files to remove when a copy has ended: the files copied, where the
/// copy ended without error and was asked to purge; none otherwise.
pub fn files_to_purge(failed: bool, copy_purge_option: bool, files: &Vec<StageFileInfo>) -> (purge:
    Option<Vec<String>>)
    ensures
        failed || !copy_purge_option ==> purge is None,
        !failed && copy_purge_option ==> (purge matches Some(paths) && path_texts(paths@)
            == paths_of(files@)),
{
    if failed || !copy_purge_option {
        return None;
    }
    let mut paths: Vec<String> = Vec::new();
    let mut i: usize = 0;
    while i < files.len()
        invariant
            i <= files.len(),
            paths.len() == i,
            path_texts(paths@) == paths_of(files@.take(i as int)),
        decreases files.len() - i,
    {
        let ghost before = paths@;
        paths.push(files[i].path.clone());
        proof {
            let next = paths_of(files@.take(i + 1));
            assert(path_texts(paths@).len() == next.len());
            assert forall|k: int| 0 <= k < next.len() implies path_texts(paths@)[k] == next[k] by {
                if k < i {
                    assert(path_texts(before)[k] == paths_of(files@.take(i as int))[k]);
                    assert(files@.take(i as int)[k] == files@.take(i + 1)[k]);
                }
            }
            assert(path_texts(paths@) =~= next);
        }
        i = i + 1;
    }
    proof {
        assert(files@.take(files.len() as int) == files@);
    }
    Some(paths)
}

/// The number of files purged as the counter takes it: the low 32 bits.
pub fn purged_count(files: usize) -> (count: u32)
    ensures
        count == files as int % 0x1_0000_0000int,
{
    ((files as u64) % 0x1_0000_0000u64) as u32
}

} // verus!
