//! Host-side counts for path primitives, shared by every renderer backend.
use crate::scene::batch::{lemma_vertex_sum_within, path_sprite_count, vertex_sum};
use crate::scene::primitives::Path;
use vstd::prelude::*;

verus! {

/// The number of rasterization vertices of all `paths`.
pub fn rasterization_vertex_count(paths: &[Path]) -> (r: usize)
    requires
        vertex_sum(paths@, 0, paths@.len() as int) <= usize::MAX,
    ensures
        r == vertex_sum(paths@, 0, paths@.len() as int),
{
    let mut total: usize = 0;
    let mut j: usize = 0;
    while j < paths.len()
        invariant
            j <= paths@.len(),
            vertex_sum(paths@, 0, paths@.len() as int) <= usize::MAX,
            total == vertex_sum(paths@, 0, j as int),
        decreases paths@.len() - j,
    {
        proof {
            lemma_vertex_sum_within(paths@, 0, j + 1, 0, paths@.len() as int);
        }
        total = total + paths[j].vertex_count;
        j = j + 1;
    }
    total
}

/// The number of path sprites of `paths`: none for no paths, one per path when they all
/// share one draw order (the first and last agree), else one covering them all.
pub fn sprite_count(paths: &[Path]) -> (r: usize)
    ensures
        r == path_sprite_count(paths@, 0, paths@.len() as int),
{
    if paths.len() == 0 {
        0
    } else if paths[paths.len() - 1].order == paths[0].order {
        paths.len()
    } else {
        1
    }
}

} // verus!
