//! Mesh selection rules shared by the model loaders.
use vstd::prelude::*;

verus! {

/// The level-of-detail table entry a mesh value selects.
pub open spec fn base_lod_target(lod: u8) -> u16 {
    if lod > 0 {
        (lod - 1) as u16
    } else {
        0u16
    }
}

/// Returns whether a mesh with `lod` should be rendered as part of the
/// highest detail or base level of detail.
pub fn should_render_lod(lod: u8, base_lod_indices: &Option<Vec<u16>>) -> (r: bool)
    ensures
        r == (match base_lod_indices {
            Some(v) => v@.contains(base_lod_target(lod)),
            None => true,
        }),
{
    match base_lod_indices {
        None => true,
        Some(indices) => {
            let target: u16 = if lod > 0 {
                (lod - 1) as u16
            } else {
                0
            };
            proof {
                assert(target == base_lod_target(lod));
            }
            let mut found = false;
            let mut i: usize = 0;
            while i < indices.len()
                invariant
                    i <= indices@.len(),
                    found == indices@.take(i as int).contains(target),
                decreases indices@.len() - i,
            {
                proof {
                    assert(indices@.take(i as int + 1) =~= indices@.take(i as int) + seq![
                        indices@[i as int]]);
                    assert forall|y: u16| indices@.take(i as int + 1).contains(y) implies (
                    indices@.take(i as int).contains(y) || y == indices@[i as int]) by {
                        let w = choose|w: int| 0 <= w < i + 1 && #[trigger] indices@.take(
                            i as int + 1)[w] == y;
                        if w < i {
                            assert(indices@.take(i as int)[w] == y);
                        }
                    }
                    if indices@.take(i as int).contains(target) {
                        let w = choose|w: int| 0 <= w < i && #[trigger] indices@.take(
                            i as int)[w] == target;
                        assert(indices@.take(i as int + 1)[w] == target);
                    }
                    if indices@[i as int] == target {
                        assert(indices@.take(i as int + 1)[i as int] == target);
                    }
                }
                if indices[i] == target {
                    found = true;
                }
                i += 1;
            }
            proof {
                assert(indices@.take(indices@.len() as int) =~= indices@);
            }
            found
        }
    }
}

} // verus!
