//! Parameter maps: the kernel weights that every cell carries.
//!
//! A map is cell-major: the weight of kernel `ki` at row `y`, column `x` of an
//! `n * n` grid is word `(y * n + x) * K + ki`.

use crate::device::{filled, Buffer, BufferUsages, GpuContext};
use crate::index::{idx3, lemma_idx3, lemma_idx3_onto, lemma_idx3_step};
use crate::words::{word_bytes, words_to_bytes, F32Bits};
use vstd::prelude::*;

verus! {

/// A rectangle of cells that carry the same weights. `bbox` is
/// `(y0, x0, y1, x1)`, from the first row and column to just past the last;
/// what lies outside the grid is ignored.
#[derive(Debug)]
pub struct CreaturePatch {
    pub bbox: (u32, u32, u32, u32),
    pub p_vector: Vec<F32Bits>,
}

impl CreaturePatch {
    /// The patch covers the cell.
    pub open spec fn covers(self, y: int, x: int) -> bool {
        self.bbox.0 <= y < self.bbox.2 && self.bbox.1 <= x < self.bbox.3
    }
}

/// The weights of a cell: those of the last patch that covers it, or else the
/// default ones.
pub open spec fn weights_at(
    default_p: Seq<u32>,
    patches: Seq<CreaturePatch>,
    y: int,
    x: int,
) -> Seq<u32>
    decreases patches.len(),
{
    if patches.len() == 0 {
        default_p
    } else if patches.last().covers(y, x) {
        patches.last().p_vector@
    } else {
        weights_at(default_p, patches.drop_last(), y, x)
    }
}

/// The map of a list of patches.
pub open spec fn patch_map(
    n: int,
    k: int,
    default_p: Seq<u32>,
    patches: Seq<CreaturePatch>,
) -> Seq<u32> {
    Seq::new(
        (n * n * k) as nat,
        |i: int| weights_at(default_p, patches, i / k / n, i / k % n)[i % k],
    )
}

/// The weight of kernel `ki` at row `y`, column `x` is word
/// `(y * n + x) * K + ki` of the map.
pub proof fn law_patch_map_index(
    n: int,
    k: int,
    default_p: Seq<u32>,
    patches: Seq<CreaturePatch>,
    y: int,
    x: int,
    ki: int,
)
    requires
        0 <= y < n,
        0 <= x < n,
        0 <= ki < k,
    ensures
        0 <= (y * n + x) * k + ki < patch_map(n, k, default_p, patches).len(),
        patch_map(n, k, default_p, patches)[(y * n + x) * k + ki] == weights_at(
            default_p,
            patches,
            y,
            x,
        )[ki],
{
    lemma_idx3(y, x, ki, n, n, k);
}

/// A cell that no patch covers has the default weights.
pub proof fn law_background(default_p: Seq<u32>, patches: Seq<CreaturePatch>, y: int, x: int)
    requires
        forall|i: int| 0 <= i < patches.len() ==> !(#[trigger] patches[i]).covers(y, x),
    ensures
        weights_at(default_p, patches, y, x) == default_p,
    decreases patches.len(),
{
    if patches.len() > 0 {
        assert(!patches[patches.len() - 1].covers(y, x));
        assert forall|i: int| 0 <= i < patches.drop_last().len() implies !(
        #[trigger] patches.drop_last()[i]).covers(y, x) by {
            assert(patches.drop_last()[i] == patches[i]);
        }
        law_background(default_p, patches.drop_last(), y, x);
    }
}

/// Where patches overlap, the last one wins.
pub proof fn law_last_patch_wins(
    default_p: Seq<u32>,
    patches: Seq<CreaturePatch>,
    y: int,
    x: int,
    i: int,
)
    requires
        0 <= i < patches.len(),
        patches[i].covers(y, x),
        forall|j: int| i < j < patches.len() ==> !(#[trigger] patches[j]).covers(y, x),
    ensures
        weights_at(default_p, patches, y, x) == patches[i].p_vector@,
    decreases patches.len(),
{
    if i < patches.len() - 1 {
        assert(!patches[patches.len() - 1].covers(y, x));
        assert forall|j: int| i < j < patches.drop_last().len() implies !(
        #[trigger] patches.drop_last()[j]).covers(y, x) by {
            assert(patches.drop_last()[j] == patches[j]);
        }
        law_last_patch_wins(default_p, patches.drop_last(), y, x, i);
    }
}

/// What a map holds while a patch is being written: cells before row `y`, and
/// before column `x` in that row, already have the patch's weights where it
/// covers them.
spec fn half_written(
    n: int,
    k: int,
    before: Seq<u32>,
    patch: CreaturePatch,
    y: int,
    x: int,
    i: int,
) -> u32 {
    let yy = i / k / n;
    let xx = i / k % n;
    if patch.covers(yy, xx) && (yy < y || (yy == y && xx < x)) {
        patch.p_vector@[i % k]
    } else {
        before[i]
    }
}

/// The smaller of a bound and the side of the grid.
fn clamp_to(v: u32, n: u32) -> (r: u32)
    ensures
        r == if v < n {
            v
        } else {
            n
        },
{
    if v < n {
        v
    } else {
        n
    }
}

/// Writes the weights of a patch into every cell of the map that it covers.
fn write_patch(map: &mut Vec<F32Bits>, n: u32, num_kernels: u32, patch: &CreaturePatch)
    requires
        old(map)@.len() == n * n * num_kernels,
        patch.p_vector@.len() == num_kernels,
    ensures
        final(map)@.len() == old(map)@.len(),
        forall|i: int|
            0 <= i < final(map)@.len() ==> #[trigger] final(map)@[i] == half_written(
                n as int,
                num_kernels as int,
                old(map)@,
                *patch,
                n as int,
                0,
                i,
            ),
{
    let ghost gn = n as int;
    let ghost gk = num_kernels as int;
    let ghost before = map@;
    let total: usize = map.len();
    let k: usize = num_kernels as usize;
    let side: usize = n as usize;
    let y0: usize = clamp_to(patch.bbox.0, n) as usize;
    let x0: usize = clamp_to(patch.bbox.1, n) as usize;
    let y1: usize = clamp_to(patch.bbox.2, n) as usize;
    let x1: usize = clamp_to(patch.bbox.3, n) as usize;
    let mut y: usize = y0;
    proof {
        assert forall|i: int| 0 <= i < map@.len() implies #[trigger] map@[i] == half_written(
            gn,
            gk,
            before,
            *patch,
            y as int,
            x0 as int,
            i,
        ) by {
            lemma_idx3_onto(i, gn, gn, gk);
        }
    }
    while y < y1
        invariant
            gn == n == side,
            gk == num_kernels == k,
            before.len() == gn * gn * gk,
            map@.len() == before.len() == total,
            patch.p_vector@.len() == k,
            y0 <= y,
            y1 <= n,
            x1 <= n,
            x0 <= n,
            y0 == if patch.bbox.0 < n { patch.bbox.0 } else { n },
            x0 == if patch.bbox.1 < n { patch.bbox.1 } else { n },
            y1 == if patch.bbox.2 < n { patch.bbox.2 } else { n },
            x1 == if patch.bbox.3 < n { patch.bbox.3 } else { n },
            forall|i: int|
                0 <= i < map@.len() ==> #[trigger] map@[i] == half_written(
                    gn,
                    gk,
                    before,
                    *patch,
                    y as int,
                    x0 as int,
                    i,
                ),
        decreases y1 - y,
    {
        let mut x: usize = x0;
        while x < x1
            invariant
                gn == n == side,
                gk == num_kernels == k,
                before.len() == gn * gn * gk,
                map@.len() == before.len() == total,
                patch.p_vector@.len() == k,
                y0 <= y < y1 <= n,
                x0 <= x,
                x1 <= n,
                y0 == if patch.bbox.0 < n { patch.bbox.0 } else { n },
                x0 == if patch.bbox.1 < n { patch.bbox.1 } else { n },
                y1 == if patch.bbox.2 < n { patch.bbox.2 } else { n },
                x1 == if patch.bbox.3 < n { patch.bbox.3 } else { n },
                forall|i: int|
                    0 <= i < map@.len() ==> #[trigger] map@[i] == half_written(
                        gn,
                        gk,
                        before,
                        *patch,
                        y as int,
                        x as int,
                        i,
                    ),
            decreases x1 - x,
        {
            proof {
                assert forall|i: int| 0 <= i < map@.len() implies 0 <= #[trigger] (i % gk) by {
                    lemma_idx3_onto(i, gn, gn, gk);
                }
            }
            for ki in 0..k
                invariant
                    gn == n == side,
                    gk == num_kernels == k,
                    before.len() == gn * gn * gk,
                    map@.len() == before.len() == total,
                    patch.p_vector@.len() == k,
                    y < n,
                    x < n,
                    patch.covers(y as int, x as int),
                    forall|i: int|
                        0 <= i < map@.len() ==> #[trigger] map@[i] == if i / gk == y * gn + x && i
                            % gk < ki {
                            patch.p_vector@[i % gk]
                        } else {
                            half_written(gn, gk, before, *patch, y as int, x as int, i)
                        },
            {
                proof {
                    lemma_idx3(y as int, x as int, ki as int, gn, gn, gk);
                    assert(0 <= y * gn <= y * gn + x) by (nonlinear_arith)
                        requires
                            0 <= y,
                            0 <= gn,
                            0 <= x,
                    ;
                    assert((y * gn + x) <= (y * gn + x) * gk) by (nonlinear_arith)
                        requires
                            0 <= y * gn + x,
                            1 <= gk,
                    ;
                }
                let at: usize = (y * side + x) * k + ki;
                let ghost prev = map@;
                map.set(at, patch.p_vector[ki]);
                proof {
                    assert forall|i: int| 0 <= i < map@.len() implies #[trigger] map@[i] == if i
                        / gk == y * gn + x && i % gk < ki + 1 {
                        patch.p_vector@[i % gk]
                    } else {
                        half_written(gn, gk, before, *patch, y as int, x as int, i)
                    } by {
                        lemma_idx3_onto(i, gn, gn, gk);
                        vstd::arithmetic::div_mod::lemma_fundamental_div_mod(i, gk);
                        assert((i / gk) * gk == gk * (i / gk)) by (nonlinear_arith);
                        if i != at {
                            assert(map@[i] == prev[i]);
                        }
                    }
                }
            }
            proof {
                assert forall|i: int| 0 <= i < map@.len() implies #[trigger] map@[i]
                    == half_written(gn, gk, before, *patch, y as int, x + 1, i) by {
                    lemma_idx3_onto(i, gn, gn, gk);
                    lemma_idx3(i / gk / gn, i / gk % gn, i % gk, gn, gn, gk);
                    if i / gk == y * gn + x {
                        lemma_idx3(y as int, x as int, i % gk, gn, gn, gk);
                        vstd::arithmetic::div_mod::lemma_fundamental_div_mod_converse(
                            i / gk,
                            gn,
                            y as int,
                            x as int,
                        );
                    }
                }
            }
            x = x + 1;
        }
        proof {
            assert forall|i: int| 0 <= i < map@.len() implies #[trigger] map@[i] == half_written(
                gn,
                gk,
                before,
                *patch,
                y + 1,
                x0 as int,
                i,
            ) by {
                lemma_idx3_onto(i, gn, gn, gk);
            }
        }
        y = y + 1;
    }
    proof {
        assert forall|i: int| 0 <= i < map@.len() implies #[trigger] map@[i] == half_written(
            gn,
            gk,
            before,
            *patch,
            gn,
            0,
            i,
        ) by {
            lemma_idx3_onto(i, gn, gn, gk);
        }
    }
}

/// Builds the map of an `n * n` grid: the default weights everywhere, then each
/// patch in turn.
pub fn build_for_patches(
    n: u32,
    num_kernels: u32,
    default_p: &[F32Bits],
    patches: &[CreaturePatch],
) -> (map: Vec<F32Bits>)
    requires
        default_p@.len() == num_kernels,
        forall|i: int|
            0 <= i < patches@.len() ==> (#[trigger] patches@[i]).p_vector@.len() == num_kernels,
    ensures
        map@ == patch_map(n as int, num_kernels as int, default_p@, patches@),
{
    let ghost gn = n as int;
    let ghost gk = num_kernels as int;
    let k: usize = num_kernels as usize;
    let mut map: Vec<F32Bits> = Vec::new();
    proof {
        lemma_idx3_step(0, 0, gn, gk);
    }
    for y in 0..n
        invariant
            gn == n,
            gk == num_kernels == k,
            default_p@.len() == k,
            map@.len() == idx3(y as int, 0, 0, gn, gk),
            forall|j: int| 0 <= j < map@.len() ==> #[trigger] map@[j] == default_p@[j % gk],
    {
        for x in 0..n
            invariant
                gn == n,
                gk == num_kernels == k,
                default_p@.len() == k,
                y < n,
                map@.len() == idx3(y as int, x as int, 0, gn, gk),
                forall|j: int| 0 <= j < map@.len() ==> #[trigger] map@[j] == default_p@[j % gk],
        {
            for ki in 0..k
                invariant
                    gn == n,
                    gk == num_kernels == k,
                    default_p@.len() == k,
                    y < n,
                    x < n,
                    map@.len() == idx3(y as int, x as int, ki as int, gn, gk),
                    forall|j: int|
                        0 <= j < map@.len() ==> #[trigger] map@[j] == default_p@[j % gk],
            {
                proof {
                    lemma_idx3(y as int, x as int, ki as int, gn, gn, gk);
                }
                map.push(default_p[ki]);
            }
            proof {
                lemma_idx3_step(y as int, x as int, gn, gk);
            }
        }
        proof {
            lemma_idx3_step(y as int, 0, gn, gk);
        }
    }
    proof {
        assert((gn * gn + 0) * gk + 0 == gn * gn * gk);
        assert(patches@.take(0) =~= Seq::<CreaturePatch>::empty());
    }
    let count: usize = patches.len();
    for p in 0..count
        invariant
            gn == n,
            gk == num_kernels,
            count == patches@.len(),
            map@.len() == gn * gn * gk,
            forall|i: int|
                0 <= i < patches@.len() ==> (#[trigger] patches@[i]).p_vector@.len() == num_kernels,
            forall|j: int|
                0 <= j < map@.len() ==> #[trigger] map@[j] == weights_at(
                    default_p@,
                    patches@.take(p as int),
                    j / gk / gn,
                    j / gk % gn,
                )[j % gk],
    {
        let ghost before = map@;
        write_patch(&mut map, n, num_kernels, &patches[p]);
        proof {
            assert(patches@.take(p + 1).drop_last() =~= patches@.take(p as int));
            assert forall|j: int| 0 <= j < map@.len() implies #[trigger] map@[j] == weights_at(
                default_p@,
                patches@.take(p + 1),
                j / gk / gn,
                j / gk % gn,
            )[j % gk] by {
                lemma_idx3_onto(j, gn, gn, gk);
                assert(before[j] == weights_at(
                    default_p@,
                    patches@.take(p as int),
                    j / gk / gn,
                    j / gk % gn,
                )[j % gk]);
            }
        }
    }
    assert(patches@.take(count as int) =~= patches@);
    assert(map@ =~= patch_map(gn, gk, default_p@, patches@));
    map
}

/// Asks for the storage buffer of a map.
pub fn upload(ctx: &mut GpuContext, map: &[F32Bits]) -> (buffer: Buffer)
    ensures
        buffer.id == old(ctx)@.len(),
        final(ctx)@ == old(ctx)@.push(
            filled(word_bytes(map@), BufferUsages::of_storage().and_copy_dst()),
        ),
        final(ctx).queue() == old(ctx).queue(),
{
    ctx.create_buffer_init(words_to_bytes(map), BufferUsages::storage().with_copy_dst())
}

/// With a single patch, exactly the cells from row `y0` to just before row `y1`
/// and from column `x0` to just before column `x1` have the patch's weights;
/// all others keep the default ones.
pub proof fn law_patch_box(
    n: int,
    k: int,
    default_p: Seq<u32>,
    patch: CreaturePatch,
    y: int,
    x: int,
    ki: int,
)
    requires
        0 <= y < n,
        0 <= x < n,
        0 <= ki < k,
    ensures
        ({
            let (y0, x0, y1, x1) = patch.bbox;
            let inside = y0 <= y < y1 && x0 <= x < x1;
            patch_map(n, k, default_p, seq![patch])[(y * n + x) * k + ki] == if inside {
                patch.p_vector@[ki]
            } else {
                default_p[ki]
            }
        }),
{
    law_patch_map_index(n, k, default_p, seq![patch], y, x, ki);
    assert(seq![patch].drop_last() =~= Seq::<CreaturePatch>::empty());
    assert(weights_at(default_p, Seq::<CreaturePatch>::empty(), y, x) == default_p);
}

/// One more patch changes the cells that it covers and no others.
pub proof fn law_patch_after_patches(
    default_p: Seq<u32>,
    patches: Seq<CreaturePatch>,
    patch: CreaturePatch,
    y: int,
    x: int,
)
    ensures
        ({
            let (y0, x0, y1, x1) = patch.bbox;
            weights_at(default_p, patches.push(patch), y, x) == if y0 <= y < y1 && x0 <= x < x1 {
                patch.p_vector@
            } else {
                weights_at(default_p, patches, y, x)
            }
        }),
{
    assert(patches.push(patch).drop_last() =~= patches);
}

} // verus!
