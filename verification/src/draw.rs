//! Sprite drawing: XOR-plotting with modular wraparound and collision
//! detection.
//!
//! A sprite is `n` rows of 8 columns; row `r` is the byte at `I + r`
//! (wrapping modulo the memory size) and column `c` is its bit of weight
//! `2^(7-c)`. Each set sprite bit toggles the display cell at
//! `((Vx + c) mod 64, (Vy + r) mod 32)`; the collision flag reports
//! whether any toggle turned an already-set cell off.

use vstd::prelude::*;
use vstd::arithmetic::div_mod::lemma_fundamental_div_mod;
use vstd::arithmetic::div_mod::lemma_fundamental_div_mod_converse;

verus! {

/// Weight of sprite column `c` within a row byte: bit 7 (weight 128) is
/// the leftmost pixel.
pub open spec fn col_weight(c: int) -> int {
    if c == 0 {
        128
    } else if c == 1 {
        64
    } else if c == 2 {
        32
    } else if c == 3 {
        16
    } else if c == 4 {
        8
    } else if c == 5 {
        4
    } else if c == 6 {
        2
    } else {
        1
    }
}

/// Whether column `c` of a sprite row byte is set.
pub open spec fn sprite_bit(byte: u8, c: int) -> bool {
    (byte as int / col_weight(c)) % 2 == 1
}

/// The byte giving sprite row `r`: memory at `I + r`, wrapping.
pub open spec fn sprite_row(mem: Seq<u8>, i: u16, r: int) -> u8 {
    mem[(i + r) % 4096]
}

/// The display cell (row-major index) that sprite cell `(r, c)` lands on:
/// both coordinates wrap rather than clip.
pub open spec fn target_cell(vx: u8, vy: u8, r: int, c: int) -> int {
    (vx + c) % 64 + 64 * ((vy + r) % 32)
}

/// Whether some sprite cell strictly before row `r_lim`, column `c_lim`
/// (in row-major drawing order) is set and lands on display cell `idx`.
pub open spec fn toggles_before(
    mem: Seq<u8>,
    i: u16,
    vx: u8,
    vy: u8,
    r_lim: int,
    c_lim: int,
    idx: int,
) -> bool {
    exists|r: int, c: int|
        0 <= r && 0 <= c < 8 && (r < r_lim || (r == r_lim && c < c_lim)) && sprite_bit(
            sprite_row(mem, i, r),
            c,
        ) && #[trigger] target_cell(vx, vy, r, c) == idx
}

/// Whether the whole `n`-row draw toggles display cell `idx`.
pub open spec fn draw_toggles(mem: Seq<u8>, i: u16, vx: u8, vy: u8, n: u8, idx: int) -> bool {
    toggles_before(mem, i, vx, vy, n as int, 0, idx)
}

/// A display cell after one toggle.
pub open spec fn flip(b: u8) -> u8 {
    if b == 0 {
        1u8
    } else {
        0u8
    }
}

/// The display after drawing the sprite: toggled cells flip, all others
/// keep their value.
pub open spec fn draw_graphics(g: Seq<u8>, mem: Seq<u8>, i: u16, vx: u8, vy: u8, n: u8) -> Seq<
    u8,
> {
    Seq::new(
        2048,
        |idx: int|
            if draw_toggles(mem, i, vx, vy, n, idx) {
                flip(g[idx])
            } else {
                g[idx]
            },
    )
}

/// Whether the draw turns any already-set cell off: the value of the flag
/// register after the draw.
pub open spec fn draw_collision(g: Seq<u8>, mem: Seq<u8>, i: u16, vx: u8, vy: u8, n: u8) -> bool {
    exists|idx: int|
        0 <= idx < 2048 && #[trigger] draw_toggles(mem, i, vx, vy, n, idx) && g[idx] == 1
}

/// Offsets below the modulus that share a residue are equal.
proof fn lemma_mod_inj(a: int, b1: int, b2: int, m: int)
    requires
        m > 0,
        0 <= b1 < m,
        0 <= b2 < m,
        (a + b1) % m == (a + b2) % m,
    ensures
        b1 == b2,
{
    lemma_fundamental_div_mod(a + b1, m);
    lemma_fundamental_div_mod(a + b2, m);
    let q1 = (a + b1) / m;
    let q2 = (a + b2) / m;
    let s = (a + b1) % m;
    assert(b1 - b2 == m * (q1 - q2)) by (nonlinear_arith)
        requires
            a + b1 == m * q1 + s,
            a + b2 == m * q2 + s,
    ;
    if q1 > q2 {
        assert(m * (q1 - q2) >= m) by (nonlinear_arith)
            requires
                m > 0,
                q1 - q2 >= 1,
        ;
    } else if q1 < q2 {
        assert(m * (q1 - q2) <= -m) by (nonlinear_arith)
            requires
                m > 0,
                q1 - q2 <= -1,
        ;
    }
}

/// A row-major cell index decomposes uniquely into its coordinates.
proof fn lemma_cell_coords(px: int, py: int)
    requires
        0 <= px < 64,
        0 <= py < 32,
    ensures
        (px + 64 * py) % 64 == px,
        (px + 64 * py) / 64 == py,
{
    lemma_fundamental_div_mod_converse(px + 64 * py, 64, py, px);
}

/// Distinct sprite cells of one draw land on distinct display cells
/// (row offsets stay below the display height, column offsets below the
/// width, so the wraparound cannot make them collide).
proof fn lemma_target_cell_inj(vx: u8, vy: u8, r1: int, c1: int, r2: int, c2: int)
    requires
        0 <= r1 < 32,
        0 <= c1 < 8,
        0 <= r2 < 32,
        0 <= c2 < 8,
        target_cell(vx, vy, r1, c1) == target_cell(vx, vy, r2, c2),
    ensures
        r1 == r2,
        c1 == c2,
{
    let px1 = (vx + c1) % 64;
    let py1 = (vy + r1) % 32;
    let px2 = (vx + c2) % 64;
    let py2 = (vy + r2) % 32;
    lemma_cell_coords(px1, py1);
    lemma_cell_coords(px2, py2);
    lemma_mod_inj(vx as int, c1, c2, 64);
    lemma_mod_inj(vy as int, r1, r2, 32);
}

/// Moving the drawing-order bound one column right adds exactly the cell
/// `(r, c)` to the prefix.
proof fn lemma_cell_step(mem: Seq<u8>, i: u16, vx: u8, vy: u8, r: int, c: int, k: int)
    requires
        0 <= r,
        0 <= c < 8,
    ensures
        toggles_before(mem, i, vx, vy, r, c + 1, k) == (toggles_before(mem, i, vx, vy, r, c, k)
            || (sprite_bit(sprite_row(mem, i, r), c) && target_cell(vx, vy, r, c) == k)),
{
    if toggles_before(mem, i, vx, vy, r, c + 1, k) {
        let (rr, cc) = choose|rr: int, cc: int|
            0 <= rr && 0 <= cc < 8 && (rr < r || (rr == r && cc < c + 1)) && sprite_bit(
                sprite_row(mem, i, rr),
                cc,
            ) && #[trigger] target_cell(vx, vy, rr, cc) == k;
        if !(rr == r && cc == c) {
            assert(rr < r || (rr == r && cc < c));
            assert(toggles_before(mem, i, vx, vy, r, c, k));
        }
    }
    if toggles_before(mem, i, vx, vy, r, c, k) {
        let (rr, cc) = choose|rr: int, cc: int|
            0 <= rr && 0 <= cc < 8 && (rr < r || (rr == r && cc < c)) && sprite_bit(
                sprite_row(mem, i, rr),
                cc,
            ) && #[trigger] target_cell(vx, vy, rr, cc) == k;
        assert(rr < r || (rr == r && cc < c + 1));
        assert(toggles_before(mem, i, vx, vy, r, c + 1, k));
    }
}

/// Finishing a row is the same prefix as starting the next one.
proof fn lemma_row_roll(mem: Seq<u8>, i: u16, vx: u8, vy: u8, r: int, k: int)
    requires
        0 <= r,
    ensures
        toggles_before(mem, i, vx, vy, r + 1, 0, k) == toggles_before(mem, i, vx, vy, r, 8, k),
{
    if toggles_before(mem, i, vx, vy, r + 1, 0, k) {
        let (rr, cc) = choose|rr: int, cc: int|
            0 <= rr && 0 <= cc < 8 && (rr < r + 1 || (rr == r + 1 && cc < 0)) && sprite_bit(
                sprite_row(mem, i, rr),
                cc,
            ) && #[trigger] target_cell(vx, vy, rr, cc) == k;
        assert(rr < r || (rr == r && cc < 8));
        assert(toggles_before(mem, i, vx, vy, r, 8, k));
    }
    if toggles_before(mem, i, vx, vy, r, 8, k) {
        let (rr, cc) = choose|rr: int, cc: int|
            0 <= rr && 0 <= cc < 8 && (rr < r || (rr == r && cc < 8)) && sprite_bit(
                sprite_row(mem, i, rr),
                cc,
            ) && #[trigger] target_cell(vx, vy, rr, cc) == k;
        assert(rr < r + 1 || (rr == r + 1 && cc < 0));
        assert(toggles_before(mem, i, vx, vy, r + 1, 0, k));
    }
}

/// No sprite cell drawn before `(r, c)` lands on the cell that `(r, c)`
/// itself targets.
proof fn lemma_not_yet_toggled(mem: Seq<u8>, i: u16, vx: u8, vy: u8, r: int, c: int)
    requires
        0 <= r < 32,
        0 <= c < 8,
    ensures
        !toggles_before(mem, i, vx, vy, r, c, target_cell(vx, vy, r, c)),
{
    if toggles_before(mem, i, vx, vy, r, c, target_cell(vx, vy, r, c)) {
        let (rr, cc) = choose|rr: int, cc: int|
            0 <= rr && 0 <= cc < 8 && (rr < r || (rr == r && cc < c)) && sprite_bit(
                sprite_row(mem, i, rr),
                cc,
            ) && #[trigger] target_cell(vx, vy, rr, cc) == target_cell(vx, vy, r, c);
        lemma_target_cell_inj(vx, vy, rr, cc, r, c);
        assert(false);
    }
}

/// Draw an `n`-row sprite read from memory at `I` onto the display at
/// `(Vx, Vy)`, toggling pixels and reporting whether any set pixel was
/// turned off.
pub fn draw_sprite(g: &mut Vec<u8>, mem: &Vec<u8>, i: u16, vx: u8, vy: u8, n: u8) -> (collision:
    bool)
    requires
        old(g)@.len() == 2048,
        forall|k: int| 0 <= k < 2048 ==> old(g)@[k] <= 1,
        mem@.len() == 4096,
        n < 16,
    ensures
        final(g)@ == draw_graphics(old(g)@, mem@, i, vx, vy, n),
        collision == draw_collision(old(g)@, mem@, i, vx, vy, n),
        forall|k: int| 0 <= k < 2048 ==> final(g)@[k] <= 1,
{
    let ghost g0 = g@;
    let mut collision = false;
    let mut r: u8 = 0;
    while r < n
        invariant
            r <= n,
            n < 16,
            mem@.len() == 4096,
            g@.len() == 2048,
            g0.len() == 2048,
            forall|k: int| 0 <= k < 2048 ==> g0[k] <= 1,
            forall|k: int|
                0 <= k < 2048 ==> g@[k] == (if toggles_before(mem@, i, vx, vy, r as int, 0, k) {
                    flip(g0[k])
                } else {
                    g0[k]
                }),
            collision == exists|k: int|
                0 <= k < 2048 && #[trigger] toggles_before(mem@, i, vx, vy, r as int, 0, k)
                    && g0[k] == 1,
        decreases n - r,
    {
        let row_byte = mem[((i as usize) + (r as usize)) % 4096];
        let mut c: u8 = 0;
        while c < 8
            invariant
                c <= 8,
                r < n,
                n < 16,
                mem@.len() == 4096,
                g@.len() == 2048,
                g0.len() == 2048,
                row_byte == sprite_row(mem@, i, r as int),
                forall|k: int| 0 <= k < 2048 ==> g0[k] <= 1,
                forall|k: int|
                    0 <= k < 2048 ==> g@[k] == (if toggles_before(
                        mem@,
                        i,
                        vx,
                        vy,
                        r as int,
                        c as int,
                        k,
                    ) {
                        flip(g0[k])
                    } else {
                        g0[k]
                    }),
                collision == exists|k: int|
                    0 <= k < 2048 && #[trigger] toggles_before(
                        mem@,
                        i,
                        vx,
                        vy,
                        r as int,
                        c as int,
                        k,
                    ) && g0[k] == 1,
            decreases 8 - c,
        {
            let weight: u8 = if c == 0 {
                128
            } else if c == 1 {
                64
            } else if c == 2 {
                32
            } else if c == 3 {
                16
            } else if c == 4 {
                8
            } else if c == 5 {
                4
            } else if c == 6 {
                2
            } else {
                1
            };
            proof {
                assert(weight as int == col_weight(c as int));
            }
            if (row_byte / weight) % 2 == 1 {
                let px: usize = ((vx as usize) + (c as usize)) % 64;
                let py: usize = ((vy as usize) + (r as usize)) % 32;
                let idx: usize = px + 64 * py;
                proof {
                    assert(idx as int == target_cell(vx, vy, r as int, c as int));
                    lemma_not_yet_toggled(mem@, i, vx, vy, r as int, c as int);
                    assert(g@[idx as int] == g0[idx as int]);
                }
                let ghost g_before = g@;
                let ghost coll_before = collision;
                if g[idx] == 1 {
                    collision = true;
                    g.set(idx, 0);
                } else {
                    g.set(idx, 1);
                }
                proof {
                    assert(g@[idx as int] == flip(g0[idx as int]));
                    assert forall|k: int| 0 <= k < 2048 implies g@[k] == (if toggles_before(
                        mem@,
                        i,
                        vx,
                        vy,
                        r as int,
                        c as int + 1,
                        k,
                    ) {
                        flip(g0[k])
                    } else {
                        g0[k]
                    }) by {
                        lemma_cell_step(mem@, i, vx, vy, r as int, c as int, k);
                    }
                    // The collision flag accumulates exactly the toggles
                    // that hit a cell set at the start of the draw.
                    lemma_cell_step(mem@, i, vx, vy, r as int, c as int, idx as int);
                    if collision {
                        if coll_before {
                            let k0 = choose|k: int|
                                0 <= k < 2048 && #[trigger] toggles_before(
                                    mem@,
                                    i,
                                    vx,
                                    vy,
                                    r as int,
                                    c as int,
                                    k,
                                ) && g0[k] == 1;
                            lemma_cell_step(mem@, i, vx, vy, r as int, c as int, k0);
                            assert(toggles_before(mem@, i, vx, vy, r as int, c as int + 1, k0));
                        } else {
                            assert(g0[idx as int] == 1);
                            assert(toggles_before(
                                mem@,
                                i,
                                vx,
                                vy,
                                r as int,
                                c as int + 1,
                                idx as int,
                            ));
                        }
                    } else {
                        assert forall|k: int|
                            0 <= k < 2048 && #[trigger] toggles_before(
                                mem@,
                                i,
                                vx,
                                vy,
                                r as int,
                                c as int + 1,
                                k,
                            ) implies g0[k] != 1 by {
                            lemma_cell_step(mem@, i, vx, vy, r as int, c as int, k);
                        }
                    }
                }
            } else {
                proof {
                    assert(!sprite_bit(sprite_row(mem@, i, r as int), c as int));
                    assert forall|k: int| 0 <= k < 2048 implies toggles_before(
                        mem@,
                        i,
                        vx,
                        vy,
                        r as int,
                        c as int + 1,
                        k,
                    ) == toggles_before(mem@, i, vx, vy, r as int, c as int, k) by {
                        lemma_cell_step(mem@, i, vx, vy, r as int, c as int, k);
                    }
                    assert forall|k: int|
                        0 <= k < 2048 && #[trigger] toggles_before(
                            mem@,
                            i,
                            vx,
                            vy,
                            r as int,
                            c as int + 1,
                            k,
                        ) && g0[k] == 1 implies toggles_before(mem@, i, vx, vy, r as int, c as int, k)
                        && g0[k] == 1 by {
                        lemma_cell_step(mem@, i, vx, vy, r as int, c as int, k);
                    }
                }
            }
            c = c + 1;
        }
        proof {
            assert forall|k: int| 0 <= k < 2048 implies toggles_before(
                mem@,
                i,
                vx,
                vy,
                r as int + 1,
                0,
                k,
            ) == toggles_before(mem@, i, vx, vy, r as int, 8, k) by {
                lemma_row_roll(mem@, i, vx, vy, r as int, k);
            }
            if collision {
                let k0 = choose|k: int|
                    0 <= k < 2048 && #[trigger] toggles_before(mem@, i, vx, vy, r as int, 8, k)
                        && g0[k] == 1;
                assert(toggles_before(mem@, i, vx, vy, r as int + 1, 0, k0) && g0[k0] == 1);
            } else {
                assert forall|k: int|
                    0 <= k < 2048 && #[trigger] toggles_before(mem@, i, vx, vy, r as int + 1, 0, k)
                        implies !(g0[k] == 1) by {
                    lemma_row_roll(mem@, i, vx, vy, r as int, k);
                }
            }
        }
        r = r + 1;
    }
    proof {
        assert(g@ =~= draw_graphics(g0, mem@, i, vx, vy, n));
        if collision {
            let k0 = choose|k: int|
                0 <= k < 2048 && #[trigger] toggles_before(mem@, i, vx, vy, n as int, 0, k)
                    && g0[k] == 1;
            assert(draw_toggles(mem@, i, vx, vy, n, k0) && g0[k0] == 1);
        } else {
            assert forall|k: int|
                0 <= k < 2048 && #[trigger] draw_toggles(mem@, i, vx, vy, n, k) implies !(g0[k]
                == 1) by {
                assert(toggles_before(mem@, i, vx, vy, n as int, 0, k));
            }
        }
    }
    collision
}

} // verus!
