use vstd::prelude::*;
use crate::model::{SCREEN_HEIGHT, SCREEN_SIZE, SCREEN_WIDTH, collides, covers, drawn, pixel, sprite_bit};

verus! {

/// Sprite cell `(dy, dx)` comes before cell `(row, col)` in drawing order.
pub open spec fn before(dy: int, dx: int, row: int, col: int) -> bool {
    dy < row || (dy == row && dx < col)
}

/// The part of a sprite's cover already drawn when the loop stands at `(row, col)`.
pub open spec fn partial_cover(
    ram: Seq<u8>,
    i: int,
    x: int,
    y: int,
    n: int,
    r: int,
    c: int,
    row: int,
    col: int,
) -> bool {
    covers(ram, i, x, y, n, r, c) && before(
        (r - y) % (SCREEN_HEIGHT as int),
        (c - x) % (SCREEN_WIDTH as int),
        row,
        col,
    )
}

/// On a wrapping axis of `w` cells, offset `d` from origin `v` names exactly
/// one cell, `(v + d) % w`.
pub proof fn lemma_wrap_axis(v: int, d: int, t: int, w: int)
    requires
        w == SCREEN_WIDTH || w == SCREEN_HEIGHT,
        0 <= v < 256,
        0 <= d < w,
        0 <= t < w,
    ensures
        ((t - v) % w == d) <==> (t == (v + d) % w),
{
    if w == 64 {
        assert(((t - v) % 64 == d) <==> (t == (v + d) % 64));
    } else {
        assert(((t - v) % 32 == d) <==> (t == (v + d) % 32));
    }
}

/// Row-major positions of distinct cells are distinct.
pub proof fn lemma_index_distinct(r1: int, c1: int, r2: int, c2: int)
    requires
        0 <= c1 < SCREEN_WIDTH,
        0 <= c2 < SCREEN_WIDTH,
        r1 != r2 || c1 != c2,
    ensures
        r1 * (SCREEN_WIDTH as int) + c1 != r2 * (SCREEN_WIDTH as int) + c2,
{
}

/// Each pixel of `s` is the pixel of `s0` flipped where the part of the
/// sprite drawn so far reaches it.
pub open spec fn screen_so_far(
    s: Seq<bool>,
    s0: Seq<bool>,
    ram: Seq<u8>,
    i: int,
    x: int,
    y: int,
    n: int,
    row: int,
    col: int,
) -> bool {
    &&& s.len() == SCREEN_SIZE
    &&& forall|r: int, c: int|
        0 <= r < SCREEN_HEIGHT && 0 <= c < SCREEN_WIDTH ==> #[trigger] pixel(s, r, c) == (pixel(
            s0,
            r,
            c,
        ) != partial_cover(ram, i, x, y, n, r, c, row, col))
}

/// The part of the sprite drawn so far reaches a pixel lit in `s0`.
pub open spec fn hit_so_far(
    s0: Seq<bool>,
    ram: Seq<u8>,
    i: int,
    x: int,
    y: int,
    n: int,
    row: int,
    col: int,
) -> bool {
    exists|r: int, c: int|
        0 <= r < SCREEN_HEIGHT && 0 <= c < SCREEN_WIDTH && #[trigger] pixel(s0, r, c)
            && partial_cover(ram, i, x, y, n, r, c, row, col)
}

/// The screen index of sprite cell `(row, col)` drawn at origin `(x, y)`.
pub open spec fn target(x: int, y: int, row: int, col: int) -> int {
    ((y + row) % (SCREEN_HEIGHT as int)) * (SCREEN_WIDTH as int) + (x + col) % (SCREEN_WIDTH as int)
}

/// Nothing is drawn before the first cell.
pub proof fn lemma_draw_start(s0: Seq<bool>, ram: Seq<u8>, i: int, x: int, y: int, n: int)
    requires
        s0.len() == SCREEN_SIZE,
    ensures
        screen_so_far(s0, s0, ram, i, x, y, n, 0, 0),
        !hit_so_far(s0, ram, i, x, y, n, 0, 0),
{
}

/// Drawing a set bit flips exactly its target pixel, and that pixel still
/// holds its original value.
pub proof fn lemma_draw_set_bit(
    s: Seq<bool>,
    s0: Seq<bool>,
    ram: Seq<u8>,
    i: int,
    x: int,
    y: int,
    n: int,
    row: int,
    col: int,
)
    requires
        screen_so_far(s, s0, ram, i, x, y, n, row, col),
        s0.len() == SCREEN_SIZE,
        0 <= x < 256,
        0 <= y < 256,
        0 <= row < n <= 16,
        0 <= col < 8,
        sprite_bit(ram[i + row], col),
    ensures
        0 <= target(x, y, row, col) < SCREEN_SIZE,
        s[target(x, y, row, col)] == s0[target(x, y, row, col)],
        screen_so_far(
            s.update(target(x, y, row, col), !s[target(x, y, row, col)]),
            s0,
            ram,
            i,
            x,
            y,
            n,
            row,
            col + 1,
        ),
        hit_so_far(s0, ram, i, x, y, n, row, col + 1) == (hit_so_far(s0, ram, i, x, y, n, row, col)
            || s0[target(x, y, row, col)]),
{
    let py = (y + row) % 32;
    let px = (x + col) % 64;
    let t = target(x, y, row, col);
    let s1 = s.update(t, !s[t]);
    assert(t == py * 64 + px);
    assert(pixel(s, py, px) == s[t]);
    assert(pixel(s0, py, px) == s0[t]);
    lemma_wrap_axis(y, row, py, SCREEN_HEIGHT as int);
    lemma_wrap_axis(x, col, px, SCREEN_WIDTH as int);
    assert(covers(ram, i, x, y, n, py, px));
    assert(!partial_cover(ram, i, x, y, n, py, px, row, col));
    assert(partial_cover(ram, i, x, y, n, py, px, row, col + 1));
    assert forall|r: int, c: int|
        0 <= r < SCREEN_HEIGHT && 0 <= c < SCREEN_WIDTH implies #[trigger] pixel(s1, r, c) == (
        pixel(s0, r, c) != partial_cover(ram, i, x, y, n, r, c, row, col + 1)) by {
        lemma_wrap_axis(y, row, r, SCREEN_HEIGHT as int);
        lemma_wrap_axis(x, col, c, SCREEN_WIDTH as int);
        if r != py || c != px {
            lemma_index_distinct(r, c, py, px);
            assert(pixel(s1, r, c) == pixel(s, r, c));
        }
    }
    if hit_so_far(s0, ram, i, x, y, n, row, col) {
        let (r0, c0) = choose|r: int, c: int|
            0 <= r < SCREEN_HEIGHT && 0 <= c < SCREEN_WIDTH && #[trigger] pixel(s0, r, c)
                && partial_cover(ram, i, x, y, n, r, c, row, col);
        assert(partial_cover(ram, i, x, y, n, r0, c0, row, col + 1));
    }
    if s0[t] {
        assert(pixel(s0, py, px) && partial_cover(ram, i, x, y, n, py, px, row, col + 1));
    }
    if hit_so_far(s0, ram, i, x, y, n, row, col + 1) {
        let (r0, c0) = choose|r: int, c: int|
            0 <= r < SCREEN_HEIGHT && 0 <= c < SCREEN_WIDTH && #[trigger] pixel(s0, r, c)
                && partial_cover(ram, i, x, y, n, r, c, row, col + 1);
        lemma_wrap_axis(y, row, r0, SCREEN_HEIGHT as int);
        lemma_wrap_axis(x, col, c0, SCREEN_WIDTH as int);
        if r0 != py || c0 != px {
            assert(partial_cover(ram, i, x, y, n, r0, c0, row, col));
        }
    }
}

/// A clear bit draws nothing.
pub proof fn lemma_draw_clear_bit(
    s: Seq<bool>,
    s0: Seq<bool>,
    ram: Seq<u8>,
    i: int,
    x: int,
    y: int,
    n: int,
    row: int,
    col: int,
)
    requires
        screen_so_far(s, s0, ram, i, x, y, n, row, col),
        0 <= x < 256,
        0 <= y < 256,
        0 <= row < n <= 16,
        0 <= col < 8,
        !sprite_bit(ram[i + row], col),
    ensures
        screen_so_far(s, s0, ram, i, x, y, n, row, col + 1),
        hit_so_far(s0, ram, i, x, y, n, row, col + 1) == hit_so_far(s0, ram, i, x, y, n, row, col),
{
    assert forall|r: int, c: int|
        0 <= r < SCREEN_HEIGHT && 0 <= c < SCREEN_WIDTH implies #[trigger] partial_cover(
            ram,
            i,
            x,
            y,
            n,
            r,
            c,
            row,
            col + 1,
        ) == partial_cover(ram, i, x, y, n, r, c, row, col) by {}
    assert(screen_so_far(s, s0, ram, i, x, y, n, row, col + 1));
    if hit_so_far(s0, ram, i, x, y, n, row, col + 1) {
        let (r0, c0) = choose|r: int, c: int|
            0 <= r < SCREEN_HEIGHT && 0 <= c < SCREEN_WIDTH && #[trigger] pixel(s0, r, c)
                && partial_cover(ram, i, x, y, n, r, c, row, col + 1);
        assert(partial_cover(ram, i, x, y, n, r0, c0, row, col));
    }
}

/// The end of a sprite row is the start of the next one.
pub proof fn lemma_draw_next_row(
    s: Seq<bool>,
    s0: Seq<bool>,
    ram: Seq<u8>,
    i: int,
    x: int,
    y: int,
    n: int,
    row: int,
)
    requires
        screen_so_far(s, s0, ram, i, x, y, n, row, 8),
    ensures
        screen_so_far(s, s0, ram, i, x, y, n, row + 1, 0),
        hit_so_far(s0, ram, i, x, y, n, row + 1, 0) == hit_so_far(s0, ram, i, x, y, n, row, 8),
{
    assert forall|r: int, c: int|
        0 <= r < SCREEN_HEIGHT && 0 <= c < SCREEN_WIDTH implies #[trigger] partial_cover(
            ram,
            i,
            x,
            y,
            n,
            r,
            c,
            row + 1,
            0,
        ) == partial_cover(ram, i, x, y, n, r, c, row, 8) by {}
    assert(screen_so_far(s, s0, ram, i, x, y, n, row + 1, 0));
    if hit_so_far(s0, ram, i, x, y, n, row + 1, 0) {
        let (r0, c0) = choose|r: int, c: int|
            0 <= r < SCREEN_HEIGHT && 0 <= c < SCREEN_WIDTH && #[trigger] pixel(s0, r, c)
                && partial_cover(ram, i, x, y, n, r, c, row + 1, 0);
        assert(partial_cover(ram, i, x, y, n, r0, c0, row, 8));
    }
    if hit_so_far(s0, ram, i, x, y, n, row, 8) {
        let (r0, c0) = choose|r: int, c: int|
            0 <= r < SCREEN_HEIGHT && 0 <= c < SCREEN_WIDTH && #[trigger] pixel(s0, r, c)
                && partial_cover(ram, i, x, y, n, r, c, row, 8);
        assert(partial_cover(ram, i, x, y, n, r0, c0, row + 1, 0));
    }
}

/// After the last row the whole sprite is drawn.
pub proof fn lemma_draw_finish(s: Seq<bool>, s0: Seq<bool>, ram: Seq<u8>, i: int, x: int, y: int, n: int)
    requires
        screen_so_far(s, s0, ram, i, x, y, n, n, 0),
        s0.len() == SCREEN_SIZE,
    ensures
        s == drawn(s0, ram, i, x, y, n),
        hit_so_far(s0, ram, i, x, y, n, n, 0) == collides(s0, ram, i, x, y, n),
{
    assert forall|r: int, c: int|
        0 <= r < SCREEN_HEIGHT && 0 <= c < SCREEN_WIDTH implies #[trigger] partial_cover(
            ram,
            i,
            x,
            y,
            n,
            r,
            c,
            n,
            0,
        ) == covers(ram, i, x, y, n, r, c) by {}
    let d = drawn(s0, ram, i, x, y, n);
    assert forall|p: int| 0 <= p < SCREEN_SIZE implies s[p] == d[p] by {
        let r = p / (SCREEN_WIDTH as int);
        let c = p % (SCREEN_WIDTH as int);
        assert(pixel(s, r, c) == s[p]);
        assert(pixel(s0, r, c) == s0[p]);
    }
    assert(s =~= d);
    if hit_so_far(s0, ram, i, x, y, n, n, 0) {
        let (r0, c0) = choose|r: int, c: int|
            0 <= r < SCREEN_HEIGHT && 0 <= c < SCREEN_WIDTH && #[trigger] pixel(s0, r, c)
                && partial_cover(ram, i, x, y, n, r, c, n, 0);
        assert(covers(ram, i, x, y, n, r0, c0));
    }
    if collides(s0, ram, i, x, y, n) {
        let (r0, c0) = choose|r: int, c: int|
            0 <= r < SCREEN_HEIGHT && 0 <= c < SCREEN_WIDTH && #[trigger] pixel(s0, r, c)
                && covers(ram, i, x, y, n, r, c);
        assert(partial_cover(ram, i, x, y, n, r0, c0, n, 0));
    }
}

} // verus!
