use vstd::prelude::*;

verus! {

/// Pixels per row.
pub const SCREEN_WIDTH: u8 = 64;

/// Rows of pixels.
pub const SCREEN_HEIGHT: usize = 32;

/// The row with every pixel off.
pub open spec fn blank() -> Seq<u64> {
    Seq::new(SCREEN_HEIGHT as nat, |r: int| 0u64)
}

/// A sprite row placed in a screen row: the byte's most significant bit lands
/// in column `col`; bits pushed past the right edge are dropped.
pub open spec fn sprite_mask(byte: u8, col: u8) -> u64 {
    ((byte as u64) << 56u64) >> (col as u64)
}

/// The sprite row that lands in screen row `r` when the sprite's top row is
/// row `vy mod 32`.
pub open spec fn line_of(r: int, vy: u8) -> int {
    (r - vy % 32) % 32
}

/// What is XORed into screen row `r` when `sprite` is drawn at the position
/// given by the register values `vx` and `vy`. The sprite starts at column
/// `vx mod 64` and row `vy mod 32`; its rows wrap around from the bottom of
/// the screen to the top.
pub open spec fn row_mask(sprite: Seq<u8>, vx: u8, vy: u8, r: int) -> u64 {
    let i = line_of(r, vy);
    if i < sprite.len() {
        sprite_mask(sprite[i], vx % 64)
    } else {
        0
    }
}

/// The screen after `sprite` is drawn at (`vx`, `vy`).
pub open spec fn drawn(rows: Seq<u64>, sprite: Seq<u8>, vx: u8, vy: u8) -> Seq<u64> {
    Seq::new(rows.len(), |r: int| rows[r] ^ row_mask(sprite, vx, vy, r))
}

/// Drawing `sprite` at (`vx`, `vy`) turns off at least one pixel that was on.
pub open spec fn collides(rows: Seq<u64>, sprite: Seq<u8>, vx: u8, vy: u8) -> bool {
    exists|r: int|
        0 <= r < rows.len() && #[trigger] rows[r] & !drawn(rows, sprite, vx, vy)[r] != 0
}

proof fn lemma_xor(a: u64, m: u64)
    ensures
        (a ^ m) ^ m == a,
        a & !(a ^ m) == a & m,
        a ^ 0 == a,
        a & 0 == 0,
        0u64 & m == 0,
{
    assert((a ^ m) ^ m == a && a & !(a ^ m) == a & m && a ^ 0 == a && a & 0 == 0 && 0u64 & m
        == 0) by (bit_vector);
}

/// Drawing the same sprite twice at the same position restores the screen.
pub proof fn lemma_draw_twice_restores(rows: Seq<u64>, sprite: Seq<u8>, vx: u8, vy: u8)
    ensures
        drawn(drawn(rows, sprite, vx, vy), sprite, vx, vy) == rows,
{
    let once = drawn(rows, sprite, vx, vy);
    let twice = drawn(once, sprite, vx, vy);
    assert forall|r: int| 0 <= r < rows.len() implies twice[r] == rows[r] by {
        lemma_xor(rows[r], row_mask(sprite, vx, vy, r));
    }
    assert(twice =~= rows);
}

/// A draw collides exactly when some screen row shares a lit pixel with the
/// sprite row placed on it.
pub proof fn lemma_collides_iff_overlap(rows: Seq<u64>, sprite: Seq<u8>, vx: u8, vy: u8)
    ensures
        collides(rows, sprite, vx, vy) <==> exists|r: int|
            0 <= r < rows.len() && #[trigger] rows[r] & row_mask(sprite, vx, vy, r) != 0,
{
    assert forall|r: int| 0 <= r < rows.len() implies #[trigger] rows[r] & !drawn(
        rows,
        sprite,
        vx,
        vy,
    )[r] == rows[r] & row_mask(sprite, vx, vy, r) by {
        lemma_xor(rows[r], row_mask(sprite, vx, vy, r));
    }
}

/// Drawing where every screen row is dark never collides.
pub proof fn lemma_blank_never_collides(rows: Seq<u64>, sprite: Seq<u8>, vx: u8, vy: u8)
    requires
        forall|r: int| 0 <= r < rows.len() ==> rows[r] == 0,
    ensures
        !collides(rows, sprite, vx, vy),
{
    lemma_collides_iff_overlap(rows, sprite, vx, vy);
    assert forall|r: int| 0 <= r < rows.len() implies !(#[trigger] rows[r] & row_mask(
        sprite,
        vx,
        vy,
        r,
    ) != 0) by {
        lemma_xor(rows[r], row_mask(sprite, vx, vy, r));
    }
}

/// The framebuffer: 32 rows of 64 pixels, bit 63 of a row its leftmost pixel.
pub struct Display {
    pub screen_memory: [u64; 32],
}

impl View for Display {
    type V = Seq<u64>;

    open spec fn view(&self) -> Seq<u64> {
        self.screen_memory@
    }
}

impl Display {
    pub fn new() -> (d: Display)
        ensures
            d@ == blank(),
    {
        let d = Display { screen_memory: [0u64; 32] };
        assert(d@ =~= blank());
        d
    }

    /// Turns every pixel off.
    pub fn clear(&mut self)
        ensures
            final(self)@ == blank(),
    {
        self.screen_memory = [0u64; 32];
        assert(self@ =~= blank());
    }

    /// XORs `sprite`, one byte per row, onto the screen at (`vx mod 64`,
    /// `vy mod 32`), and reports whether a lit pixel was turned off.
    pub fn draw_sprite(&mut self, sprite: &Vec<u8>, vx: u8, vy: u8) -> (collision: bool)
        requires
            sprite.len() <= 16,
        ensures
            final(self)@ == drawn(old(self)@, sprite@, vx, vy),
            collision == collides(old(self)@, sprite@, vx, vy),
    {
        let ghost before = self@;
        let col = vx % 64;
        let top = vy % 32;
        let mut collision = false;
        let mut i: usize = 0;
        while i < sprite.len()
            invariant
                i <= sprite.len() <= 16,
                col == vx % 64,
                top == vy % 32,
                before.len() == SCREEN_HEIGHT,
                forall|r: int|
                    0 <= r < SCREEN_HEIGHT ==> #[trigger] self@[r] == if line_of(r, vy) < i {
                        before[r] ^ row_mask(sprite@, vx, vy, r)
                    } else {
                        before[r]
                    },
                collision <==> exists|r: int|
                    0 <= r < SCREEN_HEIGHT && line_of(r, vy) < i && #[trigger] before[r]
                        & row_mask(sprite@, vx, vy, r) != 0,
            decreases sprite.len() - i,
        {
            let t = top as usize + i;
            let row = if t >= 32 {
                t - 32
            } else {
                t
            };
            proof {
                assert(line_of(row as int, vy) == i);
                assert forall|r: int| 0 <= r < SCREEN_HEIGHT && r != row implies #[trigger] line_of(
                    r,
                    vy,
                ) != i by {
                    if r >= top {
                        assert(line_of(r, vy) == r - top);
                    } else {
                        assert(line_of(r, vy) == r - top + 32);
                    }
                }
            }
            let ghost was = collision;
            let line = self.screen_memory[row];
            assert(self@[row as int] == before[row as int]);
            let mask = ((sprite[i] as u64) << 56) >> col;
            assert(mask == row_mask(sprite@, vx, vy, row as int));
            if line & mask != 0 {
                collision = true;
            }
            self.screen_memory[row] = line ^ mask;
            i = i + 1;
            proof {
                assert forall|r: int| 0 <= r < SCREEN_HEIGHT implies #[trigger] self@[r] == if line_of(
                    r,
                    vy,
                ) < i {
                    before[r] ^ row_mask(sprite@, vx, vy, r)
                } else {
                    before[r]
                } by {
                    if r != row {
                        assert(line_of(r, vy) != i - 1);
                    }
                }
                if collision && !was {
                    assert(0 <= row < SCREEN_HEIGHT && line_of(row as int, vy) < i && before[row as int]
                        & row_mask(sprite@, vx, vy, row as int) != 0);
                }
                if was {
                    let w = choose|r: int|
                        0 <= r < SCREEN_HEIGHT && line_of(r, vy) < i - 1 && #[trigger] before[r]
                            & row_mask(sprite@, vx, vy, r) != 0;
                    assert(0 <= w < SCREEN_HEIGHT && line_of(w, vy) < i && before[w] & row_mask(
                        sprite@,
                        vx,
                        vy,
                        w,
                    ) != 0);
                }
                if !collision {
                    assert forall|r: int|
                        0 <= r < SCREEN_HEIGHT && line_of(r, vy) < i implies !(#[trigger] before[r]
                        & row_mask(sprite@, vx, vy, r) != 0) by {
                        if r != row {
                            assert(line_of(r, vy) < i - 1);
                        }
                    }
                }
            }
        }
        proof {
            assert forall|r: int| 0 <= r < SCREEN_HEIGHT implies self@[r] == drawn(
                before,
                sprite@,
                vx,
                vy,
            )[r] by {
                lemma_xor(before[r], row_mask(sprite@, vx, vy, r));
            }
            assert(self@ =~= drawn(before, sprite@, vx, vy));
            lemma_collides_iff_overlap(before, sprite@, vx, vy);
            if collides(before, sprite@, vx, vy) {
                let w = choose|r: int|
                    0 <= r < before.len() && #[trigger] before[r] & row_mask(sprite@, vx, vy, r)
                        != 0;
                if line_of(w, vy) >= i {
                    lemma_xor(before[w], 0);
                }
                assert(0 <= w < SCREEN_HEIGHT && line_of(w, vy) < i && before[w] & row_mask(
                    sprite@,
                    vx,
                    vy,
                    w,
                ) != 0);
            }
        }
        collision
    }
}

} // verus!
