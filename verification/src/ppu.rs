//! The picture processing unit: a dot-cycle LCD controller with a pixel
//! fetcher feeding two 16-slot FIFOs, an OAM scan that selects up to ten
//! sprites per line, a window trigger, and the STAT interrupt edge
//! detector.  One dot is one T-cycle; a scanline is 456 dots and a frame
//! 154 lines.

use vstd::prelude::*;

use crate::save_state::{
    load_bytes, load_u64, load_u8, save_bytes, save_u64, save_u8, u64_from_le, u64_le,
    LoadStateError,
};

verus! {

/// One entry of the object attribute table.
#[derive(Clone, Copy, Debug, PartialEq, Eq, Structural)]
pub struct Sprite {
    pub sx: u8,
    pub sy: u8,
    pub tile: u8,
    pub flags: u8,
}

impl Default for Sprite {
    fn default() -> (s: Sprite)
        ensures
            s == (Sprite { sx: 0, sy: 0, tile: 0, flags: 0 }),
    {
        Sprite { sx: 0, sy: 0, tile: 0, flags: 0 }
    }
}

/// A 16-slot ring buffer of packed pixels.  `head` is the next slot to
/// push, `tail` the next to pop; at most 8 pixels are ever queued.
pub struct PixelFifo {
    pub queue: Vec<u8>,
    pub head: u8,
    pub tail: u8,
}

/// The ghost image of a pixel FIFO.
pub struct FifoModel {
    pub queue: Seq<u8>,
    pub head: u8,
    pub tail: u8,
}

impl View for PixelFifo {
    type V = FifoModel;

    open spec fn view(&self) -> FifoModel {
        FifoModel { queue: self.queue@, head: self.head, tail: self.tail }
    }
}

impl PartialEq for PixelFifo {
    fn eq(&self, other: &PixelFifo) -> (r: bool) {
        crate::save_state::bytes_eq(&self.queue, &other.queue) && self.head == other.head
            && self.tail == other.tail
    }
}

impl vstd::std_specs::cmp::PartialEqSpecImpl for PixelFifo {
    open spec fn obeys_eq_spec() -> bool {
        true
    }

    open spec fn eq_spec(&self, other: &PixelFifo) -> bool {
        self@ == other@
    }
}

/// Whether two sprite tables hold the same entries.
pub fn sprites_eq(a: &Vec<Sprite>, b: &Vec<Sprite>) -> (r: bool)
    ensures
        r == (a@ == b@),
{
    if a.len() != b.len() {
        proof {
            assert(a@.len() != b@.len() ==> a@ != b@);
        }
        return false;
    }
    let n = a.len();
    let mut i: usize = 0;
    while i < n
        invariant
            i <= n,
            n == a@.len() == b@.len(),
            forall|j: int| 0 <= j < i ==> a@[j] == b@[j],
        decreases n - i,
    {
        if !(a[i].sx == b[i].sx && a[i].sy == b[i].sy && a[i].tile == b[i].tile && a[i].flags
            == b[i].flags) {
            return false;
        }
        i += 1;
    }
    proof {
        assert(a@ =~= b@);
    }
    true
}

/// How many pixels a FIFO holds.
pub open spec fn spec_fifo_count(f: FifoModel) -> int {
    (f.head - f.tail) % 16
}

/// What the ring can stand: cursors in range and at most eight pixels.
pub open spec fn spec_fifo_wf(f: FifoModel) -> bool {
    &&& f.queue.len() == 16
    &&& f.head < 16
    &&& f.tail < 16
    &&& spec_fifo_count(f) <= 8
}

/// A ring after one pop: the read cursor steps, or nothing moves when
/// the ring is empty.
pub open spec fn spec_fifo_pop(f: FifoModel) -> FifoModel {
    if f.head == f.tail {
        f
    } else {
        FifoModel { tail: ((f.tail + 1) % 16) as u8, ..f }
    }
}

/// A ring after the first `k` pixels of a background row landed, oldest
/// first: each lands under the write cursor, which steps.
pub open spec fn spec_fifo_push_bg_upto(f: FifoModel, low: u8, high: u8, k: int) -> FifoModel
    decreases k,
{
    if k <= 0 {
        f
    } else {
        let g = spec_fifo_push_bg_upto(f, low, high, k - 1);
        FifoModel {
            queue: g.queue.update(g.head as int, spec_bg_pixel(low, high, k - 1)),
            head: ((g.head + 1) % 16) as u8,
            ..g
        }
    }
}

/// A ring after a whole background row landed.
pub open spec fn spec_fifo_push_bg(f: FifoModel, low: u8, high: u8) -> FifoModel {
    spec_fifo_push_bg_upto(f, low, high, 8)
}

/// The overwriting half of a sprite merge: the first `j` queued pixels,
/// counted from the read cursor, take the sprite pixel where they were
/// transparent.
pub open spec fn spec_fifo_merge_upto(
    f: FifoModel,
    low: u8,
    high: u8,
    n: u8,
    palette: bool,
    background_priority: bool,
    j: int,
) -> FifoModel
    decreases j,
{
    if j <= 0 {
        f
    } else {
        let g = spec_fifo_merge_upto(f, low, high, n, palette, background_priority, j - 1);
        let slot = (f.tail + (j - 1)) % 16;
        if g.queue[slot] & 3 == 0 {
            FifoModel {
                queue: g.queue.update(
                    slot,
                    spec_sprite_pixel(low, high, (n - (j - 1) - 1) as u8, palette, background_priority),
                ),
                ..g
            }
        } else {
            g
        }
    }
}

/// The appending half of a sprite merge: pixels `x-1` down to 0 are
/// pushed at the write cursor.
pub open spec fn spec_fifo_append_from(
    f: FifoModel,
    low: u8,
    high: u8,
    palette: bool,
    background_priority: bool,
    x: int,
) -> FifoModel
    decreases x,
{
    if x <= 0 {
        f
    } else {
        let g = FifoModel {
            queue: f.queue.update(
                f.head as int,
                spec_sprite_pixel(low, high, (x - 1) as u8, palette, background_priority),
            ),
            head: ((f.head + 1) % 16) as u8,
            ..f
        };
        spec_fifo_append_from(g, low, high, palette, background_priority, x - 1)
    }
}

/// A ring after a whole sprite merge: overwrite over the queued pixels,
/// then append what is left of the row.
pub open spec fn spec_fifo_push_sprite(
    f: FifoModel,
    low: u8,
    high: u8,
    cut_off: u8,
    palette: bool,
    background_priority: bool,
) -> FifoModel {
    let n = (8 - cut_off) as u8;
    let j = if spec_fifo_count(f) < 8 - cut_off {
        spec_fifo_count(f)
    } else {
        8 - cut_off as int
    };
    spec_fifo_append_from(
        spec_fifo_merge_upto(f, low, high, n, palette, background_priority, j),
        low,
        high,
        palette,
        background_priority,
        8 - cut_off - j,
    )
}

impl PixelFifo {
    pub open spec fn wf(self) -> bool {
        spec_fifo_wf(self@)
    }

    /// How many pixels are queued.
    pub open spec fn count(self) -> int {
        spec_fifo_count(self@)
    }

    /// The queued pixels, oldest first.
    pub open spec fn contents(self) -> Seq<u8> {
        Seq::new(self.count() as nat, |i: int| self@.queue[(self.tail + i) % 16])
    }

    pub fn new() -> (f: PixelFifo)
        ensures
            f.wf(),
            f.count() == 0,
            f.head == 0 && f.tail == 0,
            f@.queue == Seq::<u8>::new(16, |i: int| 0u8),
    {
        let queue: Vec<u8> = vec![0u8; 16];
        proof {
            assert(queue@ =~= Seq::<u8>::new(16, |i: int| 0u8));
        }
        PixelFifo { queue, head: 0, tail: 0 }
    }

    pub fn is_empty(&self) -> (r: bool)
        requires
            self.wf(),
        ensures
            r == (self.count() == 0),
    {
        self.head == self.tail
    }

    /// Drops every queued pixel.
    pub fn clear(&mut self)
        ensures
            final(self)@.queue == old(self)@.queue,
            final(self).head == 0 && final(self).tail == 0,
            old(self).wf() ==> final(self).wf(),
            final(self).count() == 0,
    {
        self.head = 0;
        self.tail = 0;
    }

    /// Pops the oldest pixel, if any.
    pub fn pop_front(&mut self) -> (r: Option<u8>)
        requires
            old(self).wf(),
        ensures
            final(self).wf(),
            final(self)@.queue == old(self)@.queue,
            old(self).count() == 0 ==> r == None::<u8> && *final(self) == *old(self),
            old(self).count() > 0 ==> r == Some(old(self).contents()[0]) && final(self).count()
                == old(self).count() - 1 && final(self).contents() == old(self).contents().drop_first(),
            final(self)@ == spec_fifo_pop(old(self)@),
            old(self).count() > 0 ==> r == Some(old(self)@.queue[old(self).tail as int]),
    {
        if self.head == self.tail {
            return None;
        }
        let v = self.queue[self.tail as usize];
        self.tail = (self.tail + 1) % 16;
        proof {
            assert(final(self).contents() =~= old(self).contents().drop_first());
        }
        Some(v)
    }
}

/// The 2-bit color of pixel `i` (0 leftmost) of a tile row whose planes
/// are `low` and `high`.
pub open spec fn spec_bg_pixel(low: u8, high: u8, i: int) -> u8 {
    ((((high >> (7 - i) as u8) & 1) << 1) | ((low >> (7 - i) as u8) & 1)) as u8
}

/// A sprite pixel packs its color with the background-priority flag (bit
/// 3) and the palette selector (bit 4); `x` is the bit index in the tile
/// row, 7 leftmost.
pub open spec fn spec_sprite_pixel(low: u8, high: u8, x: u8, palette: bool, background_priority: bool) -> u8 {
    (((((high >> x) & 1) << 1) | ((low >> x) & 1)) | (if background_priority {
        8u8
    } else {
        0u8
    }) | (if palette {
        16u8
    } else {
        0u8
    })) as u8
}

impl PixelFifo {
    /// Push the eight pixels of a background tile row, leftmost first.
    /// Only an empty FIFO takes a row.
    pub fn push_background(&mut self, tile_low: u8, tile_high: u8)
        requires
            old(self).wf(),
            old(self).count() == 0,
        ensures
            final(self).wf(),
            final(self).count() == 8,
            final(self).tail == old(self).tail,
            forall|i: int|
                0 <= i < 8 ==> final(self).contents()[i] == spec_bg_pixel(tile_low, tile_high, i),
            final(self)@ == spec_fifo_push_bg(old(self)@, tile_low, tile_high),
    {
        let ghost t0 = self.tail;
        let mut k: usize = 0;
        while k < 8
            invariant
                k <= 8,
                self@.queue.len() == 16,
                self.tail == t0,
                self.tail < 16,
                self.head < 16,
                self.head == (t0 + k) % 16,
                self.count() == k,
                forall|i: int| 0 <= i < k ==> self.contents()[i] == spec_bg_pixel(tile_low, tile_high, i),
                self@ == spec_fifo_push_bg_upto(old(self)@, tile_low, tile_high, k as int),
            decreases 8 - k,
        {
            let i = (7 - k) as u8;
            let color = (((tile_high >> i) & 1) << 1) | ((tile_low >> i) & 1);
            let ghost before = *self;
            self.queue[self.head as usize] = color;
            self.head = (self.head + 1) % 16;
            k = k + 1;
            proof {
                assert(self.count() == k);
                assert forall|j: int| 0 <= j < k implies self.contents()[j] == spec_bg_pixel(
                    tile_low,
                    tile_high,
                    j,
                ) by {
                    if j < k - 1 {
                        assert((t0 + j) % 16 != (t0 + (k - 1)) % 16);
                        assert(self.contents()[j] == before.contents()[j]);
                    } else {
                        assert(self.contents()[j] == color);
                    }
                }
            }
        }
    }

    /// Merge the eight pixels of a sprite tile row: the leftmost
    /// `8 - cut_off` pixels overwrite queued pixels whose color is
    /// transparent, and whatever is left over is appended.
    #[verifier::rlimit(100)]
    pub fn push_sprite(
        &mut self,
        tile_low: u8,
        tile_high: u8,
        cut_off: u8,
        palette: bool,
        background_priority: bool,
    )
        requires
            old(self).wf(),
            cut_off <= 8,
        ensures
            final(self).wf(),
            final(self).tail == old(self).tail,
            final(self).count() == if old(self).count() >= 8 - cut_off {
                old(self).count()
            } else {
                8 - cut_off as int
            },
            forall|i: int|
                0 <= i < final(self).count() ==> final(self).contents()[i] == (if i
                    < old(self).count() && !(old(self).contents()[i] & 3 == 0 && i < 8 - cut_off) {
                    old(self).contents()[i]
                } else {
                    spec_sprite_pixel(
                        tile_low,
                        tile_high,
                        (8 - cut_off - 1 - i) as u8,
                        palette,
                        background_priority,
                    )
                }),
            final(self)@ == spec_fifo_push_sprite(
                old(self)@,
                tile_low,
                tile_high,
                cut_off,
                palette,
                background_priority,
            ),
    {
        let ghost o = *self;
        let n: u8 = 8 - cut_off;
        let mut cursor = self.tail;
        let mut x: u8 = n;
        let mut j: u8 = 0;
        while cursor != self.head && x != 0
            invariant
                o.wf(),
                cut_off <= 8,
                n == 8 - cut_off,
                j <= o.count(),
                j <= n,
                x == n - j,
                cursor == (o.tail + j) % 16,
                self.head == o.head,
                self.tail == o.tail,
                self@.queue.len() == 16,
                self.count() == o.count(),
                (j < o.count() && j < n) == (cursor != self.head && x != 0),
                self@ == spec_fifo_merge_upto(
                    o@,
                    tile_low,
                    tile_high,
                    n,
                    palette,
                    background_priority,
                    j as int,
                ),
                forall|i: int|
                    0 <= i < o.count() ==> self.contents()[i] == (if i < j && o.contents()[i] & 3
                        == 0 {
                        spec_sprite_pixel(
                            tile_low,
                            tile_high,
                            (n - 1 - i) as u8,
                            palette,
                            background_priority,
                        )
                    } else {
                        o.contents()[i]
                    }),
            decreases n - j,
        {
            x = x - 1;
            let ghost before = *self;
            let color = self.queue[cursor as usize] & 3;
            if color == 0 {
                let p = ((((tile_high >> x) & 1) << 1) | ((tile_low >> x) & 1))
                    | (if background_priority {
                    8
                } else {
                    0
                }) | (if palette {
                    16
                } else {
                    0
                });
                self.queue[cursor as usize] = p;
                proof {
                    assert(p == spec_sprite_pixel(
                        tile_low,
                        tile_high,
                        x,
                        palette,
                        background_priority,
                    ));
                }
            }
            cursor = (cursor + 1) % 16;
            j = j + 1;
            proof {
                assert(before.contents()[j - 1] == o.contents()[j - 1]);
                assert(color == o.contents()[j - 1] & 3);
                assert(x == n - 1 - (j - 1));
                assert forall|i: int| 0 <= i < o.count() implies self.contents()[i] == (if i < j
                    && o.contents()[i] & 3 == 0 {
                    spec_sprite_pixel(
                        tile_low,
                        tile_high,
                        (n - 1 - i) as u8,
                        palette,
                        background_priority,
                    )
                }else {
                    o.contents()[i]
                }) by {
                    if i != j - 1 {
                        assert((o.tail + i) % 16 != (o.tail + (j - 1)) % 16);
                        assert(self.contents()[i] == before.contents()[i]);
                    } else {
                        assert(self.contents()[i] == self@.queue[(o.tail + i) % 16]);
                    }
                }
            }
        }
        // append what did not overwrite
        proof {
            assert(self.head == (o.tail + self.count()) % 16);
        }
        while x != 0
            invariant
                o.wf(),
                cut_off <= 8,
                n == 8 - cut_off,
                x <= n,
                x != 0 ==> o.count() <= n - x,
                self.tail == o.tail,
                self@.queue.len() == 16,
                self.count() == (if o.count() >= n {
                    o.count()
                } else {
                    (n - x) as int
                }),
                self.head == (o.tail + self.count()) % 16,
                self.count() >= o.count(),
                spec_fifo_append_from(
                    self@,
                    tile_low,
                    tile_high,
                    palette,
                    background_priority,
                    x as int,
                ) == spec_fifo_push_sprite(
                    o@,
                    tile_low,
                    tile_high,
                    cut_off,
                    palette,
                    background_priority,
                ),
                forall|i: int|
                    0 <= i < self.count() ==> self.contents()[i] == (if i < o.count()
                        && !(o.contents()[i] & 3 == 0 && i < n) {
                        o.contents()[i]
                    } else {
                        spec_sprite_pixel(
                            tile_low,
                            tile_high,
                            (n - 1 - i) as u8,
                            palette,
                            background_priority,
                        )
                    }),
            decreases x,
        {
            x = x - 1;
            let p = ((((tile_high >> x) & 1) << 1) | ((tile_low >> x) & 1))
                | (if background_priority {
                8
            } else {
                0
            }) | (if palette {
                16
            } else {
                0
            });
            let ghost before = *self;
            self.queue[self.head as usize] = p;
            self.head = (self.head + 1) % 16;
            proof {
                let k = before.count();
                assert(self.count() == k + 1);
                assert forall|i: int| 0 <= i < self.count() implies self.contents()[i] == (if i
                    < o.count() && !(o.contents()[i] & 3 == 0 && i < n) {
                    o.contents()[i]
                } else {
                    spec_sprite_pixel(
                        tile_low,
                        tile_high,
                        (n - 1 - i) as u8,
                        palette,
                        background_priority,
                    )
                }) by {
                    if i < k {
                        assert((o.tail + i) % 16 != (o.tail + k) % 16);
                        assert(self.contents()[i] == before.contents()[i]);
                    } else {
                        assert(self.contents()[i] == p);
                    }
                }
            }
        }
    }
}

pub const SCREEN_WIDTH: usize = 160;

pub const SCREEN_HEIGHT: usize = 144;

/// The LCD controller.  `state` indexes the per-line macro state machine
/// (0 through 26); `next_clock_count` is the cycle at which that state is
/// revisited.
pub struct Ppu {
    /// 0x8000..0xA000: video RAM.
    pub vram: Vec<u8>,
    /// 0xFE00..0xFEA0: the object attribute table.
    pub oam: Vec<u8>,
    /// 144 lines of 160 pixels, each a shade in 0..4.
    pub screen: Vec<u8>,
    /// The sprites selected for the current line, highest priority last.
    pub sprite_buffer: Vec<Sprite>,
    pub sprite_buffer_len: u8,
    /// The window's internal line counter.
    pub wyc: u8,
    /// 0xFF40: LCD control.
    pub lcdc: u8,
    /// 0xFF41: LCD status; bits 0-1 mirror the mode.
    pub stat: u8,
    /// 0xFF42: background scroll Y.
    pub scy: u8,
    /// 0xFF43: background scroll X.
    pub scx: u8,
    /// 0xFF44: the current line.
    pub ly: u8,
    /// 0xFF45: the line compare register.
    pub lyc: u8,
    /// 0xFF47: background palette.
    pub bgp: u8,
    /// 0xFF48: object palette 0.
    pub obp0: u8,
    /// 0xFF49: object palette 1.
    pub obp1: u8,
    /// 0xFF4A: window Y.
    pub wy: u8,
    /// 0xFF4B: window X (plus seven).
    pub wx: u8,
    /// The macro state the dot machine stands in.
    pub state: u8,
    /// The line value the LY==LYC comparator sees this dot; 0xFF keeps
    /// the comparator silent.
    pub ly_for_compare: u8,
    /// The latched level of the STAT interrupt line, for edge detection.
    pub stat_signal: bool,
    /// The clock cycle at which `state` is next revisited.
    pub next_clock_count: u64,
    /// The clock cycle at which the current scanline started.
    pub line_start_clock_count: u64,
    pub background_fifo: PixelFifo,
    pub sprite_fifo: PixelFifo,
    /// The fetcher's step, 0 through 3.
    pub fetcher_step: u8,
    /// The first background push of a scanline is discarded.
    pub fetcher_skipped_first_push: bool,
    /// Whether the fetcher is serving a sprite.
    pub sprite_fetching: bool,
    /// The fetcher works every other dot.
    pub fetcher_cycle: bool,
    /// The tile column the fetcher stands at.
    pub fetcher_x: u8,
    pub fetch_tile_number: u8,
    pub fetch_tile_data_low: u8,
    pub fetch_tile_data_high: u8,
    /// Latched once WY matches LY somewhere in the frame.
    pub reach_window: bool,
    /// Whether this line has switched to window fetching.
    pub is_in_window: bool,
    /// The output cursor in the current scanline.
    pub curr_x: u8,
    /// Pixels still to discard at the line start (SCX mod 8).
    pub discarting: u8,
}

/// The ghost image of the LCD controller.
pub struct PpuModel {
    pub vram: Seq<u8>,
    pub oam: Seq<u8>,
    pub screen: Seq<u8>,
    pub sprite_buffer: Seq<Sprite>,
    pub sprite_buffer_len: u8,
    pub wyc: u8,
    pub lcdc: u8,
    pub stat: u8,
    pub scy: u8,
    pub scx: u8,
    pub ly: u8,
    pub lyc: u8,
    pub bgp: u8,
    pub obp0: u8,
    pub obp1: u8,
    pub wy: u8,
    pub wx: u8,
    pub state: u8,
    pub ly_for_compare: u8,
    pub stat_signal: bool,
    pub next_clock_count: u64,
    pub line_start_clock_count: u64,
    pub background_fifo: FifoModel,
    pub sprite_fifo: FifoModel,
    pub fetcher_step: u8,
    pub fetcher_skipped_first_push: bool,
    pub sprite_fetching: bool,
    pub fetcher_cycle: bool,
    pub fetcher_x: u8,
    pub fetch_tile_number: u8,
    pub fetch_tile_data_low: u8,
    pub fetch_tile_data_high: u8,
    pub reach_window: bool,
    pub is_in_window: bool,
    pub curr_x: u8,
    pub discarting: u8,
}

impl View for Ppu {
    type V = PpuModel;

    open spec fn view(&self) -> PpuModel {
        PpuModel {
            vram: self.vram@,
            oam: self.oam@,
            screen: self.screen@,
            sprite_buffer: self.sprite_buffer@,
            sprite_buffer_len: self.sprite_buffer_len,
            wyc: self.wyc,
            lcdc: self.lcdc,
            stat: self.stat,
            scy: self.scy,
            scx: self.scx,
            ly: self.ly,
            lyc: self.lyc,
            bgp: self.bgp,
            obp0: self.obp0,
            obp1: self.obp1,
            wy: self.wy,
            wx: self.wx,
            state: self.state,
            ly_for_compare: self.ly_for_compare,
            stat_signal: self.stat_signal,
            next_clock_count: self.next_clock_count,
            line_start_clock_count: self.line_start_clock_count,
            background_fifo: self.background_fifo@,
            sprite_fifo: self.sprite_fifo@,
            fetcher_step: self.fetcher_step,
            fetcher_skipped_first_push: self.fetcher_skipped_first_push,
            sprite_fetching: self.sprite_fetching,
            fetcher_cycle: self.fetcher_cycle,
            fetcher_x: self.fetcher_x,
            fetch_tile_number: self.fetch_tile_number,
            fetch_tile_data_low: self.fetch_tile_data_low,
            fetch_tile_data_high: self.fetch_tile_data_high,
            reach_window: self.reach_window,
            is_in_window: self.is_in_window,
            curr_x: self.curr_x,
            discarting: self.discarting,
        }
    }
}

impl PartialEq for Ppu {
    fn eq(&self, other: &Ppu) -> (r: bool) {
        crate::save_state::bytes_eq(&self.vram, &other.vram) && crate::save_state::bytes_eq(
            &self.oam,
            &other.oam,
        ) && crate::save_state::bytes_eq(&self.screen, &other.screen) && sprites_eq(
            &self.sprite_buffer,
            &other.sprite_buffer,
        ) && self.sprite_buffer_len == other.sprite_buffer_len && self.wyc == other.wyc
            && self.lcdc == other.lcdc && self.stat == other.stat && self.scy == other.scy
            && self.scx == other.scx && self.ly == other.ly && self.lyc == other.lyc && self.bgp
            == other.bgp && self.obp0 == other.obp0 && self.obp1 == other.obp1 && self.wy
            == other.wy && self.wx == other.wx && self.state == other.state && self.ly_for_compare
            == other.ly_for_compare && self.stat_signal == other.stat_signal
            && self.next_clock_count == other.next_clock_count && self.line_start_clock_count
            == other.line_start_clock_count && self.background_fifo == other.background_fifo
            && self.sprite_fifo == other.sprite_fifo && self.fetcher_step == other.fetcher_step
            && self.fetcher_skipped_first_push == other.fetcher_skipped_first_push
            && self.sprite_fetching == other.sprite_fetching && self.fetcher_cycle
            == other.fetcher_cycle && self.fetcher_x == other.fetcher_x && self.fetch_tile_number
            == other.fetch_tile_number && self.fetch_tile_data_low == other.fetch_tile_data_low
            && self.fetch_tile_data_high == other.fetch_tile_data_high && self.reach_window
            == other.reach_window && self.is_in_window == other.is_in_window && self.curr_x
            == other.curr_x && self.discarting == other.discarting
    }
}

impl vstd::std_specs::cmp::PartialEqSpecImpl for Ppu {
    open spec fn obeys_eq_spec() -> bool {
        true
    }

    open spec fn eq_spec(&self, other: &Ppu) -> bool {
        self@ == other@
    }
}

/// Which STAT mode bits each macro state may show.
pub open spec fn spec_mode_ok(state: u8, mode: u8) -> bool {
    if state <= 3 {
        mode == 0
    } else if state == 4 || state == 5 {
        mode == 3
    } else if state == 6 || state == 7 {
        mode == 0 || mode == 1
    } else if state == 8 {
        mode == 0 || mode == 2
    } else if state == 9 {
        mode == 2
    } else if state == 10 || state == 24 || state == 11 {
        mode == 3
    } else if state == 12 || state == 13 || state == 26 || state == 14 {
        mode == 0
    } else if state == 15 || state == 16 || state == 17 {
        mode == 0 || mode == 1
    } else {
        mode == 1
    }
}

/// The line bounds each macro state keeps: visible states stay under 144,
/// and the vertical-blank states never push LY past 153.
pub open spec fn spec_ly_ok(state: u8, ly: u8) -> bool {
    &&& (state == 0 ==> ly == 0)
    &&& ((1 <= state <= 14 || state == 24 || state == 26) ==> ly <= 143)
    &&& (state == 15 ==> ly <= 153)
    &&& ((state == 16 || state == 17 || state == 25) ==> ly <= 152)
    &&& ((18 <= state && state <= 23) ==> ly <= 153)
}

/// What the dot machine needs of its own fields to stand in any
/// reachable state.
pub open spec fn spec_ppu_wf(m: PpuModel) -> bool {
    &&& m.vram.len() == 0x2000
    &&& m.oam.len() == 0xA0
    &&& m.screen.len() == 0x5A00
    &&& m.sprite_buffer.len() == 10
    &&& m.sprite_buffer_len <= 10
    &&& ((m.state == 24 && m.sprite_fetching) ==> m.sprite_buffer_len < 10)
    &&& spec_fifo_wf(m.background_fifo)
    &&& spec_fifo_wf(m.sprite_fifo)
    &&& m.fetcher_step <= 3
    &&& m.state <= 26
    &&& m.curr_x <= 160
    &&& spec_mode_ok(m.state, m.stat & 3)
    &&& spec_ly_ok(m.state, m.ly)
    &&& (((m.state == 15 || m.state == 16 || m.state == 17) && m.stat & 3 == 0) ==> m.ly == 144)
    &&& (m.lcdc & 0x80 == 0 ==> m.state == 0 && m.stat & 3 == 0 && m.ly == 0)
}

impl Ppu {
    pub open spec fn wf(self) -> bool {
        spec_ppu_wf(self@)
    }
}

/// The level of the STAT interrupt line: the OR of the enabled mode
/// sources (vertical blank also raising the OAM source) and of the
/// LY==LYC comparator when it is not silenced.
pub open spec fn spec_stat_line(stat: u8, ly_for_compare: u8, lyc: u8) -> bool {
    ||| (stat & 3 == 0 && stat & 0x08 != 0)
    ||| (stat & 3 == 1 && stat & 0x30 != 0)
    ||| (stat & 3 == 2 && stat & 0x20 != 0)
    ||| (ly_for_compare != 0xFF && ly_for_compare == lyc && stat & 0x40 != 0)
}

/// STAT after the comparator refreshed the coincidence flag (bit 2).
pub open spec fn spec_stat_after(stat: u8, ly_for_compare: u8, lyc: u8) -> u8 {
    if ly_for_compare != 0xFF {
        if ly_for_compare == lyc {
            ((stat & 0xFB) | 4) as u8
        } else {
            (stat & 0xFB) as u8
        }
    } else {
        stat
    }
}

impl Ppu {
    /// Replace the mode bits of STAT.
    fn set_stat_mode(&mut self, mode: u8)
        requires
            mode <= 3,
        ensures
            *final(self) == (Ppu { stat: ((old(self).stat & 0xFC) | mode) as u8, ..*old(self) }),
            final(self).stat & 3 == mode,
    {
        self.stat = (self.stat & 0xFC) | mode;
        proof {
            let s = old(self).stat;
            let m = mode;
            assert(m <= 3 ==> ((s & 0xFC) | m) & 3 == m) by (bit_vector);
        }
    }

    /// Re-evaluate the STAT line and latch its level; a rising edge asks
    /// for a STAT interrupt.  Every mode, LY or LYC change goes through
    /// here so the edge detector sees each intermediate level.
    fn update_stat(&mut self, stat_interrupt: &mut bool)
        ensures
            *final(self) == (Ppu {
                stat: spec_stat_after(old(self).stat, old(self).ly_for_compare, old(self).lyc),
                stat_signal: spec_stat_line(
                    old(self).stat,
                    old(self).ly_for_compare,
                    old(self).lyc,
                ),
                ..*old(self)
            }),
            *final(stat_interrupt) == (*old(stat_interrupt) || (!old(self).stat_signal
                && spec_stat_line(old(self).stat, old(self).ly_for_compare, old(self).lyc))),
            final(self).stat & 3 == old(self).stat & 3,
    {
        proof {
            let s = old(self).stat;
            assert(((s & 0xFB) | 4) & 3 == s & 3 && (s & 0xFB) & 3 == s & 3) by (bit_vector);
        }
        let stat_mode = self.stat & 3;
        let mut stat_line = false;

        if stat_mode == 0 {
            stat_line = self.stat & 0x08 != 0;
        } else if stat_mode == 1 {
            // vertical blank also triggers the OAM STAT source
            stat_line = self.stat & 0x30 != 0;
        } else if stat_mode == 2 {
            stat_line = self.stat & 0x20 != 0;
        }

        if self.ly_for_compare != 0xFF {
            let compare = self.ly_for_compare == self.lyc;
            if compare {
                if self.stat & 0x40 != 0 {
                    stat_line = true;
                }
                self.stat = (self.stat & 0xFB) | 4;
            } else {
                self.stat = self.stat & 0xFB;
            }
        }

        if !self.stat_signal && stat_line {
            *stat_interrupt = true;
        }
        self.stat_signal = stat_line;
        proof {
            let s = old(self).stat;
            assert(s & 3 != 0 && s & 3 != 1 && s & 3 != 2 ==> s & 3 == 3) by (bit_vector);
        }
    }
}

/// The OAM entry at index `i`.
pub open spec fn spec_sprite_at(oam: Seq<u8>, i: int) -> Sprite {
    Sprite { sy: oam[4 * i], sx: oam[4 * i + 1], tile: oam[4 * i + 2], flags: oam[4 * i + 3] }
}

/// Sprites are 16 dots tall when LCDC bit 2 is set, else 8.
pub open spec fn spec_sprite_height(lcdc: u8) -> int {
    if lcdc & 4 != 0 {
        16
    } else {
        8
    }
}

/// A sprite joins the line when its column is on screen and the line
/// crosses its rows.
pub open spec fn spec_sprite_qualifies(s: Sprite, ly: u8, lcdc: u8) -> bool {
    s.sx > 0 && ly + 16 >= s.sy && ly + 16 < s.sy + spec_sprite_height(lcdc)
}

/// The first (at most ten) qualifying sprites among OAM entries
/// 0..`i`, in table order.
pub open spec fn spec_selected(oam: Seq<u8>, ly: u8, lcdc: u8, i: int) -> Seq<Sprite>
    decreases i,
{
    if i <= 0 {
        Seq::empty()
    } else {
        let prev = spec_selected(oam, ly, lcdc, i - 1);
        if prev.len() >= 10 {
            prev
        } else if spec_sprite_qualifies(spec_sprite_at(oam, i - 1), ly, lcdc) {
            prev.push(spec_sprite_at(oam, i - 1))
        } else {
            prev
        }
    }
}

/// Insert `x` before the first entry with a smaller column, after every
/// entry with an equal or larger one: the stable insertion that orders
/// the buffer by descending column.
pub open spec fn spec_sprite_insert(s: Seq<Sprite>, x: Sprite) -> Seq<Sprite>
    decreases s.len(),
{
    if s.len() == 0 {
        seq![x]
    } else if x.sx > s[0].sx {
        seq![x] + s
    } else {
        seq![s[0]] + spec_sprite_insert(s.drop_first(), x)
    }
}

/// Stable insertion sort by descending column.
pub open spec fn spec_sprite_sort(s: Seq<Sprite>) -> Seq<Sprite>
    decreases s.len(),
{
    if s.len() == 0 {
        Seq::empty()
    } else {
        spec_sprite_insert(spec_sprite_sort(s.drop_last()), s.last())
    }
}

/// The sprite buffer a line scan produces: the qualifying sprites in
/// reverse table order, stably sorted by descending column, so that the
/// back of the buffer holds the smallest column and, among equals, the
/// earliest table entry.
#[verifier::opaque]
pub open spec fn spec_scan_buffer(oam: Seq<u8>, ly: u8, lcdc: u8) -> Seq<Sprite> {
    spec_sprite_sort(spec_selected(oam, ly, lcdc, 40).reverse())
}

/// Where `spec_sprite_insert` puts `x`: the first index whose entry has a
/// smaller column.
pub open spec fn spec_insert_pos(s: Seq<Sprite>, x: Sprite) -> int
    decreases s.len(),
{
    if s.len() == 0 {
        0
    } else if x.sx > s[0].sx {
        0
    } else {
        1 + spec_insert_pos(s.drop_first(), x)
    }
}

/// The recursive insertion is insertion at `spec_insert_pos`, which is
/// the first index whose entry has a smaller column.
pub proof fn lemma_sprite_insert_at(s: Seq<Sprite>, x: Sprite)
    ensures
        0 <= spec_insert_pos(s, x) <= s.len(),
        spec_sprite_insert(s, x) == s.insert(spec_insert_pos(s, x), x),
        forall|i: int| 0 <= i < spec_insert_pos(s, x) ==> !(x.sx > s[i].sx),
        spec_insert_pos(s, x) < s.len() ==> x.sx > s[spec_insert_pos(s, x)].sx,
    decreases s.len(),
{
    if s.len() == 0 {
        assert(spec_sprite_insert(s, x) =~= s.insert(0, x));
    } else if x.sx > s[0].sx {
        assert(spec_sprite_insert(s, x) =~= s.insert(0, x));
    } else {
        let rest = s.drop_first();
        lemma_sprite_insert_at(rest, x);
        let p = spec_insert_pos(rest, x);
        assert(spec_sprite_insert(s, x) =~= s.insert(1 + p, x));
        assert forall|i: int| 0 <= i < 1 + p implies !(x.sx > s[i].sx) by {
            if i > 0 {
                assert(s[i] == rest[i - 1]);
            }
        }
    }
}

impl Ppu {
    /// Scan the object attribute table for the current line: collect the
    /// first ten qualifying sprites in table order, then order the buffer
    /// by descending column so that its back holds the next sprite to
    /// fetch (the smallest column; among equals, the earliest entry).
    pub fn search_objects(&mut self)
        requires
            old(self).wf(),
            old(self).state != 24,
        ensures
            final(self).wf(),
            *final(self) == (Ppu {
                sprite_buffer: final(self).sprite_buffer,
                sprite_buffer_len: final(self).sprite_buffer_len,
                ..*old(self)
            }),
            final(self).sprite_buffer_len as int == spec_scan_buffer(
                old(self)@.oam,
                old(self).ly,
                old(self).lcdc,
            ).len(),
            final(self)@.sprite_buffer.subrange(0, final(self).sprite_buffer_len as int)
                == spec_scan_buffer(old(self)@.oam, old(self).ly, old(self).lcdc),
            forall|i: int|
                final(self).sprite_buffer_len <= i < 10 ==> final(self)@.sprite_buffer[i] == old(
                    self,
                )@.sprite_buffer[i],
    {
        let ghost oam0 = self.oam@;
        let ghost ly0 = self.ly;
        let ghost lcdc0 = self.lcdc;

        let sprite_height: u16 = if self.lcdc & 4 != 0 {
            16
        } else {
            8
        };

        let mut sel: Vec<Sprite> = Vec::new();
        let mut i: usize = 0;
        while i < 40
            invariant
                i <= 40,
                self == old(self),
                self.wf(),
                sprite_height == spec_sprite_height(lcdc0),
                oam0 == self.oam@,
                ly0 == self.ly,
                lcdc0 == self.lcdc,
                sel@ == spec_selected(oam0, ly0, lcdc0, i as int),
                sel.len() <= 10,
            decreases 40 - i,
        {
            if sel.len() < 10 {
                let sy = self.oam[4 * i];
                let sx = self.oam[4 * i + 1];
                let tile = self.oam[4 * i + 2];
                let flags = self.oam[4 * i + 3];
                if sx > 0 && self.ly as u16 + 16 >= sy as u16 && (self.ly as u16) + 16 < sy as u16
                    + sprite_height {
                    sel.push(Sprite { sx, sy, tile, flags });
                }
            }
            i += 1;
        }

        // reverse the table order
        let mut rev: Vec<Sprite> = Vec::new();
        let mut k: usize = sel.len();
        while k > 0
            invariant
                k <= sel.len() <= 10,
                rev.len() == sel.len() - k,
                forall|j: int| 0 <= j < rev.len() ==> rev@[j] == sel@[sel.len() - 1 - j],
            decreases k,
        {
            k -= 1;
            rev.push(sel[k]);
        }
        proof {
            assert(rev@ =~= sel@.reverse());
        }

        // stable insertion sort by descending column
        let mut sorted: Vec<Sprite> = Vec::new();
        let mut m: usize = 0;
        while m < rev.len()
            invariant
                m <= rev.len() <= 10,
                sorted.len() == m,
                sorted@ == spec_sprite_sort(rev@.subrange(0, m as int)),
            decreases rev.len() - m,
        {
            let x = rev[m];
            let mut p: usize = 0;
            while p < sorted.len() && !(x.sx > sorted[p].sx)
                invariant
                    p <= sorted.len(),
                    forall|q: int| 0 <= q < p ==> !(x.sx > sorted@[q].sx),
                decreases sorted.len() - p,
            {
                p += 1;
            }
            let ghost s0 = sorted@;
            sorted.insert(p, x);
            proof {
                lemma_sprite_insert_at(s0, x);
                let sp = spec_insert_pos(s0, x);
                if sp < p {
                    assert(!(x.sx > s0[sp].sx));
                    assert(false);
                }
                if p < sp {
                    assert(!(x.sx > s0[p as int].sx));
                    assert(false);
                }
                assert(rev@.subrange(0, m + 1).drop_last() =~= rev@.subrange(0, m as int));
                assert(rev@.subrange(0, m + 1).last() == x);
                assert(sorted@ == spec_sprite_sort(rev@.subrange(0, m + 1)));
            }
            m += 1;
        }
        proof {
            reveal(spec_scan_buffer);
            assert(rev@.subrange(0, rev@.len() as int) =~= rev@);
            assert(sorted@ == spec_scan_buffer(oam0, ly0, lcdc0));
        }

        // move the result into the line buffer
        self.sprite_buffer_len = sorted.len() as u8;
        let mut q: usize = 0;
        while q < sorted.len()
            invariant
                q <= sorted.len() <= 10,
                self.sprite_buffer@.len() == 10,
                forall|j: int| 0 <= j < q ==> self.sprite_buffer@[j] == sorted@[j],
                forall|j: int|
                    q <= j < 10 ==> self.sprite_buffer@[j] == old(self).sprite_buffer@[j],
                *self == (Ppu {
                    sprite_buffer: self.sprite_buffer,
                    sprite_buffer_len: self.sprite_buffer_len,
                    ..*old(self)
                }),
                self.sprite_buffer_len == sorted.len() as u8,
            decreases sorted.len() - q,
        {
            self.sprite_buffer[q] = sorted[q];
            q += 1;
        }
        proof {
            assert(self.sprite_buffer@.subrange(0, self.sprite_buffer_len as int) =~= sorted@);
        }
    }
}

/// A bitwise AND never exceeds its mask.
proof fn lemma_u8_and_le(x: u8, m: u8)
    by (bit_vector)
    ensures
        x & m <= m,
{
}

/// A bitwise AND never exceeds its mask.
proof fn lemma_u16_and_le(x: u16, m: u16)
    by (bit_vector)
    ensures
        x & m <= m,
{
}

/// `b`, most significant bit first.
pub open spec fn spec_rev_bits(b: u8) -> u8 {
    (((b & 0x01) << 7) | ((b & 0x02) << 5) | ((b & 0x04) << 3) | ((b & 0x08) << 1) | ((b & 0x10)
        >> 1) | ((b & 0x20) >> 3) | ((b & 0x40) >> 5) | ((b & 0x80) >> 7)) as u8
}

/// `b`, most significant bit first.
fn reverse_bits_u8(b: u8) -> (r: u8)
    ensures
        r == spec_rev_bits(b),
{
    ((b & 0x01) << 7) | ((b & 0x02) << 5) | ((b & 0x04) << 3) | ((b & 0x08) << 1) | ((b & 0x10)
        >> 1) | ((b & 0x20) >> 3) | ((b & 0x40) >> 5) | ((b & 0x80) >> 7)
}

/// The dot's opening: a waiting sprite whose column is reached hijacks
/// the fetcher, and the fetcher's half-dot divider flips.
#[verifier::opaque]
pub open spec fn spec_dot_fetch_start(m: PpuModel) -> PpuModel {
    let m1 = if m.discarting == 0 && !m.sprite_fetching && m.sprite_buffer_len != 0 && m.lcdc & 2
        != 0 && m.sprite_buffer[m.sprite_buffer_len - 1].sx <= m.curr_x + 8 {
        PpuModel {
            sprite_fetching: true,
            sprite_buffer_len: (m.sprite_buffer_len - 1) as u8,
            fetcher_step: 0,
            fetcher_cycle: false,
            ..m
        }
    } else {
        m
    };
    PpuModel { fetcher_cycle: !m1.fetcher_cycle, ..m1 }
}

/// The fetcher's half-dot, after the divider flipped: on its working
/// half, one step of the sprite fetch or of the background/window fetch.
#[verifier::opaque]
pub open spec fn spec_dot_fetcher(m: PpuModel, ly: u8) -> PpuModel {
    if !m.fetcher_cycle {
        m
    } else if m.sprite_fetching {
        let sprite = m.sprite_buffer[m.sprite_buffer_len as int];
        let tall = m.lcdc & 4;
        let flip_y = sprite.flags & 0x40;
        let flip_x = sprite.flags & 0x20 != 0;
        let height: int = if tall != 0 {
            16
        } else {
            8
        };
        let py0 = ((ly + 16 + 256) - sprite.sy) % 256 % height;
        let py: int = if flip_y != 0 {
            height - 1 - py0
        } else {
            py0
        };
        let addr = m.fetch_tile_number * 0x10 + (py % 8) * 2;
        if m.fetcher_step == 0 {
            PpuModel {
                fetch_tile_number: if tall != 0 {
                    ((sprite.tile & 0xFE) + py / 8) as u8
                } else {
                    sprite.tile
                },
                fetcher_step: 1,
                ..m
            }
        } else if m.fetcher_step == 1 {
            PpuModel { fetch_tile_data_low: m.vram[addr], fetcher_step: 2, ..m }
        } else if m.fetcher_step == 2 {
            PpuModel { fetch_tile_data_high: m.vram[addr + 1], fetcher_step: 3, ..m }
        } else {
            let tile_low = if flip_x {
                spec_rev_bits(m.fetch_tile_data_low)
            } else {
                m.fetch_tile_data_low
            };
            let tile_high = if flip_x {
                spec_rev_bits(m.fetch_tile_data_high)
            } else {
                m.fetch_tile_data_high
            };
            let cut_off: u8 = if sprite.sx < 8 {
                (8 - sprite.sx) as u8
            } else {
                0
            };
            PpuModel {
                sprite_fifo: spec_fifo_push_sprite(
                    m.sprite_fifo,
                    tile_low,
                    tile_high,
                    cut_off,
                    sprite.flags & 0x10 != 0,
                    sprite.flags & 0x80 != 0,
                ),
                fetcher_step: 0,
                sprite_fetching: false,
                ..m
            }
        }
    } else {
        if m.fetcher_step == 0 {
            let tile_map: u16 = if !m.is_in_window {
                if m.lcdc & 0x08 != 0 {
                    0x9C00
                } else {
                    0x9800
                }
            } else {
                if m.lcdc & 0x40 != 0 {
                    0x9C00
                } else {
                    0x9800
                }
            };
            let tx: u16 = if m.is_in_window {
                m.fetcher_x as u16
            } else {
                ((m.fetcher_x as u16 + (m.scx / 8) as u16) as u16) & 0x1F
            };
            let yy: u16 = ((ly as u16 + m.scy as u16) as u16) & 0xFF;
            let ty: u16 = if m.is_in_window {
                (m.wyc / 8) as u16
            } else {
                (yy / 8) as u16
            };
            let offset: u16 = ((32 * ty + tx) as u16) & 0x03FF;
            PpuModel {
                fetch_tile_number: m.vram[tile_map + offset - 0x8000],
                fetcher_step: 1,
                ..m
            }
        } else if m.fetcher_step == 1 || m.fetcher_step == 2 {
            let tile0 = m.fetch_tile_number as u16;
            let tile: u16 = if m.lcdc & 0x10 == 0 {
                if tile0 + 0x100 >= 0x180 {
                    tile0
                } else {
                    (tile0 + 0x100) as u16
                }
            } else {
                tile0
            };
            let offset: int = if m.is_in_window {
                2 * (m.wyc as int % 8)
            } else {
                2 * ((((ly as u16 + m.scy as u16) as u16) & 0xFF) % 8)
            };
            let addr = tile * 0x10 + offset;
            if m.fetcher_step == 1 {
                PpuModel { fetch_tile_data_low: m.vram[addr], fetcher_step: 2, ..m }
            } else {
                if !m.fetcher_skipped_first_push {
                    PpuModel {
                        fetch_tile_data_high: m.vram[addr + 1],
                        fetcher_skipped_first_push: true,
                        fetcher_step: 0,
                        ..m
                    }
                } else {
                    PpuModel { fetch_tile_data_high: m.vram[addr + 1], fetcher_step: 3, ..m }
                }
            }
        } else {
            if spec_fifo_count(m.background_fifo) == 0 {
                PpuModel {
                    background_fifo: spec_fifo_push_bg(
                        m.background_fifo,
                        m.fetch_tile_data_low,
                        m.fetch_tile_data_high,
                    ),
                    fetcher_x: if m.fetcher_x == 255 {
                        0
                    } else {
                        (m.fetcher_x + 1) as u8
                    },
                    fetcher_step: 0,
                    ..m
                }
            } else {
                m
            }
        }
    }
}

/// The dot's output half: the window may take over the pipeline, then
/// one queued pixel is discarded or mixed and emitted under the cursor.
#[verifier::opaque]
pub open spec fn spec_dot_output(m: PpuModel, ly: u8) -> PpuModel {
    if m.sprite_fetching {
        m
    } else {
        let wx_start: u8 = if m.wx >= 7 {
            (m.wx - 7) as u8
        } else {
            0
        };
        let mw = if !m.is_in_window && m.lcdc & 0x20 != 0 && m.reach_window && m.curr_x
            >= wx_start {
            PpuModel {
                is_in_window: true,
                fetcher_step: 0,
                discarting: 0,
                fetcher_x: 0,
                background_fifo: FifoModel { head: 0, tail: 0, ..m.background_fifo },
                ..m
            }
        } else {
            m
        };
        if mw.curr_x < 160 && spec_fifo_count(mw.background_fifo) > 0 {
            let pixel = mw.background_fifo.queue[mw.background_fifo.tail as int];
            let m2 = PpuModel { background_fifo: spec_fifo_pop(mw.background_fifo), ..mw };
            if m2.discarting > 0 {
                PpuModel { discarting: (m2.discarting - 1) as u8, ..m2 }
            } else {
                let sp = if spec_fifo_count(m2.sprite_fifo) > 0 {
                    Some(m2.sprite_fifo.queue[m2.sprite_fifo.tail as int])
                } else {
                    None::<u8>
                };
                let m3 = PpuModel { sprite_fifo: spec_fifo_pop(m2.sprite_fifo), ..m2 };
                PpuModel {
                    screen: m3.screen.update(
                        ly * 160 + m3.curr_x,
                        spec_dot_shade(pixel, sp, m3.lcdc, m3.bgp, m3.obp0, m3.obp1),
                    ),
                    curr_x: (m3.curr_x + 1) as u8,
                    ..m3
                }
            }
        } else {
            mw
        }
    }
}

/// One whole dot of mode 3.
#[verifier::opaque]
pub open spec fn spec_lcd_dot(m: PpuModel, ly: u8) -> PpuModel {
    spec_dot_output(spec_dot_fetcher(spec_dot_fetch_start(m), ly), ly)
}

/// The shade one emitted dot takes, per the pixel-mix rule: the
/// background pixel (forced to color 0 with the background disabled)
/// through BGP, overridden by an opaque sprite pixel through its object
/// palette unless the sprite defers to a lit background.
pub open spec fn spec_dot_shade(bg: u8, sp: Option<u8>, lcdc: u8, bgp: u8, obp0: u8, obp1: u8) -> u8 {
    let bcolor = if lcdc & 1 != 0 {
        (bg & 3) as u8
    } else {
        0u8
    };
    let base = ((bgp >> (bcolor * 2)) & 3) as u8;
    match sp {
        Some(s) => {
            let scolor = (s & 3) as u8;
            if scolor == 0 || ((s >> 3) & 1 != 0 && bcolor != 0) {
                base
            } else {
                let pal = if (s >> 4) & 1 != 0 {
                    obp1
                } else {
                    obp0
                };
                ((pal >> (scolor * 2)) & 3) as u8
            }
        },
        None => base,
    }
}

/// Whether the pixel pipeline would switch this line to window fetching:
/// the window is enabled, WY has matched LY this frame, and the output
/// cursor has reached the window's column (`WX - 7`, clamped at zero, so
/// a WX of 0 begins at the very first pixel).
pub open spec fn spec_window_trigger(ppu: Ppu) -> bool {
    &&& !ppu.is_in_window
    &&& ppu.lcdc & 0x20 != 0
    &&& ppu.reach_window
    &&& ppu.curr_x >= (if ppu.wx >= 7 {
        (ppu.wx - 7) as u8
    } else {
        0
    })
}

/// Whether the pipeline would begin a sprite fetch this dot: nothing
/// being discarded, a sprite waiting at the back of the buffer whose
/// column has been reached, and objects enabled.
pub open spec fn spec_sprite_fetch_begins(ppu: Ppu) -> bool {
    &&& ppu.discarting == 0
    &&& !ppu.sprite_fetching
    &&& ppu.sprite_buffer_len != 0
    &&& ppu.lcdc & 2 != 0
    &&& ppu@.sprite_buffer[ppu.sprite_buffer_len - 1].sx <= ppu.curr_x + 8
}

/// Advance the pixel pipeline by one dot of mode 3: possibly begin a
/// sprite fetch, run the fetcher's half-dot, and emit at most one pixel.
#[verifier::rlimit(100)]
/// The dot's opening half: a sprite waiting at the reached column
/// hijacks the fetcher, and the half-dot divider flips.
fn lcd_dot_start(ppu: &mut Ppu)
    requires
        old(ppu).wf(),
        old(ppu).state == 24,
    ensures
        final(ppu).wf(),
        final(ppu)@ == spec_dot_fetch_start(old(ppu)@),
        *final(ppu) == (Ppu {
            screen: final(ppu).screen,
            sprite_buffer_len: final(ppu).sprite_buffer_len,
            background_fifo: final(ppu).background_fifo,
            sprite_fifo: final(ppu).sprite_fifo,
            fetcher_step: final(ppu).fetcher_step,
            fetcher_skipped_first_push: final(ppu).fetcher_skipped_first_push,
            sprite_fetching: final(ppu).sprite_fetching,
            fetcher_cycle: final(ppu).fetcher_cycle,
            fetcher_x: final(ppu).fetcher_x,
            fetch_tile_number: final(ppu).fetch_tile_number,
            fetch_tile_data_low: final(ppu).fetch_tile_data_low,
            fetch_tile_data_high: final(ppu).fetch_tile_data_high,
            is_in_window: final(ppu).is_in_window,
            curr_x: final(ppu).curr_x,
            discarting: final(ppu).discarting,
            ..*old(ppu)
        }),
        final(ppu)@.screen == old(ppu)@.screen,
        final(ppu).curr_x == old(ppu).curr_x,
        final(ppu).is_in_window == old(ppu).is_in_window,
        final(ppu).sprite_buffer_len <= old(ppu).sprite_buffer_len,
{
    let is_in_window = ppu.is_in_window;
    let sprite_enable = ppu.lcdc & 2 != 0;
    if ppu.discarting == 0 && !ppu.sprite_fetching && ppu.sprite_buffer_len != 0 && sprite_enable {
        let sprite = ppu.sprite_buffer[ppu.sprite_buffer_len as usize - 1];
        if sprite.sx as u16 <= ppu.curr_x as u16 + 8 {
            ppu.sprite_fetching = true;
            ppu.sprite_buffer_len = ppu.sprite_buffer_len - 1;
            ppu.fetcher_step = 0;
            ppu.fetcher_cycle = false;
        }
    }
    ppu.fetcher_cycle = !ppu.fetcher_cycle;
    proof {
        reveal(spec_dot_fetch_start);
        assert(ppu@ == spec_dot_fetch_start(old(ppu)@));
    }
}

/// The fetcher's half-dot: one step of the sprite or background fetch,
/// on the working half of the divider.
#[verifier::rlimit(100)]
fn lcd_dot_fetch(ppu: &mut Ppu, ly: u8)
    requires
        old(ppu).wf(),
        old(ppu).state == 24,
    ensures
        final(ppu).wf(),
        final(ppu)@ == spec_dot_fetcher(old(ppu)@, ly),
        *final(ppu) == (Ppu {
            screen: final(ppu).screen,
            sprite_buffer_len: final(ppu).sprite_buffer_len,
            background_fifo: final(ppu).background_fifo,
            sprite_fifo: final(ppu).sprite_fifo,
            fetcher_step: final(ppu).fetcher_step,
            fetcher_skipped_first_push: final(ppu).fetcher_skipped_first_push,
            sprite_fetching: final(ppu).sprite_fetching,
            fetcher_cycle: final(ppu).fetcher_cycle,
            fetcher_x: final(ppu).fetcher_x,
            fetch_tile_number: final(ppu).fetch_tile_number,
            fetch_tile_data_low: final(ppu).fetch_tile_data_low,
            fetch_tile_data_high: final(ppu).fetch_tile_data_high,
            is_in_window: final(ppu).is_in_window,
            curr_x: final(ppu).curr_x,
            discarting: final(ppu).discarting,
            ..*old(ppu)
        }),
        final(ppu)@.screen == old(ppu)@.screen,
        final(ppu).curr_x == old(ppu).curr_x,
        final(ppu).is_in_window == old(ppu).is_in_window,
        final(ppu).sprite_buffer_len == old(ppu).sprite_buffer_len,
{
    let is_in_window = ppu.is_in_window;

    // the fetcher works every other dot
    if ppu.fetcher_cycle {
        if ppu.sprite_fetching {
            let sprite = ppu.sprite_buffer[ppu.sprite_buffer_len as usize];
            let tall = ppu.lcdc & 4;
            let flip_y = sprite.flags & 0x40;
            let flip_x = sprite.flags & 0x20 != 0;
            let height: u16 = if tall != 0 {
                16
            } else {
                8
            };
            // the sprite row this line crosses (wrapped, then folded into
            // the sprite, as a scan that selected it guarantees anyway)
            let py0: u16 = ((ly as u16 + 16 + 256) - sprite.sy as u16) % 256 % height;
            let py: u16 = if flip_y != 0 {
                height - 1 - py0
            } else {
                py0
            };

            // for steps 1 and 2
            let tile = ppu.fetch_tile_number as u16;
            let address = tile * 0x10;
            let offset = (py % 8) * 2;
            let fetch_tile_address = (address + offset) as usize;

            if ppu.fetcher_step == 0 {
                let tile = if tall != 0 {
                    // a sprite of two stacked tiles
                    proof {
                        lemma_u8_and_le(sprite.tile, 0xFE);
                    }
                    (sprite.tile & 0xFE) + (py / 8) as u8
                } else {
                    sprite.tile
                };
                ppu.fetch_tile_number = tile;
                ppu.fetcher_step = 1;
                proof {
                    reveal(spec_dot_fetcher);
                    assert(ppu@ == spec_dot_fetcher(old(ppu)@, ly));
                }
            } else if ppu.fetcher_step == 1 {
                ppu.fetch_tile_data_low = ppu.vram[fetch_tile_address];
                ppu.fetcher_step = 2;
                proof {
                    reveal(spec_dot_fetcher);
                    assert(ppu@ == spec_dot_fetcher(old(ppu)@, ly));
                }
            } else if ppu.fetcher_step == 2 {
                ppu.fetch_tile_data_high = ppu.vram[fetch_tile_address + 1];
                ppu.fetcher_step = 3;
                proof {
                    reveal(spec_dot_fetcher);
                    assert(ppu@ == spec_dot_fetcher(old(ppu)@, ly));
                }
            } else {
                let tile_low = if flip_x {
                    reverse_bits_u8(ppu.fetch_tile_data_low)
                } else {
                    ppu.fetch_tile_data_low
                };
                let tile_high = if flip_x {
                    reverse_bits_u8(ppu.fetch_tile_data_high)
                } else {
                    ppu.fetch_tile_data_high
                };
                let cut_off = if sprite.sx < 8 {
                    8 - sprite.sx
                } else {
                    0
                };
                ppu.sprite_fifo.push_sprite(
                    tile_low,
                    tile_high,
                    cut_off,
                    sprite.flags & 0x10 != 0,
                    sprite.flags & 0x80 != 0,
                );
                ppu.fetcher_step = 0;
                ppu.sprite_fetching = false;
                proof {
                    reveal(spec_dot_fetcher);
                    assert(ppu@ == spec_dot_fetcher(old(ppu)@, ly));
                }
            }
        } else {
            if ppu.fetcher_step == 0 {
                let tile_map: u16 = if !is_in_window {
                    if ppu.lcdc & 0x08 != 0 {
                        0x9C00
                    } else {
                        0x9800
                    }
                } else {
                    if ppu.lcdc & 0x40 != 0 {
                        0x9C00
                    } else {
                        0x9800
                    }
                };
                let tx: u16 = if is_in_window {
                    ppu.fetcher_x as u16
                } else {
                    let txs: u16 = ppu.fetcher_x as u16 + (ppu.scx / 8) as u16;
                    proof {
                        lemma_u16_and_le(txs, 0x1F);
                    }
                    txs & 0x1F
                };
                let ysum: u16 = ly as u16 + ppu.scy as u16;
                proof {
                    lemma_u16_and_le(ysum, 0xFF);
                }
                let yy: u16 = ysum & 0xFF;
                let ty: u16 = if is_in_window {
                    (ppu.wyc / 8) as u16
                } else {
                    yy / 8
                };
                let wide: u16 = 32 * ty + tx;
                proof {
                    lemma_u16_and_le(wide, 0x03FF);
                }
                let offset = wide & 0x03FF;
                ppu.fetch_tile_number = ppu.vram[(tile_map + offset) as usize - 0x8000];
                ppu.fetcher_step = 1;
                proof {
                    reveal(spec_dot_fetcher);
                    assert(ppu@ == spec_dot_fetcher(old(ppu)@, ly));
                }
            } else if ppu.fetcher_step == 1 || ppu.fetcher_step == 2 {
                let mut tile = ppu.fetch_tile_number as u16;
                if ppu.lcdc & 0x10 == 0 {
                    tile += 0x100;
                    if tile >= 0x180 {
                        tile -= 0x100;
                    }
                }
                let address = tile * 0x10;
                let offset: u16 = if is_in_window {
                    2 * (ppu.wyc as u16 % 8)
                } else {
                    2 * (((ly as u16 + ppu.scy as u16) & 0xFF) % 8)
                };
                let fetch_tile_address = (address + offset) as usize;
                if ppu.fetcher_step == 1 {
                    ppu.fetch_tile_data_low = ppu.vram[fetch_tile_address];
                    ppu.fetcher_step = 2;
                    proof {
                        reveal(spec_dot_fetcher);
                        assert(ppu@ == spec_dot_fetcher(old(ppu)@, ly));
                    }
                } else {
                    ppu.fetch_tile_data_high = ppu.vram[fetch_tile_address + 1];
                    if !ppu.fetcher_skipped_first_push {
                        // the first complete fetch of a scanline is dropped
                        ppu.fetcher_skipped_first_push = true;
                        ppu.fetcher_step = 0;
                    } else {
                        ppu.fetcher_step = 3;
                    }
                    proof {
                        reveal(spec_dot_fetcher);
                        assert(ppu@ == spec_dot_fetcher(old(ppu)@, ly));
                    }
                }
            } else {
                // push, but only into an empty background FIFO
                if ppu.background_fifo.is_empty() {
                    let low = ppu.fetch_tile_data_low;
                    let high = ppu.fetch_tile_data_high;
                    ppu.background_fifo.push_background(low, high);
                    ppu.fetcher_x = if ppu.fetcher_x == 255 {
                        0
                    } else {
                        ppu.fetcher_x + 1
                    };
                    ppu.fetcher_step = 0;
                    proof {
                        reveal(spec_dot_fetcher);
                        assert(ppu@ == spec_dot_fetcher(old(ppu)@, ly));
                    }
                }
            }
        }
    }

    proof {
        reveal(spec_dot_fetcher);
        assert(ppu@ == spec_dot_fetcher(old(ppu)@, ly));
    }
}

/// The dot's output half: the window may take the pipeline over, then
/// one queued pixel is discarded or mixed and emitted.
#[verifier::rlimit(100)]
fn lcd_dot_emit(ppu: &mut Ppu, ly: u8)
    requires
        old(ppu).wf(),
        old(ppu).state == 24,
        ly == old(ppu).ly,
    ensures
        final(ppu).wf(),
        final(ppu)@ == spec_dot_output(old(ppu)@, ly),
        *final(ppu) == (Ppu {
            screen: final(ppu).screen,
            sprite_buffer_len: final(ppu).sprite_buffer_len,
            background_fifo: final(ppu).background_fifo,
            sprite_fifo: final(ppu).sprite_fifo,
            fetcher_step: final(ppu).fetcher_step,
            fetcher_skipped_first_push: final(ppu).fetcher_skipped_first_push,
            sprite_fetching: final(ppu).sprite_fetching,
            fetcher_cycle: final(ppu).fetcher_cycle,
            fetcher_x: final(ppu).fetcher_x,
            fetch_tile_number: final(ppu).fetch_tile_number,
            fetch_tile_data_low: final(ppu).fetch_tile_data_low,
            fetch_tile_data_high: final(ppu).fetch_tile_data_high,
            is_in_window: final(ppu).is_in_window,
            curr_x: final(ppu).curr_x,
            discarting: final(ppu).discarting,
            ..*old(ppu)
        }),
        final(ppu)@.screen.len() == 0x5A00,
        old(ppu).curr_x <= final(ppu).curr_x <= old(ppu).curr_x + 1,
        forall|i: int|
            0 <= i < 0x5A00 && final(ppu)@.screen[i] != old(ppu)@.screen[i]
                ==> i == ly * 160 + old(ppu).curr_x && final(ppu)@.screen[i] < 4,
        old(ppu).is_in_window ==> final(ppu).is_in_window,
        final(ppu).sprite_buffer_len == old(ppu).sprite_buffer_len,
{

    if !ppu.sprite_fetching {
        let window_enabled = ppu.lcdc & 0x20 != 0;
        let wx_start = if ppu.wx >= 7 {
            ppu.wx - 7
        } else {
            0
        };
        if !ppu.is_in_window && window_enabled && ppu.reach_window && ppu.curr_x >= wx_start {
            ppu.is_in_window = true;
            ppu.fetcher_step = 0;
            ppu.discarting = 0;
            ppu.fetcher_x = 0;
            ppu.background_fifo.clear();
        }

        if ppu.curr_x < 160 {
            let popped = ppu.background_fifo.pop_front();
            if let Some(pixel) = popped {
                if ppu.discarting > 0 {
                    // discard a pixel: how the background scrolls by
                    // less than a tile
                    ppu.discarting = ppu.discarting - 1;
                    proof {
                        reveal(spec_dot_output);
                        assert(ppu@ == spec_dot_output(old(ppu)@, ly));
                    }
                } else {
                    let i = (ly as usize) * 160 + ppu.curr_x as usize;
                    let background_enable = ppu.lcdc & 1 != 0;
                    let bcolor = if background_enable {
                        pixel & 3
                    } else {
                        0
                    };

                    // the background color, palette applied
                    proof {
                        lemma_u8_and_le(pixel, 3);
                    }
                    let palette = ppu.bgp;
                    let shifted = palette >> (bcolor * 2);
                    proof {
                        lemma_u8_and_le(shifted, 3);
                    }
                    let mut color = shifted & 3;

                    let sprite_pixel = ppu.sprite_fifo.pop_front();
                    if let Some(sprite_pixel) = sprite_pixel {
                        let scolor = sprite_pixel & 3;
                        let background_priority = (sprite_pixel >> 3) & 1 != 0;
                        if scolor == 0 || (background_priority && bcolor != 0) {
                            // keep the background color
                        } else {
                            let sp = (sprite_pixel >> 4) & 1;
                            let palette = if sp != 0 {
                                ppu.obp1
                            } else {
                                ppu.obp0
                            };
                            proof {
                                lemma_u8_and_le(sprite_pixel, 3);
                            }
                            let sshifted = palette >> (scolor * 2);
                            proof {
                                lemma_u8_and_le(sshifted, 3);
                            }
                            color = sshifted & 3;
                        }
                    }
                    ppu.screen[i] = color;
                    ppu.curr_x = ppu.curr_x + 1;
                    proof {
                        reveal(spec_dot_output);
                        assert(ppu@ == spec_dot_output(old(ppu)@, ly));
                    }
                }
            }
        }
    }
    proof {
        reveal(spec_dot_output);
        assert(ppu@ == spec_dot_output(old(ppu)@, ly));
    }
}

pub fn tick_lcd_fifo(ppu: &mut Ppu, ly: u8)
    requires
        old(ppu).wf(),
        old(ppu).state == 24,
        ly == old(ppu).ly,
    ensures
        final(ppu).wf(),
        final(ppu).state == 24,
        // everything outside the pipeline's own registers stands still
        *final(ppu) == (Ppu {
            screen: final(ppu).screen,
            sprite_buffer_len: final(ppu).sprite_buffer_len,
            background_fifo: final(ppu).background_fifo,
            sprite_fifo: final(ppu).sprite_fifo,
            fetcher_step: final(ppu).fetcher_step,
            fetcher_skipped_first_push: final(ppu).fetcher_skipped_first_push,
            sprite_fetching: final(ppu).sprite_fetching,
            fetcher_cycle: final(ppu).fetcher_cycle,
            fetcher_x: final(ppu).fetcher_x,
            fetch_tile_number: final(ppu).fetch_tile_number,
            fetch_tile_data_low: final(ppu).fetch_tile_data_low,
            fetch_tile_data_high: final(ppu).fetch_tile_data_high,
            is_in_window: final(ppu).is_in_window,
            curr_x: final(ppu).curr_x,
            discarting: final(ppu).discarting,
            ..*old(ppu)
        }),
        final(ppu)@.screen.len() == 0x5A00,
        // the cursor moves at most one pixel, and only the pixel under it
        // can change, to a shade
        old(ppu).curr_x <= final(ppu).curr_x <= old(ppu).curr_x + 1,
        forall|i: int|
            0 <= i < 0x5A00 && final(ppu)@.screen[i] != old(ppu)@.screen[i] ==> i == ly * 160 + old(
                ppu,
            ).curr_x && final(ppu)@.screen[i] < 4,
        // a line that has entered the window stays in it
        old(ppu).is_in_window ==> final(ppu).is_in_window,
        final(ppu).sprite_buffer_len <= old(ppu).sprite_buffer_len,
        // the whole dot, as a function of the model
        final(ppu)@ == spec_lcd_dot(old(ppu)@, ly),
{
    lcd_dot_start(ppu);
    lcd_dot_fetch(ppu, ly);
    lcd_dot_emit(ppu, ly);
    proof {
        reveal(spec_lcd_dot);
    }
}

impl Ppu {
    /// Append the serialisation of the LCD controller.
    #[verifier::loop_isolation(false)]
    #[verifier::rlimit(100)]
    pub fn save_state(&self, data: &mut Vec<u8>)
        requires
            self.wf(),
        ensures
            final(data)@ == old(data)@ + spec_ppu_bytes(self@),
    {
        let ghost h0 = old(data)@;
        save_bytes(data, &self.vram);
        save_bytes(data, &self.oam);
        save_bytes(data, &self.screen);
        let ghost p1 = self@.vram + self@.oam + self@.screen;
        proof {
            assert(data@ =~= h0 + p1);
        }
        let ghost base = data@;
        let mut i: usize = 0;
        while i < 10
            invariant
                i <= 10,
                self.sprite_buffer@.len() == 10,
                data@ == base + Seq::new((4 * i) as nat, |j: int| spec_sprite_byte(self.sprite_buffer@, j)),
            decreases 10 - i,
        {
            let s = self.sprite_buffer[i];
            save_u8(data, s.sx);
            save_u8(data, s.sy);
            save_u8(data, s.tile);
            save_u8(data, s.flags);
            i += 1;
            proof {
                assert forall|j: int| 0 <= j < 4 * i implies (base + Seq::new(
                    (4 * i) as nat,
                    |j: int| spec_sprite_byte(self.sprite_buffer@, j),
                ))[base.len() + j] == spec_sprite_byte(self.sprite_buffer@, j) by {}
                assert(data@ =~= base + Seq::new(
                    (4 * i) as nat,
                    |j: int| spec_sprite_byte(self.sprite_buffer@, j),
                ));
            }
        }
        let ghost p2 = p1 + spec_sprites_bytes(self.sprite_buffer@);
        proof {
            assert(Seq::new(40, |j: int| spec_sprite_byte(self.sprite_buffer@, j))
                =~= spec_sprites_bytes(self.sprite_buffer@));
            assert(data@ =~= h0 + p2);
        }
        save_u8(data, self.sprite_buffer_len);
        save_u8(data, self.wyc);
        save_u8(data, self.lcdc);
        save_u8(data, self.stat);
        save_u8(data, self.scy);
        save_u8(data, self.scx);
        save_u8(data, self.ly);
        save_u8(data, self.lyc);
        save_u8(data, self.bgp);
        save_u8(data, self.obp0);
        save_u8(data, self.obp1);
        save_u8(data, self.wy);
        save_u8(data, self.wx);
        save_u8(data, self.state);
        save_u8(data, self.ly_for_compare);
        let ghost p3 = p2 + seq![
            self.sprite_buffer_len,
            self.wyc,
            self.lcdc,
            self.stat,
            self.scy,
            self.scx,
            self.ly,
            self.lyc,
            self.bgp,
            self.obp0,
            self.obp1,
            self.wy,
            self.wx,
            self.state,
            self.ly_for_compare,
        ];
        proof {
            assert(data@ =~= h0 + p3);
        }
        save_u64(data, self.next_clock_count);
        let ghost p4 = p3 + u64_le(self.next_clock_count);
        proof {
            assert(data@ =~= h0 + p4);
        }
        save_u64(data, self.line_start_clock_count);
        let ghost p5 = p4 + u64_le(self.line_start_clock_count);
        proof {
            assert(data@ =~= h0 + p5);
        }
        self.background_fifo.save_state(data);
        let ghost p6 = p5 + spec_fifo_bytes(self.background_fifo@);
        proof {
            assert(data@ =~= h0 + p6);
        }
        self.sprite_fifo.save_state(data);
        let ghost p7 = p6 + spec_fifo_bytes(self.sprite_fifo@);
        proof {
            assert(data@ =~= h0 + p7);
        }
        save_u8(data, self.fetcher_step);
        save_u8(data, self.fetcher_x);
        save_u8(data, self.fetch_tile_number);
        save_u8(data, self.fetch_tile_data_low);
        save_u8(data, self.fetch_tile_data_high);
        let bools: u8 = (if self.reach_window {
            1u8
        } else {
            0
        }) | (if self.is_in_window {
            2
        } else {
            0
        }) | (if self.fetcher_skipped_first_push {
            4
        } else {
            0
        }) | (if self.sprite_fetching {
            8
        } else {
            0
        }) | (if self.fetcher_cycle {
            16
        } else {
            0
        }) | (if self.stat_signal {
            32
        } else {
            0
        });
        save_u8(data, bools);
        save_u8(data, self.curr_x);
        save_u8(data, self.discarting);
        let ghost p8 = p7 + seq![
            self.fetcher_step,
            self.fetcher_x,
            self.fetch_tile_number,
            self.fetch_tile_data_low,
            self.fetch_tile_data_high,
            spec_ppu_bools_byte(self@),
            self.curr_x,
            self.discarting,
        ];
        proof {
            assert(data@ =~= h0 + p8);
            assert(p8 == spec_ppu_bytes(self@));
        }
    }

    /// Whether the fields describe a state the dot machine can stand in.
    pub fn check_wf(&self) -> (r: bool)
        requires
            self@.vram.len() == 0x2000,
            self@.oam.len() == 0xA0,
            self@.screen.len() == 0x5A00,
            self@.sprite_buffer.len() == 10,
            self.background_fifo@.queue.len() == 16,
            self.sprite_fifo@.queue.len() == 16,
        ensures
            r == self.wf(),
    {
        let mode = self.stat & 3;
        let state = self.state;
        let mode_ok = if state <= 3 {
            mode == 0
        } else if state == 4 || state == 5 {
            mode == 3
        } else if state == 6 || state == 7 {
            mode == 0 || mode == 1
        } else if state == 8 {
            mode == 0 || mode == 2
        } else if state == 9 {
            mode == 2
        } else if state == 10 || state == 24 || state == 11 {
            mode == 3
        } else if state == 12 || state == 13 || state == 26 || state == 14 {
            mode == 0
        } else if state == 15 || state == 16 || state == 17 {
            mode == 0 || mode == 1
        } else {
            mode == 1
        };
        let ly_ok = (if state == 0 {
            self.ly == 0
        } else {
            true
        }) && (if 1 <= state && state <= 14 || state == 24 || state == 26 {
            self.ly <= 143
        } else {
            true
        }) && (if state == 15 {
            self.ly <= 153
        } else {
            true
        }) && (if state == 16 || state == 17 || state == 25 {
            self.ly <= 152
        } else {
            true
        }) && (if 18 <= state && state <= 23 {
            self.ly <= 153
        } else {
            true
        });
        self.sprite_buffer_len <= 10 && (!(state == 24 && self.sprite_fetching)
            || self.sprite_buffer_len < 10) && self.background_fifo.check_wf()
            && self.sprite_fifo.check_wf() && self.fetcher_step <= 3 && state <= 26 && self.curr_x
            <= 160 && mode_ok && ly_ok && (!((state == 15 || state == 16 || state == 17) && mode
            == 0) || self.ly == 144) && (!(self.lcdc & 0x80 == 0) || (state == 0 && mode == 0
            && self.ly == 0))
    }

    /// Read the LCD controller back from its serialisation.  A snapshot
    /// that decodes to a state the dot machine cannot stand in is
    /// refused.
    #[verifier::loop_isolation(false)]
    #[verifier::rlimit(100)]
    pub fn load_state(&mut self, data: &Vec<u8>, pos: &mut usize) -> (r: Result<
        (),
        LoadStateError,
    >)
        requires
            old(self).wf(),
        ensures
            ({
                let enough = *old(pos) + PPU_STATE_BYTES as int <= data@.len();
                let m = spec_ppu_parse(
                    data@.subrange(*old(pos) as int, *old(pos) + PPU_STATE_BYTES as int),
                );
                &&& (enough && spec_ppu_wf(m)) ==> (r == Ok::<(), LoadStateError>(())
                    && *final(pos) == *old(pos) + PPU_STATE_BYTES as int && final(self)@ == m
                    && final(self).wf())
                &&& (enough && !spec_ppu_wf(m)) ==> r == Err::<(), LoadStateError>(
                    LoadStateError::InvalidPpuMode(m.state),
                )
                &&& !enough ==> r == Err::<(), LoadStateError>(LoadStateError::UnexpectedEof)
            }),
    {
        if *pos > data.len() || data.len() - *pos < PPU_STATE_BYTES {
            return Err(LoadStateError::UnexpectedEof);
        }
        let ghost start = *pos;
        let ghost m = spec_ppu_parse(data@.subrange(start as int, start + PPU_STATE_BYTES as int));

        let r1 = load_bytes(data, pos, &mut self.vram);
        let r2 = load_bytes(data, pos, &mut self.oam);
        let r3 = load_bytes(data, pos, &mut self.screen);
        proof {
            assert(r1 == Ok::<(), LoadStateError>(()) && r2 == Ok::<(), LoadStateError>(()) && r3
                == Ok::<(), LoadStateError>(()));
            assert(self.vram@ =~= m.vram);
            assert(self.oam@ =~= m.oam);
            assert(self.screen@ =~= m.screen);
        }
        let mut i: usize = 0;
        while i < 10
            invariant
                i <= 10,
                self.sprite_buffer@.len() == 10,
                start + 31392 + 4 * i == *pos,
                self.vram@ == m.vram,
                self.oam@ == m.oam,
                self.screen@ == m.screen,
                self.background_fifo@.queue.len() == 16,
                self.sprite_fifo@.queue.len() == 16,
                forall|j: int| 0 <= j < i ==> self.sprite_buffer@[j] == m.sprite_buffer[j],
            decreases 10 - i,
        {
            let sx = match load_u8(data, pos) {
                Ok(v) => v,
                Err(e) => return Err(e),
            };
            let sy = match load_u8(data, pos) {
                Ok(v) => v,
                Err(e) => return Err(e),
            };
            let tile = match load_u8(data, pos) {
                Ok(v) => v,
                Err(e) => return Err(e),
            };
            let flags = match load_u8(data, pos) {
                Ok(v) => v,
                Err(e) => return Err(e),
            };
            self.sprite_buffer[i] = Sprite { sx, sy, tile, flags };
            i += 1;
        }
        let b1 = match load_u8(data, pos) {
            Ok(v) => v,
            Err(e) => return Err(e),
        };
        self.sprite_buffer_len = b1;
        let b2 = match load_u8(data, pos) {
            Ok(v) => v,
            Err(e) => return Err(e),
        };
        self.wyc = b2;
        let b3 = match load_u8(data, pos) {
            Ok(v) => v,
            Err(e) => return Err(e),
        };
        self.lcdc = b3;
        let b4 = match load_u8(data, pos) {
            Ok(v) => v,
            Err(e) => return Err(e),
        };
        self.stat = b4;
        let b5 = match load_u8(data, pos) {
            Ok(v) => v,
            Err(e) => return Err(e),
        };
        self.scy = b5;
        let b6 = match load_u8(data, pos) {
            Ok(v) => v,
            Err(e) => return Err(e),
        };
        self.scx = b6;
        let b7 = match load_u8(data, pos) {
            Ok(v) => v,
            Err(e) => return Err(e),
        };
        self.ly = b7;
        let b8 = match load_u8(data, pos) {
            Ok(v) => v,
            Err(e) => return Err(e),
        };
        self.lyc = b8;
        let b9 = match load_u8(data, pos) {
            Ok(v) => v,
            Err(e) => return Err(e),
        };
        self.bgp = b9;
        let b10 = match load_u8(data, pos) {
            Ok(v) => v,
            Err(e) => return Err(e),
        };
        self.obp0 = b10;
        let b11 = match load_u8(data, pos) {
            Ok(v) => v,
            Err(e) => return Err(e),
        };
        self.obp1 = b11;
        let b12 = match load_u8(data, pos) {
            Ok(v) => v,
            Err(e) => return Err(e),
        };
        self.wy = b12;
        let b13 = match load_u8(data, pos) {
            Ok(v) => v,
            Err(e) => return Err(e),
        };
        self.wx = b13;
        let b14 = match load_u8(data, pos) {
            Ok(v) => v,
            Err(e) => return Err(e),
        };
        self.state = b14;
        let b15 = match load_u8(data, pos) {
            Ok(v) => v,
            Err(e) => return Err(e),
        };
        self.ly_for_compare = b15;
        let w1 = match load_u64(data, pos) {
            Ok(v) => v,
            Err(e) => return Err(e),
        };
        self.next_clock_count = w1;
        let w2 = match load_u64(data, pos) {
            Ok(v) => v,
            Err(e) => return Err(e),
        };
        self.line_start_clock_count = w2;
        match self.background_fifo.load_state(data, pos) {
            Ok(()) => {},
            Err(e) => return Err(e),
        }
        match self.sprite_fifo.load_state(data, pos) {
            Ok(()) => {},
            Err(e) => return Err(e),
        }
        let b16 = match load_u8(data, pos) {
            Ok(v) => v,
            Err(e) => return Err(e),
        };
        self.fetcher_step = b16;
        let b17 = match load_u8(data, pos) {
            Ok(v) => v,
            Err(e) => return Err(e),
        };
        self.fetcher_x = b17;
        let b18 = match load_u8(data, pos) {
            Ok(v) => v,
            Err(e) => return Err(e),
        };
        self.fetch_tile_number = b18;
        let b19 = match load_u8(data, pos) {
            Ok(v) => v,
            Err(e) => return Err(e),
        };
        self.fetch_tile_data_low = b19;
        let b20 = match load_u8(data, pos) {
            Ok(v) => v,
            Err(e) => return Err(e),
        };
        self.fetch_tile_data_high = b20;
        let bools = match load_u8(data, pos) {
            Ok(v) => v,
            Err(e) => return Err(e),
        };
        self.reach_window = bools & 1 != 0;
        self.is_in_window = bools & 2 != 0;
        self.fetcher_skipped_first_push = bools & 4 != 0;
        self.sprite_fetching = bools & 8 != 0;
        self.fetcher_cycle = bools & 16 != 0;
        self.stat_signal = bools & 32 != 0;
        let b21 = match load_u8(data, pos) {
            Ok(v) => v,
            Err(e) => return Err(e),
        };
        self.curr_x = b21;
        let b22 = match load_u8(data, pos) {
            Ok(v) => v,
            Err(e) => return Err(e),
        };
        self.discarting = b22;
        proof {
            assert(self.background_fifo@.queue =~= m.background_fifo.queue);
            assert(self.sprite_fifo@.queue =~= m.sprite_fifo.queue);
            assert(self.sprite_buffer@ =~= m.sprite_buffer);
            assert(self@ == m);
        }
        if !self.check_wf() {
            return Err(LoadStateError::InvalidPpuMode(self.state));
        }
        Ok(())
    }
}

/// The model after one pass of the STAT edge detector: the coincidence
/// flag refreshed, the line level latched, nothing else moved.
pub open spec fn spec_ppu_refreshed(m: PpuModel) -> PpuModel {
    PpuModel {
        stat: spec_stat_after(m.stat, m.ly_for_compare, m.lyc),
        stat_signal: spec_stat_line(m.stat, m.ly_for_compare, m.lyc),
        ..m
    }
}

/// What a register write leaves of a caught-up model: plain stores for
/// the palette and position registers, the masked STAT store, LY
/// read-only, and the LCDC enable edges -- a falling bit 7 parks the
/// machine at line 0 in mode 0 with the line origin cleared, a rising
/// one restarts the parked machine at the current cycle with the
/// comparator primed at 0.
pub open spec fn spec_ppu_reg_written(m: PpuModel, clock_count: u64, address: u8, value: u8) -> PpuModel {
    if address == 0x40 {
        if value & 0x80 != m.lcdc & 0x80 {
            if value & 0x80 == 0 {
                PpuModel {
                    lcdc: value,
                    ly: 0,
                    line_start_clock_count: 0,
                    stat: (m.stat & 0xFC) as u8,
                    state: 0,
                    ..m
                }
            } else {
                PpuModel { lcdc: value, ly_for_compare: 0, next_clock_count: clock_count, ..m }
            }
        } else {
            PpuModel { lcdc: value, ..m }
        }
    } else if address == 0x41 {
        PpuModel { stat: (0x80 | (value & 0xF8) | (m.stat & 0x07)) as u8, ..m }
    } else if address == 0x42 {
        PpuModel { scy: value, ..m }
    } else if address == 0x43 {
        PpuModel { scx: value, ..m }
    } else if address == 0x45 {
        PpuModel { lyc: value, ..m }
    } else if address == 0x47 {
        PpuModel { bgp: value, ..m }
    } else if address == 0x48 {
        PpuModel { obp0: value, ..m }
    } else if address == 0x49 {
        PpuModel { obp1: value, ..m }
    } else if address == 0x4A {
        PpuModel { wy: value, ..m }
    } else if address == 0x4B {
        PpuModel { wx: value, ..m }
    } else {
        // 0x44: LY is read-only
        m
    }
}

/// Orders the states that pass control on without scheduling ahead, so
/// the catch-up loop has a falling measure even on those arcs.
pub open spec fn spec_state_rank(state: u8) -> int {
    if state == 5 || state == 9 || state == 14 || state == 25 {
        2
    } else if state == 10 || state == 13 || state == 15 || state == 23 {
        1
    } else {
        0
    }
}

impl Ppu {
    /// Catch the dot machine up to `clock_count`, re-entering the macro
    /// state every time the clock passes `next_clock_count`.  Returns the
    /// vertical-blank edge and the STAT edge latched on the way.  With
    /// the LCD disabled the machine stands still.
    #[verifier::rlimit(100)]
    pub fn update(&mut self, clock_count: u64) -> (r: (bool, bool))
        requires
            old(self).wf(),
            clock_count <= u64::MAX - 512,
        ensures
            final(self).wf(),
            final(self).next_clock_count >= clock_count,
            // the dot machine reads but never writes these
            final(self)@.vram == old(self)@.vram,
            final(self)@.oam == old(self)@.oam,
            final(self).lcdc == old(self).lcdc,
            final(self).scy == old(self).scy,
            final(self).scx == old(self).scx,
            final(self).lyc == old(self).lyc,
            final(self).bgp == old(self).bgp,
            final(self).obp0 == old(self).obp0,
            final(self).obp1 == old(self).obp1,
            final(self).wy == old(self).wy,
            final(self).wx == old(self).wx,
            // every pixel it wrote is a shade
            forall|i: int|
                0 <= i < 0x5A00 && final(self)@.screen[i] != old(self)@.screen[i]
                    ==> final(self)@.screen[i] < 4,
            // a disabled LCD freezes everything but the schedule
            old(self).lcdc & 0x80 == 0 ==> *final(self) == (Ppu {
                next_clock_count: clock_count,
                ..*old(self)
            }) && r == (false, false),
            // a machine already caught up only re-latches the STAT line
            (old(self).lcdc & 0x80 != 0 && old(self).next_clock_count >= clock_count)
                ==> (final(self)@ == spec_ppu_refreshed(old(self)@) && r == (
                false,
                !old(self).stat_signal && spec_stat_line(
                    old(self).stat,
                    old(self).ly_for_compare,
                    old(self).lyc,
                ),
            )),
    {
        if self.lcdc & 0x80 == 0 {
            self.next_clock_count = clock_count;
            return (false, false);
        }

        let mut stat_interrupt = false;
        let mut vblank_interrupt = false;

        self.update_stat(&mut stat_interrupt);

        if self.next_clock_count >= clock_count {
            // already caught up: the edge detector ran, nothing else to do
            return (false, stat_interrupt);
        }

        while self.next_clock_count < clock_count
            invariant
                self.wf(),
                self.lcdc & 0x80 != 0,
                clock_count <= u64::MAX - 512,
                self@.vram == old(self)@.vram,
                self@.oam == old(self)@.oam,
                self.lcdc == old(self).lcdc,
                self.scy == old(self).scy,
                self.scx == old(self).scx,
                self.lyc == old(self).lyc,
                self.bgp == old(self).bgp,
                self.obp0 == old(self).obp0,
                self.obp1 == old(self).obp1,
                self.wy == old(self).wy,
                self.wx == old(self).wx,
                forall|i: int|
                    0 <= i < 0x5A00 && self@.screen[i] != old(self)@.screen[i] ==> self@.screen[i]
                        < 4,
            decreases 4 * (if self.next_clock_count >= clock_count {
                0int
            } else {
                clock_count - self.next_clock_count
            }) + spec_state_rank(self.state),
        {
            let state = self.state;
            if state == 0 {
                // one-shot initialisation after the LCD turns on
                self.ly = 0;
                self.set_stat_mode(0);
                self.reach_window = false;
                self.next_clock_count += 1;
                self.state = 1;
            } else if state == 1 {
                self.line_start_clock_count = if self.next_clock_count >= 8 {
                    self.next_clock_count - 8
                } else {
                    0
                };
                self.wyc = 0;
                self.next_clock_count += 76;
                self.state = 2;
            } else if state == 2 {
                self.next_clock_count += 2;
                self.state = 3;
            } else if state == 3 {
                self.set_stat_mode(3);
                self.next_clock_count += 2;
                self.state = 4;
            } else if state == 4 {
                self.next_clock_count += 3;
                self.state = 5;
            } else if state == 5 {
                // into the first line's mode 3
                self.state = 10;
            } else if state == 6 {
                // a visible line starts
                self.line_start_clock_count = self.next_clock_count;
                self.next_clock_count += 3;
                self.state = 7;
            } else if state == 7 {
                // dot 3: a one-dot-early mode report, except on line 0
                if self.ly == 0 {
                    self.ly_for_compare = 0;
                    self.set_stat_mode(0);
                } else {
                    self.ly_for_compare = 0xFF;
                    self.set_stat_mode(2);
                }
                self.update_stat(&mut stat_interrupt);
                self.next_clock_count += 1;
                self.state = 8;
            } else if state == 8 {
                // dot 4: the object scan for this line
                self.set_stat_mode(2);
                self.ly_for_compare = self.ly;
                self.update_stat(&mut stat_interrupt);
                self.search_objects();
                self.curr_x = 0;
                self.next_clock_count += 80;
                self.state = 9;
            } else if state == 9 {
                // dot 84: drawing starts
                self.set_stat_mode(3);
                self.update_stat(&mut stat_interrupt);
                self.state = 10;
            } else if state == 10 {
                // mode 3 starts: reset the pixel pipeline
                self.background_fifo.clear();
                self.sprite_fifo.clear();
                self.fetcher_step = 0;
                self.fetcher_skipped_first_push = false;
                self.sprite_fetching = false;
                self.fetcher_cycle = false;
                self.fetcher_x = 0;
                if self.wy == self.ly {
                    self.reach_window = true;
                }
                self.is_in_window = false;
                self.discarting = self.scx % 8;
                self.state = 24;
            } else if state == 24 {
                // one dot of mode 3
                let ly = self.ly;
                tick_lcd_fifo(self, ly);
                self.next_clock_count += 1;
                if self.curr_x == 160 {
                    self.state = 11;
                }
            } else if state == 11 {
                self.set_stat_mode(0);
                if self.is_in_window {
                    self.wyc = if self.wyc == 255 {
                        0
                    } else {
                        self.wyc + 1
                    };
                }
                self.next_clock_count += 1;
                self.state = 12;
            } else if state == 12 {
                self.update_stat(&mut stat_interrupt);
                self.next_clock_count += 12;
                self.state = 13;
            } else if state == 13 {
                // the rest of the 456-dot line, less the two dots of
                // state 26
                let elapsed = if self.next_clock_count >= self.line_start_clock_count {
                    self.next_clock_count - self.line_start_clock_count
                } else {
                    456
                };
                if elapsed <= 454 {
                    self.next_clock_count += 454 - elapsed;
                }
                self.state = 26;
            } else if state == 26 {
                self.next_clock_count += 2;
                self.state = 14;
            } else if state == 14 {
                self.ly += 1;
                if self.ly == 144 {
                    self.state = 15;
                } else {
                    self.state = 6;
                }
            } else if state == 15 {
                // a vertical-blank line starts
                if self.ly == 153 {
                    self.state = 18;
                } else {
                    self.ly_for_compare = 0xFF;
                    self.next_clock_count += 2;
                    self.state = 16;
                }
            } else if state == 16 {
                self.next_clock_count += 2;
                self.state = 17;
            } else if state == 17 {
                // dot 4: vertical blank is latched on line 144
                self.ly_for_compare = self.ly;
                if self.ly == 144 {
                    self.set_stat_mode(1);
                    vblank_interrupt = true;
                }
                self.update_stat(&mut stat_interrupt);
                self.next_clock_count += 452;
                self.state = 25;
            } else if state == 25 {
                self.ly += 1;
                self.state = 15;
            } else if state == 18 {
                // line 153 reports LY 0 for most of its time
                self.ly = 153;
                self.ly_for_compare = 0xFF;
                self.update_stat(&mut stat_interrupt);
                self.next_clock_count += 6;
                self.state = 19;
            } else if state == 19 {
                self.ly = 0;
                self.ly_for_compare = 153;
                self.update_stat(&mut stat_interrupt);
                self.next_clock_count += 2;
                self.state = 20;
            } else if state == 20 {
                self.ly = 0;
                self.update_stat(&mut stat_interrupt);
                self.next_clock_count += 4;
                self.state = 21;
            } else if state == 21 {
                self.ly_for_compare = 0;
                self.update_stat(&mut stat_interrupt);
                self.next_clock_count += 12;
                self.state = 22;
            } else if state == 22 {
                self.next_clock_count += 432;
                self.state = 23;
            } else {
                // state 23: the frame wraps to line 0
                proof {
                    assert(self.state == 23);
                }
                self.ly = 0;
                self.reach_window = false;
                self.wyc = 0;
                self.curr_x = 0;
                self.state = 6;
            }
        }
        (vblank_interrupt, stat_interrupt)
    }
}

/// The STAT mode bits can only show 0 through 3, and in a well-formed
/// machine they agree with the macro state the dot machine stands in.
pub proof fn lemma_stat_mode_agrees(ppu: Ppu)
    requires
        ppu.wf(),
    ensures
        ppu.stat & 3 <= 3,
        spec_mode_ok(ppu.state, ppu.stat & 3),
{
    let s = ppu.stat;
    assert(s & 3 <= 3) by (bit_vector);
}

/// The visible line register never passes 153 in a well-formed
/// machine, and it advances only through the macro states that schedule
/// a full 456-dot line between increments.
pub proof fn lemma_ly_bounded(ppu: Ppu)
    requires
        ppu.wf(),
    ensures
        ppu.ly <= 153,
{
}

/// A window whose X register leaves no margin (at most 7, so in
/// particular 0) triggers at the very first pixel of a line that has
/// reached the window.
pub proof fn lemma_window_starts_at_first_pixel(ppu: Ppu)
    requires
        !ppu.is_in_window,
        ppu.lcdc & 0x20 != 0,
        ppu.reach_window,
        ppu.wx <= 7,
        ppu.curr_x == 0,
    ensures
        spec_window_trigger(ppu),
{
}

/// The buffer is ordered: columns never grow from front to back, so the
/// back always holds the smallest column still to fetch.
pub open spec fn spec_sorted_desc(s: Seq<Sprite>) -> bool {
    forall|i: int, j: int| 0 <= i < j < s.len() ==> s[i].sx >= s[j].sx
}

/// Inserting into an ordered buffer keeps it ordered and grows it by
/// one.
pub proof fn lemma_sprite_insert_sorted(s: Seq<Sprite>, x: Sprite)
    requires
        spec_sorted_desc(s),
    ensures
        spec_sorted_desc(spec_sprite_insert(s, x)),
        spec_sprite_insert(s, x).len() == s.len() + 1,
{
    lemma_sprite_insert_at(s, x);
    let p = spec_insert_pos(s, x);
    let r = spec_sprite_insert(s, x);
    assert forall|i: int, j: int| 0 <= i < j < r.len() implies r[i].sx >= r[j].sx by {
        assert(r == s.insert(p, x));
        if i < p {
            assert(r[i] == s[i]);
        } else if i == p {
            assert(r[i] == x);
        } else {
            assert(r[i] == s[i - 1]);
        }
        if j < p {
            assert(r[j] == s[j]);
        } else if j == p {
            assert(r[j] == x);
        } else {
            assert(r[j] == s[j - 1]);
        }
    }
}

/// The stable insertion sort orders the buffer and keeps its length.
pub proof fn lemma_sprite_sort_sorted(s: Seq<Sprite>)
    ensures
        spec_sorted_desc(spec_sprite_sort(s)),
        spec_sprite_sort(s).len() == s.len(),
    decreases s.len(),
{
    if s.len() > 0 {
        lemma_sprite_sort_sorted(s.drop_last());
        lemma_sprite_insert_sorted(spec_sprite_sort(s.drop_last()), s.last());
    }
}

/// The scan never selects more than ten sprites.
pub proof fn lemma_selected_bounded(oam: Seq<u8>, ly: u8, lcdc: u8, i: int)
    ensures
        spec_selected(oam, ly, lcdc, i).len() <= 10,
    decreases i,
{
    if i > 0 {
        lemma_selected_bounded(oam, ly, lcdc, i - 1);
    }
}

/// What the object scan guarantees of any line's buffer: at most ten
/// sprites, ordered by falling column, the back being the next to
/// fetch.
pub proof fn lemma_scan_buffer_ordered(oam: Seq<u8>, ly: u8, lcdc: u8)
    ensures
        spec_scan_buffer(oam, ly, lcdc).len() <= 10,
        spec_sorted_desc(spec_scan_buffer(oam, ly, lcdc)),
{
    reveal(spec_scan_buffer);
    lemma_selected_bounded(oam, ly, lcdc, 40);
    let sel = spec_selected(oam, ly, lcdc, 40);
    lemma_sprite_sort_sorted(sel.reverse());
}

/// A vector of `n` zero bytes.
fn zero_bytes(n: usize) -> (v: Vec<u8>)
    ensures
        v@ == Seq::new(n as nat, |i: int| 0u8),
{
    let v: Vec<u8> = vec![0u8; n];
    proof {
        assert(v@ =~= Seq::new(n as nat, |i: int| 0u8));
    }
    v
}

/// Ten cleared sprite slots.
fn empty_sprites() -> (v: Vec<Sprite>)
    ensures
        v@ == Seq::new(10, |i: int| (Sprite { sx: 0, sy: 0, tile: 0, flags: 0 })),
{
    let mut v: Vec<Sprite> = Vec::new();
    let mut i: usize = 0;
    while i < 10
        invariant
            i <= 10,
            v@.len() == i,
            forall|j: int| 0 <= j < i ==> v@[j] == (Sprite { sx: 0, sy: 0, tile: 0, flags: 0 }),
        decreases 10 - i,
    {
        v.push(Sprite { sx: 0, sy: 0, tile: 0, flags: 0 });
        i += 1;
    }
    proof {
        assert(v@ =~= Seq::new(10, |i: int| (Sprite { sx: 0, sy: 0, tile: 0, flags: 0 })));
    }
    v
}

/// The cold-boot LCD controller: cleared memories, LCD off, the dot
/// machine parked in state 0.
pub open spec fn spec_ppu_default() -> PpuModel {
    PpuModel {
        vram: Seq::new(0x2000, |i: int| 0u8),
        oam: Seq::new(0xA0, |i: int| 0u8),
        screen: Seq::new(0x5A00, |i: int| 0u8),
        sprite_buffer: Seq::new(10, |i: int| (Sprite { sx: 0, sy: 0, tile: 0, flags: 0 })),
        sprite_buffer_len: 0,
        wyc: 0,
        lcdc: 0,
        stat: 0,
        scy: 0,
        scx: 0,
        ly: 0,
        lyc: 0,
        bgp: 0,
        obp0: 0,
        obp1: 0,
        wy: 0,
        wx: 0,
        state: 0,
        ly_for_compare: 0,
        stat_signal: false,
        next_clock_count: 0,
        line_start_clock_count: 0,
        background_fifo: FifoModel { queue: Seq::new(16, |i: int| 0u8), head: 0, tail: 0 },
        sprite_fifo: FifoModel { queue: Seq::new(16, |i: int| 0u8), head: 0, tail: 0 },
        fetcher_step: 0,
        fetcher_skipped_first_push: false,
        sprite_fetching: false,
        fetcher_cycle: false,
        fetcher_x: 0,
        fetch_tile_number: 0,
        fetch_tile_data_low: 0,
        fetch_tile_data_high: 0,
        reach_window: false,
        is_in_window: false,
        curr_x: 0,
        discarting: 0,
    }
}

/// The LCD controller as the boot ROM leaves it: LCD on with background
/// enabled, the frame about to wrap, cleared memories standing in for
/// the logo the boot ROM leaves behind.
pub open spec fn spec_ppu_after_boot() -> PpuModel {
    PpuModel {
        lcdc: 0x91,
        stat: 0x05,
        bgp: 0xFC,
        state: 23,
        next_clock_count: 23_440_377,
        line_start_clock_count: 23_435_361,
        fetcher_step: 3,
        fetcher_x: 0x14,
        reach_window: true,
        fetcher_skipped_first_push: true,
        curr_x: 0xA0,
        ..spec_ppu_default()
    }
}

impl Default for Ppu {
    fn default() -> (p: Ppu)
        ensures
            p@ == spec_ppu_default(),
            p.wf(),
    {
        let p = Ppu {
            vram: zero_bytes(0x2000),
            oam: zero_bytes(0xA0),
            screen: zero_bytes(0x5A00),
            sprite_buffer: empty_sprites(),
            sprite_buffer_len: 0,
            wyc: 0,
            lcdc: 0,
            stat: 0,
            scy: 0,
            scx: 0,
            ly: 0,
            lyc: 0,
            bgp: 0,
            obp0: 0,
            obp1: 0,
            wy: 0,
            wx: 0,
            state: 0,
            ly_for_compare: 0,
            stat_signal: false,
            next_clock_count: 0,
            line_start_clock_count: 0,
            background_fifo: PixelFifo::new(),
            sprite_fifo: PixelFifo::new(),
            fetcher_step: 0,
            fetcher_skipped_first_push: false,
            sprite_fetching: false,
            fetcher_cycle: false,
            fetcher_x: 0,
            fetch_tile_number: 0,
            fetch_tile_data_low: 0,
            fetch_tile_data_high: 0,
            reach_window: false,
            is_in_window: false,
            curr_x: 0,
            discarting: 0,
        };
        proof {
            assert(0u8 & 0x80 == 0 && 0u8 & 3 == 0) by (bit_vector);
        }
        p
    }
}

impl Ppu {
    /// Reset to the state the boot ROM hands over.
    pub fn reset_after_boot(&mut self)
        ensures
            final(self)@ == spec_ppu_after_boot(),
            final(self).wf(),
    {
        *self = Ppu {
            vram: zero_bytes(0x2000),
            oam: zero_bytes(0xA0),
            screen: zero_bytes(0x5A00),
            sprite_buffer: empty_sprites(),
            sprite_buffer_len: 0,
            wyc: 0,
            lcdc: 0x91,
            stat: 0x05,
            scy: 0,
            scx: 0,
            ly: 0,
            lyc: 0,
            bgp: 0xFC,
            obp0: 0,
            obp1: 0,
            wy: 0,
            wx: 0,
            state: 23,
            ly_for_compare: 0,
            stat_signal: false,
            next_clock_count: 23_440_377,
            line_start_clock_count: 23_435_361,
            background_fifo: PixelFifo::new(),
            sprite_fifo: PixelFifo::new(),
            fetcher_step: 3,
            fetcher_skipped_first_push: true,
            sprite_fetching: false,
            fetcher_cycle: false,
            fetcher_x: 0x14,
            fetch_tile_number: 0,
            fetch_tile_data_low: 0,
            fetch_tile_data_high: 0,
            reach_window: true,
            is_in_window: false,
            curr_x: 0xA0,
            discarting: 0,
        };
        proof {
            assert(0x91u8 & 0x80 != 0 && 0x05u8 & 3 == 1) by (bit_vector);
        }
    }

    /// Read an LCD register (0xFF40..=0xFF45, 0xFF47..=0xFF4B).  The
    /// board keeps the machine caught up to the clock before any such
    /// read, so the stored values are current.
    pub fn read(&self, address: u8) -> (r: u8)
        requires
            0x40 <= address <= 0x45 || 0x47 <= address <= 0x4B,
        ensures
            address == 0x40 ==> r == self.lcdc,
            address == 0x41 ==> r == self.stat | 0x80,
            address == 0x42 ==> r == self.scy,
            address == 0x43 ==> r == self.scx,
            address == 0x44 ==> r == self.ly,
            address == 0x45 ==> r == self.lyc,
            address == 0x47 ==> r == self.bgp,
            address == 0x48 ==> r == self.obp0,
            address == 0x49 ==> r == self.obp1,
            address == 0x4A ==> r == self.wy,
            address == 0x4B ==> r == self.wx,
    {
        if address == 0x40 {
            self.lcdc
        } else if address == 0x41 {
            self.stat | 0x80
        } else if address == 0x42 {
            self.scy
        } else if address == 0x43 {
            self.scx
        } else if address == 0x44 {
            self.ly
        } else if address == 0x45 {
            self.lyc
        } else if address == 0x47 {
            self.bgp
        } else if address == 0x48 {
            self.obp0
        } else if address == 0x49 {
            self.obp1
        } else if address == 0x4A {
            self.wy
        } else {
            self.wx
        }
    }

    /// Write an LCD register, after catching the machine up to the
    /// clock.  A falling edge of LCDC bit 7 parks the machine at once on
    /// line 0 in mode 0; a rising edge restarts it from state 0, where
    /// the disabled machine has stood all along.
    #[verifier::rlimit(30)]
    pub fn write(&mut self, clock_count: u64, address: u8, value: u8)
        requires
            old(self).wf(),
            clock_count <= u64::MAX - 512,
            0x40 <= address <= 0x45 || 0x47 <= address <= 0x4B,
        ensures
            final(self).wf(),
            final(self)@.vram == old(self)@.vram,
            final(self)@.oam == old(self)@.oam,
            address == 0x40 ==> final(self).lcdc == value,
            address == 0x40 && value & 0x80 == 0 ==> final(self).ly == 0 && final(self).stat & 3
                == 0 && final(self).state == 0,
            address == 0x40 && value & 0x80 == 0 && old(self).lcdc & 0x80 != 0
                ==> final(self).line_start_clock_count == 0,
            address == 0x40 && value & 0x80 != 0 && old(self).lcdc & 0x80 == 0 ==> final(self).ly
                == 0 && final(self).stat & 3 == 0 && final(self).state == 0
                && final(self).next_clock_count == clock_count && final(self).ly_for_compare == 0,
            // with the machine caught up (or parked), the write's whole
            // effect is the register store on the STAT-refreshed model
            (old(self).lcdc & 0x80 != 0 && old(self).next_clock_count >= clock_count)
                ==> final(self)@ == spec_ppu_reg_written(
                spec_ppu_refreshed(old(self)@),
                clock_count,
                address,
                value,
            ),
            old(self).lcdc & 0x80 == 0 ==> final(self)@ == spec_ppu_reg_written(
                (PpuModel { next_clock_count: clock_count, ..old(self)@ }),
                clock_count,
                address,
                value,
            ),
            address == 0x41 ==> final(self).stat & 0x78 == value & 0x78 && final(self).stat & 0x80
                == 0x80,
            address == 0x42 ==> final(self).scy == value,
            address == 0x43 ==> final(self).scx == value,
            address == 0x45 ==> final(self).lyc == value,
            address == 0x47 ==> final(self).bgp == value,
            address == 0x48 ==> final(self).obp0 == value,
            address == 0x49 ==> final(self).obp1 == value,
            address == 0x4A ==> final(self).wy == value,
            address == 0x4B ==> final(self).wx == value,
            address != 0x40 ==> final(self).lcdc == old(self).lcdc,
            address != 0x42 ==> final(self).scy == old(self).scy,
            address != 0x43 ==> final(self).scx == old(self).scx,
            address != 0x45 ==> final(self).lyc == old(self).lyc,
            address != 0x47 ==> final(self).bgp == old(self).bgp,
            address != 0x48 ==> final(self).obp0 == old(self).obp0,
            address != 0x49 ==> final(self).obp1 == old(self).obp1,
            address != 0x4A ==> final(self).wy == old(self).wy,
            address != 0x4B ==> final(self).wx == old(self).wx,
    {
        // catch up first, so the write lands at the current dot; the
        // board has already latched any edges this could produce
        let _ = self.update(clock_count);

        if address == 0x40 {
            if value & 0x80 != self.lcdc & 0x80 {
                if value & 0x80 == 0 {
                    // disable: park at line 0, mode 0
                    self.ly = 0;
                    self.line_start_clock_count = 0;
                    let ghost scur = self.stat;
                    self.stat = self.stat & 0xFC;
                    self.state = 0;
                    proof {
                        assert((scur & 0xFC) & 3 == 0) by (bit_vector);
                    }
                } else {
                    // enable: the machine restarts where disabling
                    // parked it
                    self.ly_for_compare = 0;
                    self.next_clock_count = clock_count;
                }
            }
            self.lcdc = value;
        } else if address == 0x41 {
            let ghost scur = self.stat;
            self.stat = 0x80 | (value & 0xF8) | (self.stat & 0x07);
            proof {
                let v = value;
                assert((0x80u8 | (v & 0xF8) | (scur & 0x07)) & 0x78 == v & 0x78 && (0x80u8 | (v
                    & 0xF8) | (scur & 0x07)) & 0x80 == 0x80 && (0x80u8 | (v & 0xF8) | (scur
                    & 0x07)) & 3 == scur & 3) by (bit_vector);
            }
        } else if address == 0x42 {
            self.scy = value;
        } else if address == 0x43 {
            self.scx = value;
        } else if address == 0x44 {
            // LY is read-only
        } else if address == 0x45 {
            self.lyc = value;
        } else if address == 0x47 {
            self.bgp = value;
        } else if address == 0x48 {
            self.obp0 = value;
        } else if address == 0x49 {
            self.obp1 = value;
        } else if address == 0x4A {
            self.wy = value;
        } else {
            self.wx = value;
        }
    }
}

/// The serialised form of a FIFO: the sixteen slots, then head, then
/// tail.
pub open spec fn spec_fifo_bytes(f: FifoModel) -> Seq<u8> {
    f.queue + seq![f.head, f.tail]
}

impl PixelFifo {
    /// Append the 18-byte serialisation of the FIFO.
    pub fn save_state(&self, data: &mut Vec<u8>)
        requires
            self.wf(),
        ensures
            final(data)@ == old(data)@ + spec_fifo_bytes(self@),
    {
        save_bytes(data, &self.queue);
        save_u8(data, self.head);
        save_u8(data, self.tail);
        assert(data@ =~= old(data)@ + spec_fifo_bytes(self@));
    }

    /// Read the FIFO back; a snapshot whose cursors or fill do not fit
    /// the ring is refused by the caller's well-formedness check.
    pub fn load_state(&mut self, data: &Vec<u8>, pos: &mut usize) -> (r: Result<
        (),
        LoadStateError,
    >)
        requires
            old(self)@.queue.len() == 16,
        ensures
            *old(pos) + 18 <= data@.len() ==> r == Ok::<(), LoadStateError>(()) && *final(pos)
                == *old(pos) + 18 && final(self)@.queue == data@.subrange(
                *old(pos) as int,
                *old(pos) + 16,
            ) && final(self).head == data@[*old(pos) + 16] && final(self).tail == data@[*old(pos)
                + 17],
            *old(pos) + 18 > data@.len() ==> r == Err::<(), LoadStateError>(
                LoadStateError::UnexpectedEof,
            ) && final(self)@.queue.len() == 16,
    {
        match load_bytes(data, pos, &mut self.queue) {
            Ok(()) => {},
            Err(e) => return Err(e),
        }
        let head = match load_u8(data, pos) {
            Ok(v) => v,
            Err(e) => return Err(e),
        };
        let tail = match load_u8(data, pos) {
            Ok(v) => v,
            Err(e) => return Err(e),
        };
        self.head = head;
        self.tail = tail;
        Ok(())
    }

    /// Whether the loaded cursors describe a ring the pixel pipeline can
    /// stand: both in range and at most eight pixels queued.
    pub fn check_wf(&self) -> (r: bool)
        requires
            self@.queue.len() == 16,
        ensures
            r == self.wf(),
    {
        self.head < 16 && self.tail < 16 && (16 + self.head as i32 - self.tail as i32) % 16 <= 8
    }
}

/// The bytes of the ten sprite slots, four per sprite.
pub open spec fn spec_sprite_byte(sb: Seq<Sprite>, j: int) -> u8 {
    let s = sb[j / 4];
    if j % 4 == 0 {
        s.sx
    } else if j % 4 == 1 {
        s.sy
    } else if j % 4 == 2 {
        s.tile
    } else {
        s.flags
    }
}

pub open spec fn spec_sprites_bytes(sb: Seq<Sprite>) -> Seq<u8> {
    Seq::new(40, |j: int| spec_sprite_byte(sb, j))
}

/// The six flag bits of the LCD controller packed into one byte, least
/// significant bit first.
pub open spec fn spec_ppu_bools_byte(m: PpuModel) -> u8 {
    (if m.reach_window {
        1u8
    } else {
        0u8
    }) | (if m.is_in_window {
        2u8
    } else {
        0u8
    }) | (if m.fetcher_skipped_first_push {
        4u8
    } else {
        0u8
    }) | (if m.sprite_fetching {
        8u8
    } else {
        0u8
    }) | (if m.fetcher_cycle {
        16u8
    } else {
        0u8
    }) | (if m.stat_signal {
        32u8
    } else {
        0u8
    })
}

/// How many bytes a serialised LCD controller takes.
pub const PPU_STATE_BYTES: usize = 31507;

/// The serialised form of the LCD controller: the three memories, the
/// sprite slots, the registers and machine words, the two FIFOs, the
/// fetcher, the packed flags, and the output cursor.
pub open spec fn spec_ppu_bytes(m: PpuModel) -> Seq<u8> {
    m.vram + m.oam + m.screen + spec_sprites_bytes(m.sprite_buffer) + seq![
        m.sprite_buffer_len,
        m.wyc,
        m.lcdc,
        m.stat,
        m.scy,
        m.scx,
        m.ly,
        m.lyc,
        m.bgp,
        m.obp0,
        m.obp1,
        m.wy,
        m.wx,
        m.state,
        m.ly_for_compare,
    ] + u64_le(m.next_clock_count) + u64_le(m.line_start_clock_count) + spec_fifo_bytes(
        m.background_fifo,
    ) + spec_fifo_bytes(m.sprite_fifo) + seq![
        m.fetcher_step,
        m.fetcher_x,
        m.fetch_tile_number,
        m.fetch_tile_data_low,
        m.fetch_tile_data_high,
        spec_ppu_bools_byte(m),
        m.curr_x,
        m.discarting,
    ]
}

/// The LCD controller encoded in `PPU_STATE_BYTES` bytes.
pub open spec fn spec_ppu_parse(b: Seq<u8>) -> PpuModel {
    PpuModel {
        vram: b.subrange(0, 0x2000),
        oam: b.subrange(0x2000, 0x20A0),
        screen: b.subrange(0x20A0, 31392),
        sprite_buffer: Seq::new(
            10,
            |i: int|
                (Sprite {
                    sx: b[31392 + 4 * i],
                    sy: b[31392 + 4 * i + 1],
                    tile: b[31392 + 4 * i + 2],
                    flags: b[31392 + 4 * i + 3],
                }),
        ),
        sprite_buffer_len: b[31432],
        wyc: b[31433],
        lcdc: b[31434],
        stat: b[31435],
        scy: b[31436],
        scx: b[31437],
        ly: b[31438],
        lyc: b[31439],
        bgp: b[31440],
        obp0: b[31441],
        obp1: b[31442],
        wy: b[31443],
        wx: b[31444],
        state: b[31445],
        ly_for_compare: b[31446],
        stat_signal: b[31504] & 32 != 0,
        next_clock_count: u64_from_le(b.subrange(31447, 31455)),
        line_start_clock_count: u64_from_le(b.subrange(31455, 31463)),
        background_fifo: FifoModel {
            queue: b.subrange(31463, 31479),
            head: b[31479],
            tail: b[31480],
        },
        sprite_fifo: FifoModel { queue: b.subrange(31481, 31497), head: b[31497], tail: b[31498] },
        fetcher_step: b[31499],
        fetcher_skipped_first_push: b[31504] & 4 != 0,
        sprite_fetching: b[31504] & 8 != 0,
        fetcher_cycle: b[31504] & 16 != 0,
        fetcher_x: b[31500],
        fetch_tile_number: b[31501],
        fetch_tile_data_low: b[31502],
        fetch_tile_data_high: b[31503],
        reach_window: b[31504] & 1 != 0,
        is_in_window: b[31504] & 2 != 0,
        curr_x: b[31505],
        discarting: b[31506],
    }
}

/// A serialised LCD controller always takes `PPU_STATE_BYTES` bytes.
pub proof fn lemma_ppu_bytes_len(m: PpuModel)
    requires
        m.vram.len() == 0x2000,
        m.oam.len() == 0xA0,
        m.screen.len() == 0x5A00,
        m.background_fifo.queue.len() == 16,
        m.sprite_fifo.queue.len() == 16,
    ensures
        spec_ppu_bytes(m).len() == PPU_STATE_BYTES as int,
{
}

/// Decoding an LCD controller's own serialisation gives it back.
pub proof fn lemma_ppu_bytes_roundtrip(m: PpuModel)
    requires
        m.vram.len() == 0x2000,
        m.oam.len() == 0xA0,
        m.screen.len() == 0x5A00,
        m.sprite_buffer.len() == 10,
        m.background_fifo.queue.len() == 16,
        m.sprite_fifo.queue.len() == 16,
    ensures
        spec_ppu_parse(spec_ppu_bytes(m)) == m,
{
    let b = spec_ppu_bytes(m);
    crate::save_state::lemma_u64_le_roundtrip(m.next_clock_count);
    crate::save_state::lemma_u64_le_roundtrip(m.line_start_clock_count);
    let p = spec_ppu_parse(b);
    assert(b.len() == 31507);
    assert(p.vram =~= m.vram);
    assert(p.oam =~= m.oam);
    assert(p.screen =~= m.screen);
    assert forall|i: int| 0 <= i < 10 implies p.sprite_buffer[i] == m.sprite_buffer[i] by {
        assert(b[31392 + 4 * i] == spec_sprite_byte(m.sprite_buffer, 4 * i));
        assert(b[31392 + 4 * i + 1] == spec_sprite_byte(m.sprite_buffer, 4 * i + 1));
        assert(b[31392 + 4 * i + 2] == spec_sprite_byte(m.sprite_buffer, 4 * i + 2));
        assert(b[31392 + 4 * i + 3] == spec_sprite_byte(m.sprite_buffer, 4 * i + 3));
        assert((4 * i) / 4 == i && (4 * i) % 4 == 0 && (4 * i + 1) / 4 == i && (4 * i + 1) % 4 == 1
            && (4 * i + 2) / 4 == i && (4 * i + 2) % 4 == 2 && (4 * i + 3) / 4 == i && (4 * i + 3)
            % 4 == 3) by (nonlinear_arith);
    }
    assert(p.sprite_buffer =~= m.sprite_buffer);
    assert(b.subrange(31447, 31455) =~= u64_le(m.next_clock_count));
    assert(b.subrange(31455, 31463) =~= u64_le(m.line_start_clock_count));
    assert(p.background_fifo.queue =~= m.background_fifo.queue);
    assert(p.sprite_fifo.queue =~= m.sprite_fifo.queue);
    let c = spec_ppu_bools_byte(m);
    let b0: u8 = if m.reach_window {
        1
    } else {
        0
    };
    let b1: u8 = if m.is_in_window {
        2
    } else {
        0
    };
    let b2: u8 = if m.fetcher_skipped_first_push {
        4
    } else {
        0
    };
    let b3: u8 = if m.sprite_fetching {
        8
    } else {
        0
    };
    let b4: u8 = if m.fetcher_cycle {
        16
    } else {
        0
    };
    let b5: u8 = if m.stat_signal {
        32
    } else {
        0
    };
    assert((b0 == 0 || b0 == 1) && (b1 == 0 || b1 == 2) && (b2 == 0 || b2 == 4) && (b3 == 0 || b3
        == 8) && (b4 == 0 || b4 == 16) && (b5 == 0 || b5 == 32));
    assert(((b0 | b1 | b2 | b3 | b4 | b5) & 1 != 0) == (b0 == 1) && ((b0 | b1 | b2 | b3 | b4 | b5)
        & 2 != 0) == (b1 == 2) && ((b0 | b1 | b2 | b3 | b4 | b5) & 4 != 0) == (b2 == 4) && ((b0
        | b1 | b2 | b3 | b4 | b5) & 8 != 0) == (b3 == 8) && ((b0 | b1 | b2 | b3 | b4 | b5) & 16
        != 0) == (b4 == 16) && ((b0 | b1 | b2 | b3 | b4 | b5) & 32 != 0) == (b5 == 32))
        by (bit_vector)
        requires
            (b0 == 0 || b0 == 1) && (b1 == 0 || b1 == 2) && (b2 == 0 || b2 == 4) && (b3 == 0 || b3
                == 8) && (b4 == 0 || b4 == 16) && (b5 == 0 || b5 == 32),
    ;
}

/// A pixel sink for the tile and map viewers: a `width` by `height`
/// grid of shades, rows first.
pub struct Canvas {
    pub width: usize,
    pub height: usize,
    pub data: Vec<u8>,
}

impl Canvas {
    pub open spec fn wf(self) -> bool {
        self.data@.len() == self.width * self.height
    }

    /// A cleared canvas.
    pub fn new(width: usize, height: usize) -> (c: Canvas)
        requires
            width * height <= usize::MAX,
        ensures
            c.wf(),
            c.width == width,
            c.height == height,
            c.data@ == Seq::new((width * height) as nat, |i: int| 0u8),
    {
        proof {
            assert(width * height >= 0) by (nonlinear_arith);
        }
        let n = width * height;
        Canvas { width, height, data: zero_bytes(n) }
    }
}

/// A canvas after one pixel lands on it: writes outside the grid fall
/// off the edge.
pub open spec fn spec_put(data: Seq<u8>, w: int, h: int, x: int, y: int, color: u8) -> Seq<u8> {
    if 0 <= x < w && 0 <= y < h {
        data.update(y * w + x, color)
    } else {
        data
    }
}

/// Put one pixel, clipping at the edges.
pub fn put_pixel(c: &mut Canvas, x: i32, y: i32, color: u8)
    requires
        old(c).wf(),
    ensures
        final(c).wf(),
        final(c).width == old(c).width,
        final(c).height == old(c).height,
        final(c).data@ == spec_put(
            old(c).data@,
            old(c).width as int,
            old(c).height as int,
            x as int,
            y as int,
            color,
        ),
{
    if 0 <= x && (x as usize) < c.width && 0 <= y && (y as usize) < c.height {
        let xi = x as usize;
        let yi = y as usize;
        let n = c.data.len();
        proof {
            let w = c.width as int;
            let h = c.height as int;
            let xx = xi as int;
            let yy = yi as int;
            assert(0 <= yy * w && 0 <= yy * w + xx < w * h) by (nonlinear_arith)
                requires
                    0 <= xx < w,
                    0 <= yy < h,
            ;
            assert(w * h == n as int);
            assert(yy * w + xx < n as int);
        }
        let i = yi * c.width + xi;
        c.data[i] = color;
    }
}

/// The shade a palette maps a 2-bit color to.
pub open spec fn spec_shade(palette: u8, color: u8) -> u8 {
    ((palette >> (color * 2)) & 3) as u8
}

/// A canvas after the first `k` pixels (rows first) of one 8 by 8 tile
/// landed on it at `(tx, ty)`; transparent tile pixels are skipped when
/// `alpha` is set.
pub open spec fn spec_draw_tile_upto(
    data: Seq<u8>,
    vram: Seq<u8>,
    w: int,
    h: int,
    tx: int,
    ty: int,
    index: int,
    palette: u8,
    alpha: bool,
    k: int,
) -> Seq<u8>
    decreases k,
{
    if k <= 0 {
        data
    } else {
        let d = spec_draw_tile_upto(data, vram, w, h, tx, ty, index, palette, alpha, k - 1);
        let y = (k - 1) / 8;
        let x = (k - 1) % 8;
        let a = vram[index * 0x10 + y * 2];
        let b = vram[index * 0x10 + y * 2 + 1];
        let color = spec_bg_pixel(a, b, x);
        if alpha && color == 0 {
            d
        } else {
            spec_put(d, w, h, tx + x, ty + y, spec_shade(palette, color))
        }
    }
}

/// What `draw_tile` leaves on the canvas.
pub open spec fn spec_draw_tile(
    data: Seq<u8>,
    vram: Seq<u8>,
    w: int,
    h: int,
    tx: int,
    ty: int,
    index: int,
    palette: u8,
    alpha: bool,
) -> Seq<u8> {
    spec_draw_tile_upto(data, vram, w, h, tx, ty, index, palette, alpha, 64)
}

/// Draw one 8 by 8 tile of video RAM onto the canvas at `(tx, ty)`,
/// through `palette`; with `alpha`, color 0 is transparent.
pub fn draw_tile(
    ppu: &Ppu,
    canvas: &mut Canvas,
    tx: i32,
    ty: i32,
    index: usize,
    palette: u8,
    alpha: bool,
)
    requires
        ppu.wf(),
        old(canvas).wf(),
        index < 0x180,
        -0x8000 <= tx <= 0x8000,
        -0x8000 <= ty <= 0x8000,
    ensures
        final(canvas).wf(),
        final(canvas).width == old(canvas).width,
        final(canvas).height == old(canvas).height,
        final(canvas).data@ == spec_draw_tile(
            old(canvas).data@,
            ppu@.vram,
            old(canvas).width as int,
            old(canvas).height as int,
            tx as int,
            ty as int,
            index as int,
            palette,
            alpha,
        ),
{
    let i = index * 0x10;
    let mut y: usize = 0;
    while y < 8
        invariant
            y <= 8,
            ppu.wf(),
            canvas.wf(),
            canvas.width == old(canvas).width,
            canvas.height == old(canvas).height,
            i == index * 0x10,
            index < 0x180,
            -0x8000 <= tx <= 0x8000,
            -0x8000 <= ty <= 0x8000,
            canvas.data@ == spec_draw_tile_upto(
                old(canvas).data@,
                ppu@.vram,
                old(canvas).width as int,
                old(canvas).height as int,
                tx as int,
                ty as int,
                index as int,
                palette,
                alpha,
                8 * y,
            ),
        decreases 8 - y,
    {
        let a = ppu.vram[i + y * 2];
        let b = ppu.vram[i + y * 2 + 1];
        let mut x: usize = 0;
        while x < 8
            invariant
                x <= 8,
                y < 8,
                ppu.wf(),
                canvas.wf(),
                canvas.width == old(canvas).width,
                canvas.height == old(canvas).height,
                i == index * 0x10,
                index < 0x180,
                -0x8000 <= tx <= 0x8000,
                -0x8000 <= ty <= 0x8000,
                a == ppu@.vram[index * 0x10 + y * 2],
                b == ppu@.vram[index * 0x10 + y * 2 + 1],
                canvas.data@ == spec_draw_tile_upto(
                    old(canvas).data@,
                    ppu@.vram,
                    old(canvas).width as int,
                    old(canvas).height as int,
                    tx as int,
                    ty as int,
                    index as int,
                    palette,
                    alpha,
                    8 * y + x,
                ),
            decreases 8 - x,
        {
            let shift = (7 - x) as u8;
            let color = (((b >> shift) << 1) & 2) | ((a >> shift) & 1);
            proof {
                let aa = a;
                let bb = b;
                let sh = shift;
                assert((((bb >> sh) << 1) & 2) | ((aa >> sh) & 1) == ((((bb >> sh) & 1) << 1) | ((
                aa >> sh) & 1))) by (bit_vector);
                assert(8 * y + x + 1 - 1 == 8 * y + x);
                assert((8 * y + x) / 8 == y && (8 * y + x) % 8 == x) by (nonlinear_arith)
                    requires
                        0 <= x < 8 && 0 <= y,
                ;
            }
            if alpha && color == 0 {
                // transparent
            } else {
                proof {
                    let cc = color;
                    let aa = a;
                    let bb = b;
                    let sh = shift;
                    assert(cc <= 3) by (bit_vector)
                        requires
                            cc == ((((bb >> sh) << 1) & 2) | ((aa >> sh) & 1)),
                    ;
                }
                let shifted = palette >> (color * 2);
                let shade = shifted & 3;
                put_pixel(canvas, tx + x as i32, ty + y as i32, shade);
            }
            x += 1;
        }
        y += 1;
    }
}

/// A canvas after the first `k` tiles of the tile viewer, sixteen tiles
/// to a row.
pub open spec fn spec_draw_tiles_upto(
    data: Seq<u8>,
    vram: Seq<u8>,
    w: int,
    h: int,
    palette: u8,
    k: int,
) -> Seq<u8>
    decreases k,
{
    if k <= 0 {
        data
    } else {
        let d = spec_draw_tiles_upto(data, vram, w, h, palette, k - 1);
        let i = k - 1;
        spec_draw_tile(d, vram, w, h, 8 * (i % 16), 8 * (i / 16), i, palette, false)
    }
}

/// Draw all 384 tiles of video RAM in a 16-wide grid.
pub fn draw_tiles(ppu: &Ppu, canvas: &mut Canvas, palette: u8)
    requires
        ppu.wf(),
        old(canvas).wf(),
    ensures
        final(canvas).wf(),
        final(canvas).width == old(canvas).width,
        final(canvas).height == old(canvas).height,
        final(canvas).data@ == spec_draw_tiles_upto(
            old(canvas).data@,
            ppu@.vram,
            old(canvas).width as int,
            old(canvas).height as int,
            palette,
            0x180,
        ),
{
    let mut i: usize = 0;
    while i < 0x180
        invariant
            i <= 0x180,
            ppu.wf(),
            canvas.wf(),
            canvas.width == old(canvas).width,
            canvas.height == old(canvas).height,
            canvas.data@ == spec_draw_tiles_upto(
                old(canvas).data@,
                ppu@.vram,
                old(canvas).width as int,
                old(canvas).height as int,
                palette,
                i as int,
            ),
        decreases 0x180 - i,
    {
        let tx = (8 * (i % 16)) as i32;
        let ty = (8 * (i / 16)) as i32;
        draw_tile(ppu, canvas, tx, ty, i, palette, false);
        i += 1;
    }
}

/// The tile a map entry names, folding the signed 0x8800 addressing
/// into an index under 0x180.
pub open spec fn spec_map_tile_index(vram: Seq<u8>, lcdc: u8, map_base: int, i: int) -> int {
    let t = vram[map_base + i] as int;
    if lcdc & 0x10 == 0 {
        if t >= 0x80 {
            t
        } else {
            t + 0x100
        }
    } else {
        t
    }
}

/// A canvas after the first `k` entries of a 32 by 32 tile map.
pub open spec fn spec_draw_map_upto(
    data: Seq<u8>,
    vram: Seq<u8>,
    lcdc: u8,
    map_base: int,
    palette: u8,
    w: int,
    h: int,
    k: int,
) -> Seq<u8>
    decreases k,
{
    if k <= 0 {
        data
    } else {
        let d = spec_draw_map_upto(data, vram, lcdc, map_base, palette, w, h, k - 1);
        let i = k - 1;
        spec_draw_tile(
            d,
            vram,
            w,
            h,
            8 * (i % 32),
            8 * (i / 32),
            spec_map_tile_index(vram, lcdc, map_base, i),
            palette,
            false,
        )
    }
}

/// Draw one full 32 by 32 tile map.
fn draw_map(ppu: &Ppu, canvas: &mut Canvas, map_base: usize)
    requires
        ppu.wf(),
        old(canvas).wf(),
        map_base == 0x1800 || map_base == 0x1C00,
    ensures
        final(canvas).wf(),
        final(canvas).width == old(canvas).width,
        final(canvas).height == old(canvas).height,
        final(canvas).data@ == spec_draw_map_upto(
            old(canvas).data@,
            ppu@.vram,
            ppu.lcdc,
            map_base as int,
            ppu.bgp,
            old(canvas).width as int,
            old(canvas).height as int,
            1024,
        ),
{
    let mut i: usize = 0;
    while i < 1024
        invariant
            i <= 1024,
            ppu.wf(),
            canvas.wf(),
            canvas.width == old(canvas).width,
            canvas.height == old(canvas).height,
            map_base == 0x1800 || map_base == 0x1C00,
            canvas.data@ == spec_draw_map_upto(
                old(canvas).data@,
                ppu@.vram,
                ppu.lcdc,
                map_base as int,
                ppu.bgp,
                old(canvas).width as int,
                old(canvas).height as int,
                i as int,
            ),
        decreases 1024 - i,
    {
        let tx = (8 * (i % 32)) as i32;
        let ty = (8 * (i / 32)) as i32;
        let mut tile = ppu.vram[map_base + i] as usize;
        if ppu.lcdc & 0x10 == 0 {
            if tile < 0x80 {
                tile += 0x100;
            }
        }
        draw_tile(ppu, canvas, tx, ty, tile, ppu.bgp, false);
        i += 1;
    }
}

/// Draw the background's 32 by 32 tile map.
pub fn draw_background(ppu: &Ppu, canvas: &mut Canvas)
    requires
        ppu.wf(),
        old(canvas).wf(),
    ensures
        final(canvas).wf(),
        final(canvas).width == old(canvas).width,
        final(canvas).height == old(canvas).height,
        final(canvas).data@ == spec_draw_map_upto(
            old(canvas).data@,
            ppu@.vram,
            ppu.lcdc,
            if ppu.lcdc & 0x08 != 0 {
                0x1C00int
            } else {
                0x1800int
            },
            ppu.bgp,
            old(canvas).width as int,
            old(canvas).height as int,
            1024,
        ),
{
    let map_base: usize = if ppu.lcdc & 0x08 != 0 {
        0x1C00
    } else {
        0x1800
    };
    draw_map(ppu, canvas, map_base);
}

/// Draw the window's 32 by 32 tile map.
pub fn draw_window(ppu: &Ppu, canvas: &mut Canvas)
    requires
        ppu.wf(),
        old(canvas).wf(),
    ensures
        final(canvas).wf(),
        final(canvas).width == old(canvas).width,
        final(canvas).height == old(canvas).height,
        final(canvas).data@ == spec_draw_map_upto(
            old(canvas).data@,
            ppu@.vram,
            ppu.lcdc,
            if ppu.lcdc & 0x40 != 0 {
                0x1C00int
            } else {
                0x1800int
            },
            ppu.bgp,
            old(canvas).width as int,
            old(canvas).height as int,
            1024,
        ),
{
    let map_base: usize = if ppu.lcdc & 0x40 != 0 {
        0x1C00
    } else {
        0x1800
    };
    draw_map(ppu, canvas, map_base);
}

/// A canvas after the first `k` object table entries, each drawn as one
/// 8 by 8 tile with transparent color 0; entries that start above or
/// left of the screen are skipped.
pub open spec fn spec_draw_sprites_upto(
    data: Seq<u8>,
    vram: Seq<u8>,
    oam: Seq<u8>,
    obp0: u8,
    obp1: u8,
    w: int,
    h: int,
    k: int,
) -> Seq<u8>
    decreases k,
{
    if k <= 0 {
        data
    } else {
        let d = spec_draw_sprites_upto(data, vram, oam, obp0, obp1, w, h, k - 1);
        let i = k - 1;
        let sy = oam[4 * i] as int - 16;
        let sx = oam[4 * i + 1] as int - 8;
        let t = oam[4 * i + 2];
        let f = oam[4 * i + 3];
        let palette = if f & 0x10 != 0 {
            obp1
        } else {
            obp0
        };
        if sy < 0 || sx < 0 {
            d
        } else {
            spec_draw_tile(d, vram, w, h, sx, sy, t as int, palette, true)
        }
    }
}

/// Draw the forty object table entries.
pub fn draw_sprites(ppu: &Ppu, canvas: &mut Canvas)
    requires
        ppu.wf(),
        old(canvas).wf(),
    ensures
        final(canvas).wf(),
        final(canvas).width == old(canvas).width,
        final(canvas).height == old(canvas).height,
        final(canvas).data@ == spec_draw_sprites_upto(
            old(canvas).data@,
            ppu@.vram,
            ppu@.oam,
            ppu.obp0,
            ppu.obp1,
            old(canvas).width as int,
            old(canvas).height as int,
            40,
        ),
{
    let mut i: usize = 0;
    while i < 40
        invariant
            i <= 40,
            ppu.wf(),
            canvas.wf(),
            canvas.width == old(canvas).width,
            canvas.height == old(canvas).height,
            canvas.data@ == spec_draw_sprites_upto(
                old(canvas).data@,
                ppu@.vram,
                ppu@.oam,
                ppu.obp0,
                ppu.obp1,
                old(canvas).width as int,
                old(canvas).height as int,
                i as int,
            ),
        decreases 40 - i,
    {
        let sy = ppu.oam[4 * i] as i32 - 16;
        let sx = ppu.oam[4 * i + 1] as i32 - 8;
        let t = ppu.oam[4 * i + 2];
        let f = ppu.oam[4 * i + 3];
        let palette = if f & 0x10 != 0 {
            ppu.obp1
        } else {
            ppu.obp0
        };
        if sy >= 0 && sx >= 0 {
            draw_tile(ppu, canvas, sx, sy, t as usize, palette, true);
        }
        i += 1;
    }
}

/// Draw what the screen would show of the background and window maps,
/// and the objects over them: the whole-map viewers cropped by the
/// scroll and window registers.
pub fn draw_screen(ppu: &Ppu, canvas: &mut Canvas)
    requires
        ppu.wf(),
        old(canvas).wf(),
    ensures
        final(canvas).wf(),
        final(canvas).width == old(canvas).width,
        final(canvas).height == old(canvas).height,
        forall|i: int|
            0 <= i < final(canvas).data@.len() && final(canvas).data@[i] != old(canvas).data@[i]
                ==> final(canvas).data@[i] < 4,
{
    let ghost d0 = canvas.data@;
    // the background, cropped by the scroll registers
    let xs = ppu.scx / 8;
    let ys = ppu.scy / 8;
    let mut y: u16 = ys as u16;
    while y < (ys as u16) + 19
        invariant
            ppu.wf(),
            canvas.wf(),
            canvas.width == old(canvas).width,
            canvas.height == old(canvas).height,
            ys as u16 <= y <= ys as u16 + 19,
            forall|i: int|
                0 <= i < canvas.data@.len() && canvas.data@[i] != d0[i] ==> canvas.data@[i] < 4,
        decreases (ys as u16) + 19 - y,
    {
        let mut x: u16 = xs as u16;
        while x < (xs as u16) + 21
            invariant
                ppu.wf(),
                canvas.wf(),
                canvas.width == old(canvas).width,
                canvas.height == old(canvas).height,
                y <= (ys as u16) + 19,
                xs as u16 <= x <= xs as u16 + 21,
                forall|i: int|
                    0 <= i < canvas.data@.len() && canvas.data@[i] != d0[i] ==> canvas.data@[i]
                        < 4,
            decreases (xs as u16) + 21 - x,
        {
            let tx = 8 * x as i32 - ppu.scx as i32;
            let ty = 8 * y as i32 - ppu.scy as i32;
            let xm = (x % 32) as usize;
            let ym = (y % 32) as usize;
            let i = xm + ym * 32;
            let map_base: usize = if ppu.lcdc & 0x08 != 0 {
                0x1C00
            } else {
                0x1800
            };
            let mut tile = ppu.vram[map_base + i] as usize;
            if ppu.lcdc & 0x10 == 0 {
                if tile < 0x80 {
                    tile += 0x100;
                }
            }
            let ghost before = canvas.data@;
            draw_tile(ppu, canvas, tx, ty, tile, ppu.bgp, false);
            proof {
                lemma_draw_tile_shades(
                    before,
                    ppu@.vram,
                    canvas.width as int,
                    canvas.height as int,
                    tx as int,
                    ty as int,
                    tile as int,
                    ppu.bgp,
                    false,
                    64,
                );
            }
            x += 1;
        }
        y += 1;
    }
    // the window, if enabled, from its own origin
    if ppu.lcdc & 0x20 != 0 {
        let wx = ppu.wx / 8;
        let wy = ppu.wy / 8;
        let mut y: u16 = 0;
        while y + (wy as u16) < 19
            invariant
                ppu.wf(),
                canvas.wf(),
                canvas.width == old(canvas).width,
                canvas.height == old(canvas).height,
                y <= 19,
                forall|i: int|
                    0 <= i < canvas.data@.len() && canvas.data@[i] != d0[i] ==> canvas.data@[i]
                        < 4,
            decreases 19 - y - (wy as u16),
        {
            let mut x: u16 = 0;
            while x + (wx as u16) < 21
                invariant
                    ppu.wf(),
                    canvas.wf(),
                    canvas.width == old(canvas).width,
                    canvas.height == old(canvas).height,
                    x <= 21,
                    y <= 19,
                    forall|i: int|
                        0 <= i < canvas.data@.len() && canvas.data@[i] != d0[i] ==> canvas.data@[i]
                            < 4,
                decreases 21 - x - (wx as u16),
            {
                let tx = 8 * x as i32 + ppu.wx as i32;
                let ty = 8 * y as i32 + ppu.wy as i32;
                let xm = (x % 32) as usize;
                let ym = (y % 32) as usize;
                let i = xm + ym * 32;
                let map_base: usize = if ppu.lcdc & 0x40 != 0 {
                    0x1C00
                } else {
                    0x1800
                };
                let mut tile = ppu.vram[map_base + i] as usize;
                if ppu.lcdc & 0x10 == 0 {
                    if tile < 0x80 {
                        tile += 0x100;
                    }
                }
                let ghost before = canvas.data@;
                draw_tile(ppu, canvas, tx, ty, tile, ppu.bgp, false);
                proof {
                    lemma_draw_tile_shades(
                        before,
                        ppu@.vram,
                        canvas.width as int,
                        canvas.height as int,
                        tx as int,
                        ty as int,
                        tile as int,
                        ppu.bgp,
                        false,
                        64,
                    );
                }
                x += 1;
            }
            y += 1;
        }
    }
    // the objects, if enabled
    if ppu.lcdc & 0x02 != 0 {
        let ghost before = canvas.data@;
        draw_sprites(ppu, canvas);
        proof {
            lemma_draw_sprites_shades(
                before,
                ppu@.vram,
                ppu@.oam,
                ppu.obp0,
                ppu.obp1,
                canvas.width as int,
                canvas.height as int,
                40,
            );
        }
    }
}

/// Render one whole scanline of the screen buffer at once, from the
/// registers alone: the fast path a frame-at-a-time renderer uses in
/// place of the dot pipeline.  Touches only row `ly`, and writes only
/// shades.
#[verifier::loop_isolation(false)]
#[verifier::rlimit(100)]
pub fn draw_scan_line(ppu: &mut Ppu)
    requires
        old(ppu).wf(),
        old(ppu).ly < 144,
    ensures
        final(ppu).wf(),
        *final(ppu) == (Ppu { screen: final(ppu).screen, ..*old(ppu) }),
        final(ppu)@.screen.len() == 0x5A00,
        forall|i: int|
            0 <= i < 0x5A00 && final(ppu)@.screen[i] != old(ppu)@.screen[i] ==> old(ppu).ly * 160
                <= i < old(ppu).ly * 160 + 160 && final(ppu)@.screen[i] < 4,
{
    let ly = ppu.ly;
    let row = ly as usize * 160;

    // the background, or a blank row with the background disabled
    if ppu.lcdc & 0x01 != 0 {
        let py = ((ppu.scy as u16 + ly as u16) % 256) as u8;
        let mut lx: usize = 0;
        while lx < 160
            invariant
                lx <= 160,
                forall|i: int|
                    0 <= i < 0x5A00 && ppu@.screen[i] != old(ppu)@.screen[i] ==> row <= i < row
                        + 160 && ppu@.screen[i] < 4,
                *ppu == (Ppu { screen: ppu.screen, ..*old(ppu) }),
                ppu@.screen.len() == 0x5A00,
            decreases 160 - lx,
        {
            let px = ((lx as u16 + ppu.scx as u16) % 256) as u8;
            let i = (px as usize / 8) + (py as usize / 8) * 32;
            let map_base: usize = if ppu.lcdc & 0x08 != 0 {
                0x1C00
            } else {
                0x1800
            };
            let mut tile = ppu.vram[map_base + i] as usize;
            if ppu.lcdc & 0x10 == 0 {
                if tile < 0x80 {
                    tile += 0x100;
                }
            }
            let ti = tile * 0x10;
            let y = (py % 8) as usize;
            let a = ppu.vram[ti + y * 2];
            let b = ppu.vram[ti + y * 2 + 1];
            let xb = (7 - (px % 8)) as u8;
            let color = (((b >> xb) << 1) & 2) | ((a >> xb) & 1);
            proof {
                let aa = a;
                let bb = b;
                let sh = xb;
                let cc = ((((bb >> sh) << 1) & 2) | ((aa >> sh) & 1));
                assert(cc <= 3) by (bit_vector)
                    requires
                        cc == ((((bb >> sh) << 1) & 2) | ((aa >> sh) & 1)),
                ;
            }
            let shade = (ppu.bgp >> (color * 2)) & 3;
            proof {
                lemma_u8_and_le(old(ppu).bgp >> (color * 2), 3);
            }
            ppu.screen[row + lx] = shade;
            lx += 1;
        }
    } else {
        let mut lx: usize = 0;
        while lx < 160
            invariant
                lx <= 160,
                forall|i: int|
                    0 <= i < 0x5A00 && ppu@.screen[i] != old(ppu)@.screen[i] ==> row <= i < row
                        + 160 && ppu@.screen[i] < 4,
                *ppu == (Ppu { screen: ppu.screen, ..*old(ppu) }),
                ppu@.screen.len() == 0x5A00,
            decreases 160 - lx,
        {
            ppu.screen[row + lx] = 0;
            lx += 1;
        }
    }

    // the window, where it covers the line
    if ppu.lcdc & 0x21 == 0x21 && ppu.ly >= ppu.wy && ppu.wx <= 166 {
        let py = ppu.wyc;
        let start: usize = if ppu.wx >= 7 {
            (ppu.wx - 7) as usize
        } else {
            0
        };
        let mut lx: usize = start;
        while lx < 160
            invariant
                start <= lx <= 160,
                forall|i: int|
                    0 <= i < 0x5A00 && ppu@.screen[i] != old(ppu)@.screen[i] ==> row <= i < row
                        + 160 && ppu@.screen[i] < 4,
                *ppu == (Ppu { screen: ppu.screen, ..*old(ppu) }),
                ppu@.screen.len() == 0x5A00,
            decreases 160 - lx,
        {
            let px = (lx + 7 - ppu.wx as usize) as u8;
            let i = (px as usize / 8) + (py as usize / 8) * 32;
            let map_base: usize = if ppu.lcdc & 0x40 != 0 {
                0x1C00
            } else {
                0x1800
            };
            let mut tile = ppu.vram[map_base + i] as usize;
            if ppu.lcdc & 0x10 == 0 {
                if tile < 0x80 {
                    tile += 0x100;
                }
            }
            let ti = tile * 0x10;
            let y = (py % 8) as usize;
            let a = ppu.vram[ti + y * 2];
            let b = ppu.vram[ti + y * 2 + 1];
            let xb = (7 - (px % 8)) as u8;
            let color = (((b >> xb) << 1) & 2) | ((a >> xb) & 1);
            proof {
                let aa = a;
                let bb = b;
                let sh = xb;
                let cc = ((((bb >> sh) << 1) & 2) | ((aa >> sh) & 1));
                assert(cc <= 3) by (bit_vector)
                    requires
                        cc == ((((bb >> sh) << 1) & 2) | ((aa >> sh) & 1)),
                ;
            }
            let shade = (ppu.bgp >> (color * 2)) & 3;
            proof {
                lemma_u8_and_le(old(ppu).bgp >> (color * 2), 3);
            }
            ppu.screen[row + lx] = shade;
            lx += 1;
        }
    }

    // the selected objects of this line, if enabled
    if ppu.lcdc & 0x02 != 0 {
        let mut s: usize = 0;
        while s < ppu.sprite_buffer_len as usize
            invariant
                s <= ppu.sprite_buffer_len as usize,
                forall|i: int|
                    0 <= i < 0x5A00 && ppu@.screen[i] != old(ppu)@.screen[i] ==> row <= i < row
                        + 160 && ppu@.screen[i] < 4,
                *ppu == (Ppu { screen: ppu.screen, ..*old(ppu) }),
                ppu@.screen.len() == 0x5A00,
            decreases ppu.sprite_buffer_len as usize - s,
        {
            let sprite = ppu.sprite_buffer[s];
            let sy = sprite.sy as i32 - 16;
            let sx = sprite.sx as i32 - 8;
            let height: i32 = if ppu.lcdc & 0x04 != 0 {
                16
            } else {
                8
            };
            // the sprite row this line crosses, folded into the sprite
            let py0 = (((ly as i32 - sy) % height) + height) % height;
            let py = if sprite.flags & 0x40 != 0 {
                height - 1 - py0
            } else {
                py0
            };
            let tile: usize = if ppu.lcdc & 0x04 != 0 {
                ((sprite.tile & 0xFE) as usize) + (py / 8) as usize
            } else {
                sprite.tile as usize
            };
            proof {
                lemma_u8_and_le(sprite.tile, 0xFE);
            }
            let palette = if sprite.flags & 0x10 != 0 {
                ppu.obp1
            } else {
                ppu.obp0
            };
            let y = (py % 8) as usize;
            let ti = tile * 0x10;
            let a = ppu.vram[ti + y * 2];
            let b = ppu.vram[ti + y * 2 + 1];
            let x0: i32 = if sx < 0 {
                -sx
            } else {
                0
            };
            let x1: i32 = if 160 - sx < 8 {
                160 - sx
            } else {
                8
            };
            let mut x: i32 = x0;
            while x < x1
                invariant
                    x0 <= x,
                    x1 <= 8,
                    0 <= x0,
                    x < x1 ==> 0 <= sx + x < 160,
                    a == ppu@.vram[ti + y * 2],
                    b == ppu@.vram[ti + y * 2 + 1],
                    forall|i: int|
                        0 <= i < 0x5A00 && ppu@.screen[i] != old(ppu)@.screen[i] ==> row <= i < row
                            + 160 && ppu@.screen[i] < 4,
                    *ppu == (Ppu { screen: ppu.screen, ..*old(ppu) }),
                    ppu@.screen.len() == 0x5A00,
                decreases x1 - x,
            {
                let lx = (sx + x) as usize;
                let xb: u8 = if sprite.flags & 0x20 != 0 {
                    x as u8
                } else {
                    (7 - x) as u8
                };
                let color = (((b >> xb) << 1) & 2) | ((a >> xb) & 1);
                proof {
                    let aa = a;
                    let bb = b;
                    let sh = xb;
                    let cc = ((((bb >> sh) << 1) & 2) | ((aa >> sh) & 1));
                    assert(cc <= 3) by (bit_vector)
                        requires
                            cc == ((((bb >> sh) << 1) & 2) | ((aa >> sh) & 1)),
                    ;
                }
                if color != 0 {
                    // behind-background objects yield to lit pixels
                    if !(sprite.flags & 0x80 != 0 && ppu.screen[row + lx] != 0) {
                        let shade = (palette >> (color * 2)) & 3;
                        proof {
                            lemma_u8_and_le(palette >> (color * 2), 3);
                        }
                        ppu.screen[row + lx] = shade;
                    }
                }
                x += 1;
            }
            s += 1;
        }
    }
}

/// Whatever a tile drawing changes on a canvas is a shade.
pub proof fn lemma_draw_tile_shades(
    data: Seq<u8>,
    vram: Seq<u8>,
    w: int,
    h: int,
    tx: int,
    ty: int,
    index: int,
    palette: u8,
    alpha: bool,
    k: int,
)
    requires
        data.len() == w * h,
    ensures
        ({
            let d = spec_draw_tile_upto(data, vram, w, h, tx, ty, index, palette, alpha, k);
            d.len() == data.len() && forall|i: int|
                0 <= i < d.len() && d[i] != data[i] ==> d[i] < 4
        }),
    decreases k,
{
    if k > 0 {
        lemma_draw_tile_shades(data, vram, w, h, tx, ty, index, palette, alpha, k - 1);
        let y = (k - 1) / 8;
        let x = (k - 1) % 8;
        let a = vram[index * 0x10 + y * 2];
        let b = vram[index * 0x10 + y * 2 + 1];
        let color = spec_bg_pixel(a, b, x);
        let p = palette;
        let c = color;
        assert((p >> (c * 2)) & 3 < 4) by (bit_vector);
        let xx = tx + x;
        let yy = ty + y;
        if 0 <= xx < w && 0 <= yy < h {
            assert(0 <= yy * w + xx < w * h) by (nonlinear_arith)
                requires
                    0 <= xx < w,
                    0 <= yy < h,
            ;
        }
    }
}

/// Whatever the object viewer changes on a canvas is a shade.
pub proof fn lemma_draw_sprites_shades(
    data: Seq<u8>,
    vram: Seq<u8>,
    oam: Seq<u8>,
    obp0: u8,
    obp1: u8,
    w: int,
    h: int,
    k: int,
)
    requires
        data.len() == w * h,
    ensures
        ({
            let d = spec_draw_sprites_upto(data, vram, oam, obp0, obp1, w, h, k);
            d.len() == data.len() && forall|i: int|
                0 <= i < d.len() && d[i] != data[i] ==> d[i] < 4
        }),
    decreases k,
{
    if k > 0 {
        lemma_draw_sprites_shades(data, vram, oam, obp0, obp1, w, h, k - 1);
        let d = spec_draw_sprites_upto(data, vram, oam, obp0, obp1, w, h, k - 1);
        let i = k - 1;
        let sy = oam[4 * i] as int - 16;
        let sx = oam[4 * i + 1] as int - 8;
        let t = oam[4 * i + 2];
        let f = oam[4 * i + 3];
        let palette = if f & 0x10 != 0 {
            obp1
        } else {
            obp0
        };
        if !(sy < 0 || sx < 0) {
            lemma_draw_tile_shades(d, vram, w, h, sx, sy, t as int, palette, true, 64);
        }
    }
}

} // verus!
