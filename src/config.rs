use vstd::prelude::*;

use crate::error::{ConfigFault, RangeFault, TileError};
use crate::morton::{lemma_pow_positive, pow4};

verus! {

/// The deepest zoom level: its `4^16` tiles are the most a `u32` Morton index addresses.
pub const MAX_ZOOM: u8 = 16;

/// Relies on RangeInclusive::start: it returns the lower bound of the range.
pub assume_specification<Idx>[ core::ops::RangeInclusive::<Idx>::start ](
    r: &core::ops::RangeInclusive<Idx>,
) -> (ret: &Idx)
    ensures
        *ret == r@.start,
;

/// Relies on RangeInclusive::end: it returns the upper bound of the range.
pub assume_specification<Idx>[ core::ops::RangeInclusive::<Idx>::end ](
    r: &core::ops::RangeInclusive<Idx>,
) -> (ret: &Idx)
    ensures
        *ret == r@.end,
;

/// Tiles of the levels `lo .. z` (`z` excluded), which come before level `z`
/// in the global sequence of a zoom range starting at `lo`.
pub open spec fn tiles_between(lo: nat, z: nat) -> nat
    decreases z,
{
    if z <= lo {
        0
    } else {
        tiles_between(lo, (z - 1) as nat) + pow4((z - 1) as nat)
    }
}

/// Tiles of all levels of the zoom range `[lo, hi]`.
pub open spec fn total_tiles(lo: nat, hi: nat) -> nat {
    tiles_between(lo, hi + 1)
}

/// In the global sequence of a zoom range starting at `lo`, global index `g`
/// is the tile at local index `local` of level `z`.
pub open spec fn locates(lo: nat, z: nat, local: nat, g: nat) -> bool {
    &&& lo <= z
    &&& local < pow4(z)
    &&& g == tiles_between(lo, z) + local
}

/// The bounds of an optional inclusive range, as a pair.
pub open spec fn bounds_of(r: Option<core::ops::RangeInclusive<u32>>) -> Option<(u32, u32)> {
    match r {
        Some(t) => Some((t@.start, t@.end)),
        None => None,
    }
}

/// Why a pyramid cannot be planned from these inputs, checked in this order;
/// `None` when it can. The target range `(s, e)` selects the global tiles
/// `s .. e`, `e` excluded.
pub open spec fn plan_fault(
    tilesize: u32,
    zoomlevel: u8,
    zoom_start: u8,
    zoom_end: u8,
    target: Option<(u32, u32)>,
) -> Option<TileError> {
    if zoom_start > zoom_end {
        Some(TileError::Range(RangeFault::InvertedZoom { zoom_start, zoom_end }))
    } else if zoom_end > zoomlevel {
        Some(TileError::Config(ConfigFault::ZoomBeyondLevel { zoom_end, zoomlevel }))
    } else if zoomlevel > MAX_ZOOM {
        Some(TileError::Config(ConfigFault::ZoomTooDeep { zoomlevel }))
    } else if tilesize == 0 {
        Some(TileError::Config(ConfigFault::ZeroTileSize))
    } else {
        match target {
            None => None,
            Some((s, e)) => if e <= s {
                Some(TileError::Range(RangeFault::EmptyTarget { target_start: s, target_end: e }))
            } else if e > total_tiles(zoom_start as nat, zoom_end as nat) {
                Some(
                    TileError::Range(
                        RangeFault::TargetBeyondTiles {
                            target_last: e,
                            total: total_tiles(zoom_start as nat, zoom_end as nat) as u64,
                        },
                    ),
                )
            } else {
                None
            },
        }
    }
}

/// A resolved pyramid: the source, its tile size and base zoom level, and the
/// first and last tile to produce, each as a zoom level and a Morton index
/// local to that level.
pub struct Config {
    pub filename: String,
    pub tilesize: u32,
    pub zoomlevel: u8,
    pub startzoomrangetoslice: u8,
    pub endzoomrangetoslice: u8,
    pub starttargetrange: u32,
    pub endtargetrange: u32,
}

/// The local index range of level `z` in a plan that runs from local index
/// `start_idx` of level `start` to local index `end_idx` of level `end`:
/// partial at the first and last level, whole in between, `None` outside.
/// A level of a single tile is never left with an empty range: at the edge of
/// a plan it is `[0, 0]`, like any level whose one tile the plan covers.
pub open spec fn level_range(start: u8, start_idx: u32, end: u8, end_idx: u32, z: u8) -> Option<(nat, nat)> {
    if z < start || z > end || z > MAX_ZOOM {
        None
    } else if start == end {
        Some((start_idx as nat, end_idx as nat))
    } else if z == start {
        Some((start_idx as nat, (pow4(z as nat) - 1) as nat))
    } else if z == end {
        Some((0, end_idx as nat))
    } else {
        Some((0, (pow4(z as nat) - 1) as nat))
    }
}

impl Config {
    /// The plan is consistent: its levels lie within the base zoom level and
    /// its local indices within their levels, in order.
    pub open spec fn wf(&self) -> bool {
        &&& self.tilesize > 0
        &&& self.startzoomrangetoslice <= self.endzoomrangetoslice
        &&& self.endzoomrangetoslice <= self.zoomlevel <= MAX_ZOOM
        &&& self.starttargetrange < pow4(self.startzoomrangetoslice as nat)
        &&& self.endtargetrange < pow4(self.endzoomrangetoslice as nat)
        &&& self.startzoomrangetoslice == self.endzoomrangetoslice ==> self.starttargetrange
            <= self.endtargetrange
    }

    /// The local index range that level `z` contributes to this plan.
    pub open spec fn spec_level_range(&self, z: u8) -> Option<(nat, nat)> {
        level_range(
            self.startzoomrangetoslice,
            self.starttargetrange,
            self.endzoomrangetoslice,
            self.endtargetrange,
            z,
        )
    }
}

proof fn lemma_pow4_monotone(a: nat, b: nat)
    requires
        a <= b,
    ensures
        pow4(a) <= pow4(b),
    decreases b,
{
    if a < b {
        lemma_pow4_monotone(a, (b - 1) as nat);
        lemma_pow_positive((b - 1) as nat);
    }
}

/// Every level up to the deepest has at most `2^32` tiles.
pub(crate) proof fn lemma_pow4_max(z: nat)
    requires
        z <= MAX_ZOOM,
    ensures
        1 <= pow4(z) <= 4294967296,
{
    lemma_pow4_monotone(z, 16);
    lemma_pow_positive(z);
    reveal_with_fuel(pow4, 17);
}

/// The levels before `z` hold fewer tiles than level `z` alone.
proof fn lemma_tiles_between_bound(lo: nat, z: nat)
    ensures
        tiles_between(lo, z) < pow4(z),
    decreases z,
{
    lemma_pow_positive(z);
    if z > lo {
        lemma_tiles_between_bound(lo, (z - 1) as nat);
    }
}

/// Each further level adds its own tiles.
proof fn lemma_tiles_between_step(lo: nat, z: nat)
    requires
        lo <= z,
    ensures
        tiles_between(lo, z + 1) == tiles_between(lo, z) + pow4(z),
{
}

/// Tiles before a level only grow with the level.
proof fn lemma_tiles_between_monotone(lo: nat, a: nat, b: nat)
    requires
        lo <= a <= b,
    ensures
        tiles_between(lo, a) <= tiles_between(lo, b),
        a < b ==> tiles_between(lo, a) + pow4(a) <= tiles_between(lo, b),
    decreases b,
{
    if a < b {
        lemma_tiles_between_monotone(lo, a, (b - 1) as nat);
        lemma_tiles_between_step(lo, (b - 1) as nat);
        lemma_pow_positive((b - 1) as nat);
    }
}

/// A global index has one place in the sequence: one level and one local index.
pub proof fn lemma_locates_unique(lo: nat, z1: nat, l1: nat, z2: nat, l2: nat, g: nat)
    requires
        locates(lo, z1, l1, g),
        locates(lo, z2, l2, g),
    ensures
        z1 == z2,
        l1 == l2,
{
    if z1 < z2 {
        lemma_tiles_between_monotone(lo, z1, z2);
    } else if z2 < z1 {
        lemma_tiles_between_monotone(lo, z2, z1);
    }
}

/// The number of tiles of level `z`, that is `4^z`.
fn level_tiles(z: u8) -> (r: u64)
    requires
        z <= MAX_ZOOM,
    ensures
        r as nat == pow4(z as nat),
{
    let mut r: u64 = 1;
    let mut i: u8 = 0;
    while i < z
        invariant
            i <= z <= MAX_ZOOM,
            r as nat == pow4(i as nat),
        decreases z - i,
    {
        proof {
            lemma_pow4_max((i + 1) as nat);
        }
        r = r * 4;
        i = i + 1;
    }
    r
}

/// The tiles of all levels `[lo, hi]`.
fn count_tiles(lo: u8, hi: u8) -> (r: u64)
    requires
        lo <= hi <= MAX_ZOOM,
    ensures
        r as nat == total_tiles(lo as nat, hi as nat),
{
    let mut sum: u64 = 0;
    let mut z: u8 = lo;
    while z <= hi
        invariant
            lo <= z <= hi + 1,
            hi <= MAX_ZOOM,
            sum as nat == tiles_between(lo as nat, z as nat),
        decreases hi + 1 - z,
    {
        proof {
            lemma_pow4_max(z as nat);
            lemma_tiles_between_bound(lo as nat, z as nat);
            lemma_tiles_between_step(lo as nat, z as nat);
        }
        sum = sum + level_tiles(z);
        z = z + 1;
    }
    sum
}

/// The level and local index of global index `g`, which must fall inside `[lo, hi]`.
fn locate(lo: u8, hi: u8, g: u64) -> (r: (u8, u64))
    requires
        lo <= hi <= MAX_ZOOM,
        g < total_tiles(lo as nat, hi as nat),
    ensures
        lo <= r.0 <= hi,
        r.1 <= g,
        locates(lo as nat, r.0 as nat, r.1 as nat, g as nat),
{
    let mut z: u8 = lo;
    let mut sum: u64 = 0;
    let mut cur: u64 = level_tiles(lo);
    proof {
        lemma_pow4_max(lo as nat);
    }
    while sum + cur <= g
        invariant
            lo <= z <= hi <= MAX_ZOOM,
            sum as nat == tiles_between(lo as nat, z as nat),
            cur as nat == pow4(z as nat),
            sum < cur <= 4294967296,
            sum <= g,
            g < total_tiles(lo as nat, hi as nat),
        decreases hi - z,
    {
        proof {
            lemma_tiles_between_step(lo as nat, z as nat);
            if z < hi {
                lemma_tiles_between_monotone(lo as nat, (z + 1) as nat, (hi + 1) as nat);
            }
            lemma_pow4_max((z + 1) as nat);
            lemma_tiles_between_bound(lo as nat, (z + 1) as nat);
        }
        sum = sum + cur;
        cur = cur * 4;
        z = z + 1;
    }
    (z, g - sum)
}

impl Config {
    /// Resolves a pyramid over `zoomrange` at base zoom `zoomlevel`. Without
    /// a target range the plan covers every tile of every level of the zoom
    /// range. A target range `[s, e]` selects the global tiles `s .. e` (`e`
    /// excluded) of the sequence that lists each level's tiles in Morton
    /// order, level after level; the plan then runs from the level and local
    /// index of tile `s` to those of tile `e - 1`.
    pub fn new(
        filename: &str,
        tilesize: u32,
        zoomlevel: u8,
        zoomrange: core::ops::RangeInclusive<u8>,
        targetrange: Option<core::ops::RangeInclusive<u32>>,
    ) -> (r: Result<Config, TileError>)
        ensures
            match r {
                Err(e) => plan_fault(
                    tilesize,
                    zoomlevel,
                    zoomrange@.start,
                    zoomrange@.end,
                    bounds_of(targetrange),
                ) == Some(e),
                Ok(c) => {
                    let lo = zoomrange@.start as nat;
                    let hi = zoomrange@.end as nat;
                    &&& plan_fault(
                        tilesize,
                        zoomlevel,
                        zoomrange@.start,
                        zoomrange@.end,
                        bounds_of(targetrange),
                    ) is None
                    &&& c.wf()
                    &&& c.filename@ == filename@
                    &&& c.tilesize == tilesize
                    &&& c.zoomlevel == zoomlevel
                    &&& lo <= c.startzoomrangetoslice <= c.endzoomrangetoslice <= hi
                    &&& match bounds_of(targetrange) {
                        None => {
                            &&& c.startzoomrangetoslice == lo
                            &&& c.starttargetrange == 0
                            &&& c.endzoomrangetoslice == hi
                            &&& c.endtargetrange == pow4(hi) - 1
                        },
                        Some((s, e)) => {
                            &&& locates(lo, c.startzoomrangetoslice as nat, c.starttargetrange as nat, s as nat)
                            &&& locates(lo, c.endzoomrangetoslice as nat, c.endtargetrange as nat, (e - 1) as nat)
                        },
                    }
                },
            },
    {
        let lo: u8 = *zoomrange.start();
        let hi: u8 = *zoomrange.end();
        if lo > hi {
            return Err(TileError::Range(RangeFault::InvertedZoom { zoom_start: lo, zoom_end: hi }));
        }
        if hi > zoomlevel {
            return Err(TileError::Config(ConfigFault::ZoomBeyondLevel { zoom_end: hi, zoomlevel }));
        }
        if zoomlevel > MAX_ZOOM {
            return Err(TileError::Config(ConfigFault::ZoomTooDeep { zoomlevel }));
        }
        if tilesize == 0 {
            return Err(TileError::Config(ConfigFault::ZeroTileSize));
        }
        let total = count_tiles(lo, hi);
        let (startzoom, startidx, endzoom, endidx) = match &targetrange {
            None => {
                proof {
                    lemma_pow4_max(hi as nat);
                    lemma_pow_positive(lo as nat);
                }
                (lo, 0u32, hi, (level_tiles(hi) - 1) as u32)
            },
            Some(t) => {
                let s: u32 = *t.start();
                let e: u32 = *t.end();
                if e <= s {
                    return Err(TileError::Range(RangeFault::EmptyTarget { target_start: s, target_end: e }));
                }
                if e as u64 > total {
                    return Err(
                        TileError::Range(RangeFault::TargetBeyondTiles { target_last: e, total }),
                    );
                }
                let (sz, si) = locate(lo, hi, s as u64);
                let (ez, ei) = locate(lo, hi, (e - 1) as u64);
                proof {
                    if sz > ez {
                        lemma_tiles_between_monotone(lo as nat, ez as nat, sz as nat);
                    }
                }
                (sz, si as u32, ez, ei as u32)
            },
        };
        proof {
            lemma_pow4_max(hi as nat);
            lemma_pow_positive(hi as nat);
        }
        Ok(
            Config {
                filename: filename.to_owned(),
                tilesize,
                zoomlevel,
                startzoomrangetoslice: startzoom,
                endzoomrangetoslice: endzoom,
                starttargetrange: startidx,
                endtargetrange: endidx,
            },
        )
    }
}

impl Config {
    /// The local index range to slice at level `z`: from the plan's first
    /// local index at its first level, up to its last local index at its last
    /// level, and the whole level in between; `None` for a level outside the plan.
    pub fn target_range_for(&self, z: u8) -> (r: Option<core::ops::RangeInclusive<u32>>)
        ensures
            match (r, self.spec_level_range(z)) {
                (None, None) => true,
                (Some(t), Some((a, b))) => t@.start == a && t@.end == b,
                _ => false,
            },
    {
        let start = self.startzoomrangetoslice;
        let end = self.endzoomrangetoslice;
        if z < start || z > end || z > MAX_ZOOM {
            return None;
        }
        proof {
            lemma_pow4_max(z as nat);
        }
        let last: u32 = (level_tiles(z) - 1) as u32;
        if start == end {
            Some(core::ops::RangeInclusive::new(self.starttargetrange, self.endtargetrange))
        } else if z == start {
            Some(core::ops::RangeInclusive::new(self.starttargetrange, last))
        } else if z == end {
            Some(core::ops::RangeInclusive::new(0, self.endtargetrange))
        } else {
            Some(core::ops::RangeInclusive::new(0, last))
        }
    }
}

/// A target range that holds more tiles than the whole zoom range is refused
/// as a range error, whatever else it says.
pub proof fn lemma_oversized_target_refused(
    tilesize: u32,
    zoomlevel: u8,
    zoom_start: u8,
    zoom_end: u8,
    target_start: u32,
    target_end: u32,
)
    requires
        zoom_start <= zoom_end <= zoomlevel <= MAX_ZOOM,
        tilesize > 0,
        target_end - target_start > total_tiles(zoom_start as nat, zoom_end as nat),
    ensures
        plan_fault(tilesize, zoomlevel, zoom_start, zoom_end, Some((target_start, target_end))) matches Some(
            TileError::Range(_),
        ),
{
}

/// Without a target range, the plan starts at the first tile of the first
/// level of the zoom range and ends at the last tile of its last level.
pub proof fn lemma_full_plan_covers_zoom_range(c: Config, zoom_start: u8, zoom_end: u8)
    requires
        c.startzoomrangetoslice == zoom_start,
        c.starttargetrange == 0,
        c.endzoomrangetoslice == zoom_end,
        c.endtargetrange == pow4(zoom_end as nat) - 1,
        zoom_start <= zoom_end <= MAX_ZOOM,
    ensures
        locates(zoom_start as nat, zoom_start as nat, 0, 0),
        locates(
            zoom_start as nat,
            zoom_end as nat,
            c.endtargetrange as nat,
            (total_tiles(zoom_start as nat, zoom_end as nat) - 1) as nat,
        ),
        forall|z: u8|
            zoom_start < z < zoom_end ==> #[trigger] c.spec_level_range(z) == Some(
                (0nat, (pow4(z as nat) - 1) as nat),
            ),
{
    lemma_pow_positive(zoom_start as nat);
    lemma_pow_positive(zoom_end as nat);
    lemma_tiles_between_step(zoom_start as nat, zoom_end as nat);
}

} // verus!
