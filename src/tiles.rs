use vstd::prelude::*;

use crate::config::{bounds_of, lemma_pow4_max, Config, MAX_ZOOM};
use crate::error::TileError;
use crate::morton::{
    coord_of, interleave, lemma_morton_bijection, lemma_pow_positive, morton_coord, morton_x,
    morton_y, pow2, pow4,
};
use crate::raster::{block_fits, block_of, Raster, RasterView};
use crate::resize::{check_source, resample, resampled, source_fault};

verus! {

/// The source image of a pyramid, together with the pyramid's plan.
pub struct TileImage {
    pub config: Config,
    pub img: Raster,
}

/// Tiles in the grid that cuts `v` into `tilesize` squares.
pub open spec fn grid_tiles(v: RasterView, tilesize: u32) -> nat {
    if tilesize == 0 {
        0
    } else {
        (v.width / tilesize) as nat * (v.height / tilesize) as nat
    }
}

/// Whether Morton index `i` names a tile of `v`: a `u32` index whose
/// `tilesize` square lies inside the image.
pub open spec fn tile_at(v: RasterView, tilesize: u32, i: nat) -> bool {
    &&& i <= u32::MAX
    &&& tilesize > 0
    &&& block_fits(v, morton_x(i) * (tilesize as nat), morton_y(i) * (tilesize as nat), tilesize as nat)
}

/// Cuts an image into tiles in Morton order, over a range of local indices.
pub struct TilesIterator<'d> {
    img: &'d Raster,
    morton_idx: u64,
    stop: u64,
    tilesize: u32,
}

impl<'d> TilesIterator<'d> {
    /// The image being cut.
    pub closed spec fn source(&self) -> RasterView {
        self.img@
    }

    /// The Morton index of the next tile.
    pub closed spec fn cursor(&self) -> nat {
        self.morton_idx as nat
    }

    /// The Morton index at which cutting stops.
    pub closed spec fn stop(&self) -> nat {
        self.stop as nat
    }

    /// The side of a tile in pixels.
    pub closed spec fn tile_size(&self) -> u32 {
        self.tilesize
    }

    /// The next tile with its grid position `(x, y)`: the one at the cursor,
    /// if the cursor is before the stop and its square lies inside the image.
    /// Otherwise `None`, and the cursor stays.
    pub fn next(&mut self) -> (r: Option<(Raster, u32, u32)>)
        ensures
            final(self).source() == old(self).source(),
            final(self).stop() == old(self).stop(),
            final(self).tile_size() == old(self).tile_size(),
            ({
                let i = old(self).cursor();
                let ts = old(self).tile_size();
                let (x, y) = morton_coord(i);
                if i < old(self).stop() && tile_at(old(self).source(), ts, i) {
                    &&& final(self).cursor() == i + 1
                    &&& r matches Some(t) && t.0@ == block_of(
                        old(self).source(),
                        x * (ts as nat),
                        y * (ts as nat),
                        ts as nat,
                    ) && t.1 == x && t.2 == y
                } else {
                    &&& final(self).cursor() == i
                    &&& r is None
                }
            }),
    {
        let ts = self.tilesize;
        if self.morton_idx >= self.stop || self.morton_idx > u32::MAX as u64 || ts == 0 {
            return None;
        }
        let (x, y) = coord_of(self.morton_idx as u32);
        proof {
            assert(x * ts + ts <= u64::MAX && y * ts + ts <= u64::MAX) by (nonlinear_arith)
                requires x <= u32::MAX, y <= u32::MAX, ts <= u32::MAX;
        }
        let left: u64 = x as u64 * ts as u64;
        let top: u64 = y as u64 * ts as u64;
        if left + ts as u64 > self.img.width() as u64 || top + ts as u64 > self.img.height() as u64 {
            return None;
        }
        let tile = self.img.crop(left as u32, top as u32, ts);
        self.morton_idx = self.morton_idx + 1;
        Some((tile, x, y))
    }
}

impl TileImage {
    /// Takes `img` as the source of the pyramid `config` describes, once it
    /// has passed the source check.
    pub fn new(config: Config, img: Raster) -> (r: Result<TileImage, TileError>)
        ensures
            match source_fault(config, img@) {
                Some(e) => r matches Err(x) && x == e,
                None => r matches Ok(t) && t.config == config && t.img@ == img@,
            },
    {
        match check_source(&config, &img) {
            Err(e) => Err(e),
            Ok(()) => Ok(TileImage { config, img }),
        }
    }

    /// The source resampled to `width` by `height`, after the source check.
    pub fn resize(&self, width: u32, height: u32) -> (r: Result<Raster, TileError>)
        requires
            width > 0 && height > 0,
            width as nat * height as nat * self.img@.channels as nat <= usize::MAX,
        ensures
            match source_fault(self.config, self.img@) {
                Some(e) => r matches Err(x) && x == e,
                None => r matches Ok(t) && t@ == resampled(self.img@, width, height),
            },
    {
        match check_source(&self.config, &self.img) {
            Err(e) => Err(e),
            Ok(()) => {
                let w = self.img.width();
                proof {
                    lemma_pow_positive(self.config.zoomlevel as nat);
                    assert(w > 0) by (nonlinear_arith)
                        requires w == self.config.tilesize * pow2(self.config.zoomlevel as nat),
                            pow2(self.config.zoomlevel as nat) >= 1, self.config.tilesize > 0;
                }
                Ok(resample(&self.img, width, height))
            },
        }
    }

    /// Cuts `img`, an image of one level, into tiles of the configured size:
    /// over the local indices of `targetrangetoslice` if given, else over the
    /// whole grid.
    pub fn iter_tiles<'d>(
        &self,
        img: &'d Raster,
        targetrangetoslice: Option<core::ops::RangeInclusive<u32>>,
    ) -> (r: TilesIterator<'d>)
        ensures
            r.source() == img@,
            r.tile_size() == self.config.tilesize,
            match bounds_of(targetrangetoslice) {
                Some((a, b)) => r.cursor() == a && r.stop() == b + 1,
                None => r.cursor() == 0 && r.stop() == grid_tiles(img@, self.config.tilesize),
            },
    {
        let ts = self.config.tilesize;
        let (morton_idx, stop) = match &targetrangetoslice {
            Some(t) => (*t.start() as u64, *t.end() as u64 + 1),
            None => {
                if ts == 0 {
                    (0u64, 0u64)
                } else {
                    let across = (img.width() / ts) as u64;
                    let down = (img.height() / ts) as u64;
                    proof {
                        assert(across * down <= u64::MAX) by (nonlinear_arith)
                            requires across <= u32::MAX, down <= u32::MAX;
                    }
                    (0u64, across * down)
                }
            },
        };
        TilesIterator { img, morton_idx, stop, tilesize: ts }
    }
}

/// Slicing the whole local range `[0, 4^z - 1]` of a level image, in Morton
/// order, visits every grid position `(x, y)` in `[0, 2^z) x [0, 2^z)` exactly
/// once: the grid holds `4^z` tiles, every index of the range names a tile
/// inside the image at a grid position, every grid position has an index in
/// the range (its interleaved coordinates), and distinct indices name distinct positions.
pub proof fn lemma_full_level_slice(v: RasterView, tilesize: u32, z: nat)
    requires
        tilesize > 0,
        z <= MAX_ZOOM,
        v.width == tilesize * pow2(z),
        v.height == tilesize * pow2(z),
    ensures
        grid_tiles(v, tilesize) == pow4(z),
        forall|i: nat|
            i < pow4(z) ==> #[trigger] tile_at(v, tilesize, i) && morton_x(i) < pow2(z) && morton_y(i)
                < pow2(z),
        forall|x: nat, y: nat|
            x < pow2(z) && y < pow2(z) ==> #[trigger] interleave(x, y) < pow4(z) && morton_coord(
                interleave(x, y),
            ) == (x, y),
        forall|i: nat, j: nat|
            i < pow4(z) && j < pow4(z) && #[trigger] morton_coord(i) == #[trigger] morton_coord(j) ==> i == j,
{
    lemma_morton_bijection(z);
    lemma_pow_positive(z);
    let side = pow2(z);
    assert(v.width / tilesize == side) by (nonlinear_arith)
        requires v.width == tilesize * side, tilesize > 0;
    assert(grid_tiles(v, tilesize) == pow4(z));
    lemma_pow4_max(z);
    assert forall|i: nat| i < pow4(z) implies #[trigger] tile_at(v, tilesize, i) && morton_x(i) < pow2(z)
        && morton_y(i) < pow2(z) by {
        assert(morton_x(i) < side && morton_y(i) < side);
        let x = morton_x(i);
        let y = morton_y(i);
        assert(x * tilesize + tilesize <= tilesize * side) by (nonlinear_arith)
            requires x + 1 <= side, tilesize > 0;
        assert(y * tilesize + tilesize <= tilesize * side) by (nonlinear_arith)
            requires y + 1 <= side, tilesize > 0;
    }
}

} // verus!
