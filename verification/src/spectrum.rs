//! Which spectrum bins feed the bass, mid and high colour bands.
//!
//! The magnitudes of a spectrum are taken in order: the bass band takes the
//! first `bass_bands` bins, the mid band the next `mid_bands` bins, and the
//! high band the next `high_bands` bins, or as many as are left. With the
//! default counts of 4, 100 and 664 the bands tile the 768 bins of the
//! unmirrored half of a 1536-bin spectrum.

use vstd::prelude::*;

verus! {

/// Number of spectrum bins each colour frame is computed from.
pub const FFT_LEN: usize = 1536;

/// A half-open range of spectrum bins, `start` included and `end` excluded.
#[derive(Debug, Clone, Copy, PartialEq, Eq)]
pub struct BinRange {
    pub start: usize,
    pub end: usize,
}

/// The bins of the three bands.
#[derive(Debug, Clone, Copy, PartialEq, Eq)]
pub struct BandBins {
    pub bass: BinRange,
    pub mid: BinRange,
    pub high: BinRange,
}

/// The number of bins of each of the three colour bands.
#[derive(Debug, Clone, Copy, PartialEq, Eq)]
pub struct BandLayout {
    pub bass_bands: usize,
    pub mid_bands: usize,
    pub high_bands: usize,
}

impl Default for BandLayout {
    /// The layout of the light show: 4 bass, 100 mid and 664 high bins.
    fn default() -> (layout: BandLayout)
        ensures
            layout == (BandLayout { bass_bands: 4, mid_bands: 100, high_bands: 664 }),
    {
        BandLayout { bass_bands: 4, mid_bands: 100, high_bands: 664 }
    }
}

impl BandLayout {
    /// The bins of the three bands in a spectrum of `n_bins` bins.
    pub open spec fn spec_bins(self, n_bins: usize) -> BandBins {
        let b = self.bass_bands as int;
        let m = b + self.mid_bands;
        let h = if m + self.high_bands <= n_bins {
            m + self.high_bands
        } else {
            n_bins as int
        };
        BandBins {
            bass: BinRange { start: 0, end: b as usize },
            mid: BinRange { start: b as usize, end: m as usize },
            high: BinRange { start: m as usize, end: h as usize },
        }
    }

    /// The bins of the three bands in a spectrum of `n_bins` bins; the bass
    /// and mid bands must find all their bins there.
    pub fn bins(&self, n_bins: usize) -> (bins: BandBins)
        requires
            self.bass_bands + self.mid_bands <= n_bins,
        ensures
            bins == self.spec_bins(n_bins),
    {
        let b = self.bass_bands;
        let m = b + self.mid_bands;
        let h = if self.high_bands <= n_bins - m {
            m + self.high_bands
        } else {
            n_bins
        };
        BandBins {
            bass: BinRange { start: 0, end: b },
            mid: BinRange { start: b, end: m },
            high: BinRange { start: m, end: h },
        }
    }
}

/// The bands follow each other without gaps or overlaps from the first bin:
/// the bass and mid bands have their full counts, and the high band has its
/// full count or runs to the last bin.
pub proof fn lemma_bands_adjacent(layout: BandLayout, n_bins: usize)
    requires
        layout.bass_bands + layout.mid_bands <= n_bins,
    ensures
        ({
            let bins = layout.spec_bins(n_bins);
            &&& bins.bass.start == 0
            &&& bins.bass.end == bins.mid.start
            &&& bins.mid.end == bins.high.start
            &&& bins.bass.end - bins.bass.start == layout.bass_bands
            &&& bins.mid.end - bins.mid.start == layout.mid_bands
            &&& bins.high.start <= bins.high.end <= n_bins
            &&& (bins.high.end - bins.high.start == layout.high_bands || bins.high.end == n_bins)
        }),
{
}

/// The default bands tile the unmirrored half of a full spectrum.
pub proof fn lemma_default_bands_tile_half_spectrum()
    ensures
        ({
            let bins = (BandLayout { bass_bands: 4, mid_bands: 100, high_bands: 664 }).spec_bins(
                FFT_LEN,
            );
            &&& bins.bass == (BinRange { start: 0, end: 4 })
            &&& bins.mid == (BinRange { start: 4, end: 104 })
            &&& bins.high == (BinRange { start: 104, end: 768 })
            &&& bins.high.end == FFT_LEN / 2
        }),
{
}

} // verus!
