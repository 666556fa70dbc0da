use lightshow::spectrum::{BandLayout, BinRange, FFT_LEN};

#[test]
fn default_layout_bins_tile_half_the_spectrum() {
    let layout = BandLayout::default();
    assert_eq!(layout, BandLayout { bass_bands: 4, mid_bands: 100, high_bands: 664 });
    let bins = layout.bins(FFT_LEN);
    assert_eq!(bins.bass, BinRange { start: 0, end: 4 });
    assert_eq!(bins.mid, BinRange { start: 4, end: 104 });
    assert_eq!(bins.high, BinRange { start: 104, end: 768 });
    assert_eq!(bins.high.end, FFT_LEN / 2);
}

#[test]
fn bin_three_is_a_bass_bin() {
    let bins = BandLayout::default().bins(FFT_LEN);
    assert!(bins.bass.start <= 3 && 3 < bins.bass.end);
}

#[test]
fn high_band_stops_at_the_last_bin() {
    let bins = BandLayout::default().bins(200);
    assert_eq!(bins.high, BinRange { start: 104, end: 200 });
    let bins = BandLayout::default().bins(104);
    assert_eq!(bins.high, BinRange { start: 104, end: 104 });
}

#[test]
fn empty_bands() {
    let layout = BandLayout { bass_bands: 0, mid_bands: 0, high_bands: 5 };
    let bins = layout.bins(10);
    assert_eq!(bins.bass, BinRange { start: 0, end: 0 });
    assert_eq!(bins.mid, BinRange { start: 0, end: 0 });
    assert_eq!(bins.high, BinRange { start: 0, end: 5 });
    let layout = BandLayout { bass_bands: 9, mid_bands: 0, high_bands: 1 };
    let bins = layout.bins(9);
    assert_eq!(bins.bass, BinRange { start: 0, end: 9 });
    assert_eq!(bins.mid, BinRange { start: 9, end: 9 });
    assert_eq!(bins.high, BinRange { start: 9, end: 9 });
}
