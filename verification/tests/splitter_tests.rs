use fractal_core::band_heights;
use fractal_core::export_status;
use fractal_core::interactive_workers;
use fractal_core::throughput_workers;
use fractal_core::ExportResult;

#[test]
fn splits_evenly_when_divisible() {
    let bands = band_heights(512, 8);
    assert_eq!(bands.len(), 8);
    for h in &bands {
        assert_eq!(*h, 64);
    }
}

#[test]
fn remainder_goes_to_last_band() {
    let bands = band_heights(100, 8);
    assert_eq!(bands.len(), 8);
    for h in &bands[..7] {
        assert_eq!(*h, 12);
    }
    assert_eq!(bands[7], 16);
}

#[test]
fn single_worker_takes_whole_image() {
    let bands = band_heights(737, 1);
    assert_eq!(bands, vec![737]);
}

#[test]
fn more_workers_than_rows() {
    let bands = band_heights(5, 8);
    assert_eq!(bands.len(), 8);
    for h in &bands[..7] {
        assert_eq!(*h, 0);
    }
    assert_eq!(bands[7], 5);
}

#[test]
fn band_heights_always_sum_to_image_height() {
    let mut seed: u64 = 0x2545_f491_4f6c_dd1d;
    for _ in 0..500 {
        seed = seed.wrapping_mul(6364136223846793005).wrapping_add(1442695040888963407);
        let height = (seed >> 16) as u32 % 5000;
        let workers = 1 + ((seed >> 40) as u32 % 64);
        let bands = band_heights(height, workers);
        assert_eq!(bands.len(), workers as usize);
        let sum: u64 = bands.iter().map(|h| *h as u64).sum();
        assert_eq!(sum, height as u64, "height {height} workers {workers}");
    }
}

#[test]
fn export_oversubscribes_cores() {
    assert_eq!(throughput_workers(1), 4);
    assert_eq!(throughput_workers(6), 24);
}

#[test]
fn preview_spares_one_core() {
    assert_eq!(interactive_workers(1), 1);
    assert_eq!(interactive_workers(2), 1);
    assert_eq!(interactive_workers(8), 7);
}

#[test]
fn export_outcomes() {
    assert!(matches!(export_status(false, false), ExportResult::ErrorBadFileType));
    assert!(matches!(export_status(false, true), ExportResult::ErrorBadFileType));
    assert!(matches!(export_status(true, false), ExportResult::ErrorUnknown));
    assert!(matches!(export_status(true, true), ExportResult::Done));
}
