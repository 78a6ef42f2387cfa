use turboplot::camera::Camera;
use turboplot::loaders::{guess_format, split_rows, TraceFormat};
use turboplot::multi_viewer::{plan_sync, sync_cameras, SyncPlan};
use turboplot::scale::{Scale, SCALE_ONE};
use turboplot::sync_features::SyncFeatures;
use turboplot::util::{generate_checkboard, CountUnit, Fixed, FixedVec2};
use turboplot::viewer::ViewerUpdateStatus;

#[test]
fn sync_features_start_all_enabled() {
    let s = SyncFeatures::new();
    assert!(s.shift_x && s.shift_y && s.scale_x && s.scale_y);
    assert!(s.any());
}

#[test]
fn sync_features_set_all() {
    let mut s = SyncFeatures::new();
    s.set_all(false);
    assert!(!s.shift_x && !s.shift_y && !s.scale_x && !s.scale_y);
    assert!(!s.any());
    s.scale_y = true;
    assert!(s.any());
    s.set_all(true);
    assert_eq!(s, SyncFeatures::new());
}

#[test]
fn sync_features_any_is_true_for_each_single_setting() {
    let mut none = SyncFeatures::new();
    none.set_all(false);
    assert!(SyncFeatures { shift_x: true, ..none }.any());
    assert!(SyncFeatures { shift_y: true, ..none }.any());
    assert!(SyncFeatures { scale_x: true, ..none }.any());
    assert!(SyncFeatures { scale_y: true, ..none }.any());
}

#[test]
fn sync_features_not_and_bitand() {
    let a = SyncFeatures { shift_x: true, shift_y: false, scale_x: true, scale_y: false };
    let b = SyncFeatures { shift_x: true, shift_y: true, scale_x: false, scale_y: false };
    assert_eq!(
        !a,
        SyncFeatures { shift_x: false, shift_y: true, scale_x: false, scale_y: true }
    );
    assert_eq!(
        a & b,
        SyncFeatures { shift_x: true, shift_y: false, scale_x: false, scale_y: false }
    );
    // A setting that has just been enabled.
    assert!((!a & b).any());
    assert!(b.newly_enabled(a));
    assert!(!(!a & a).any());
    assert!(!a.newly_enabled(a));
    assert!(!(!SyncFeatures::new() & b).any());
    assert!(!b.newly_enabled(SyncFeatures::new()));
}

#[test]
fn scale_in_units_of_a_1024th() {
    assert_eq!(SCALE_ONE, 1024);
    assert_eq!(Scale::from_int(3).to_bits(), 3072);
    assert_eq!(Scale::from_bits(3072 + 1023).to_int(), 3);
    assert_eq!(Scale::from_bits(5), Scale(5));
    assert!(Scale::from_int(2) < Scale::from_int(3));
    assert_eq!(Scale::from_int(u32::MAX).to_int(), u32::MAX as u64);
    // 1.5 times 3 is 4.5.
    assert_eq!(Scale::from_int(3).checked_mul_ratio(3, 2), Some(Scale::from_bits(4608)));
    assert_eq!(Scale::from_bits(7).checked_mul_ratio(1, 2), Some(Scale::from_bits(3)));
    assert_eq!(Scale::from_int(3).checked_mul_ratio(3, 0), None);
    assert_eq!(Scale::from_bits(u64::MAX).checked_mul_ratio(2, 1), None);
    assert_eq!(
        Scale::from_bits(u64::MAX).checked_mul_ratio(u64::MAX, u64::MAX),
        Some(Scale::from_bits(u64::MAX))
    );
}

#[test]
fn format_is_guessed_from_the_extension() {
    assert!(matches!(guess_format("trace.npy"), Some(TraceFormat::Numpy)));
    assert!(matches!(guess_format("trace.csv"), Some(TraceFormat::Csv)));
    assert!(matches!(guess_format("trace.wfm"), Some(TraceFormat::TekWfm)));
    assert!(matches!(guess_format("a/b/TRACE.NPY"), Some(TraceFormat::Numpy)));
    assert!(matches!(guess_format("Trace.CsV"), Some(TraceFormat::Csv)));
    assert!(matches!(guess_format("x.y.Wfm"), Some(TraceFormat::TekWfm)));
}

#[test]
fn format_is_unknown_without_a_known_extension() {
    for path in ["", "trace", "trace.txt", "trace.npyz", "trace.np", "npy", ".npy", "dir.npy/trace", "trace.", "trace.n\u{0}y"] {
        assert!(guess_format(path).is_none(), "{:?}", path);
    }
}

#[test]
fn format_of_an_extension() {
    assert_eq!(TraceFormat::from_extension(b"npy"), Some(TraceFormat::Numpy));
    assert_eq!(TraceFormat::from_extension(b"NpY"), Some(TraceFormat::Numpy));
    assert_eq!(TraceFormat::from_extension(b"CSV"), Some(TraceFormat::Csv));
    assert_eq!(TraceFormat::from_extension(b"wFm"), Some(TraceFormat::TekWfm));
    assert_eq!(TraceFormat::from_extension(b""), None);
    assert_eq!(TraceFormat::from_extension(b"np"), None);
    assert_eq!(TraceFormat::from_extension(b"npyy"), None);
    // The bytes 0x0e and 0x2e differ from `n` by one bit each.
    assert_eq!(TraceFormat::from_extension(&[0x4e - 0x20, b'p', b'y']), None);
    assert_eq!(TraceFormat::from_extension(&[b'n' + 0x20, b'p', b'y']), None);
    assert_eq!(TraceFormat::from_extension(b"[sv"), None);
}

#[test]
fn rows_of_a_flat_array() {
    let flat: Vec<i32> = (0..6).collect();
    assert_eq!(split_rows(&flat, 3), vec![vec![0, 1, 2], vec![3, 4, 5]]);
    assert_eq!(split_rows(&flat, 2), vec![vec![0, 1], vec![2, 3], vec![4, 5]]);
    assert_eq!(split_rows(&flat, 6), vec![vec![0, 1, 2, 3, 4, 5]]);
    // What does not fill a row is left out.
    assert_eq!(split_rows(&flat, 4), vec![vec![0, 1, 2, 3]]);
    assert_eq!(split_rows(&flat, 7), Vec::<Vec<i32>>::new());
    assert_eq!(split_rows(&Vec::<u8>::new(), 1), Vec::<Vec<u8>>::new());
    let expected: Vec<Vec<i32>> = flat.chunks_exact(4).map(|c| c.to_vec()).collect();
    assert_eq!(split_rows(&flat, 4), expected);
}

#[test]
fn checkerboard_of_four_fields() {
    assert_eq!(generate_checkboard(0), Vec::<bool>::new());
    assert_eq!(generate_checkboard(2), vec![false, true, true, false]);
    let w = true;
    let b = false;
    assert_eq!(
        generate_checkboard(4),
        vec![b, b, w, w, b, b, w, w, w, w, b, b, w, w, b, b]
    );
    for size in [2usize, 6, 64] {
        let cells = generate_checkboard(size);
        let half = size / 2;
        assert_eq!(cells.len(), size * size);
        for i in 0..size * size {
            let white = (i % size < half) ^ (i % (size * size) < (half * size));
            assert_eq!(cells[i], white, "cell {} of {}", i, size);
        }
        assert_eq!(cells.iter().filter(|c| **c).count(), size * size / 2);
    }
}

fn status(zooming: bool, dragging_x: bool, dragging_y: bool) -> ViewerUpdateStatus {
    ViewerUpdateStatus { zooming, dragging_x, dragging_y }
}

#[test]
fn the_first_changing_viewer_leads() {
    let sync = SyncFeatures::new();
    let rest = status(false, false, false);
    assert_eq!(
        plan_sync(&vec![rest, rest], &sync),
        SyncPlan { source: None, allow_tile_requests: true }
    );
    assert_eq!(
        plan_sync(&Vec::new(), &sync),
        SyncPlan { source: None, allow_tile_requests: true }
    );
    // A horizontal drag leads and leaves tile requests allowed.
    assert_eq!(
        plan_sync(&vec![rest, status(false, true, false), status(true, false, false)], &sync),
        SyncPlan { source: Some(1), allow_tile_requests: true }
    );
    assert_eq!(
        plan_sync(&vec![status(true, false, false), status(false, true, false)], &sync),
        SyncPlan { source: Some(0), allow_tile_requests: false }
    );
    assert_eq!(
        plan_sync(&vec![rest, rest, status(false, false, true)], &sync),
        SyncPlan { source: Some(2), allow_tile_requests: false }
    );
}

#[test]
fn nobody_leads_without_a_common_setting() {
    let mut sync = SyncFeatures::new();
    sync.set_all(false);
    assert_eq!(
        plan_sync(&vec![status(true, true, true)], &sync),
        SyncPlan { source: None, allow_tile_requests: true }
    );
}

#[test]
fn cameras_follow_the_leader() {
    let cam = |n: i32| Camera {
        scale: FixedVec2 { x: Fixed::from_int(n), y: Fixed::from_int(n + 1) },
        shift: FixedVec2 { x: Fixed::from_int(n + 2), y: Fixed::from_int(n + 3) },
    };
    let mut cameras = vec![cam(10), cam(20), cam(30)];
    sync_cameras(&mut cameras, 1, SyncFeatures::new());
    assert_eq!(cameras, vec![cam(20), cam(20), cam(20)]);

    let mut partly = vec![cam(10), cam(20), cam(30)];
    let only_x = SyncFeatures { shift_x: true, shift_y: false, scale_x: true, scale_y: false };
    sync_cameras(&mut partly, 2, only_x);
    assert_eq!(partly[2], cam(30));
    assert_eq!(partly[0].scale.x, Fixed::from_int(30));
    assert_eq!(partly[0].scale.y, Fixed::from_int(11));
    assert_eq!(partly[0].shift.x, Fixed::from_int(32));
    assert_eq!(partly[0].shift.y, Fixed::from_int(13));
    assert_eq!(partly[1].scale.x, Fixed::from_int(30));
    assert_eq!(partly[1].shift.y, Fixed::from_int(23));

    let mut alone = vec![cam(10)];
    sync_cameras(&mut alone, 0, SyncFeatures::new());
    assert_eq!(alone, vec![cam(10)]);
}

#[test]
fn counts_are_shown_in_thousands_millions_and_billions() {
    assert_eq!(CountUnit::of(0), CountUnit::One);
    assert_eq!(CountUnit::of(999), CountUnit::One);
    assert_eq!(CountUnit::of(1000), CountUnit::Kilo);
    assert_eq!(CountUnit::of(999_999), CountUnit::Kilo);
    assert_eq!(CountUnit::of(1_000_000), CountUnit::Mega);
    assert_eq!(CountUnit::of(999_999_999), CountUnit::Mega);
    assert_eq!(CountUnit::of(1_000_000_000), CountUnit::Giga);
    assert_eq!(CountUnit::of(usize::MAX), CountUnit::Giga);
    assert_eq!(CountUnit::One.divisor(), 1);
    assert_eq!(CountUnit::Kilo.divisor(), 1000);
    assert_eq!(CountUnit::Mega.divisor(), 1_000_000);
    assert_eq!(CountUnit::Giga.divisor(), 1_000_000_000);
    assert_eq!(CountUnit::One.suffix(), "");
    assert_eq!(CountUnit::Kilo.suffix(), "k");
    assert_eq!(CountUnit::Mega.suffix(), "M");
    assert_eq!(CountUnit::Giga.suffix(), "G");
    // The text of a count, as the tool bar shows it.
    let text = |n: usize| {
        let unit = CountUnit::of(n);
        match unit {
            CountUnit::One => n.to_string(),
            _ => format!("{:.1} {}", (n as f32) / (unit.divisor() as f32), unit.suffix()),
        }
    };
    assert_eq!(text(512), "512");
    assert_eq!(text(1500), "1.5 k");
    assert_eq!(text(2_000_000), "2.0 M");
    assert_eq!(text(3_210_000_000), "3.2 G");
}
