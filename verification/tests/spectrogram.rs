use bucksaw::colors::Color;
use bucksaw::colors::ColorLookupTable;
use bucksaw::colors::Colorscheme;
use bucksaw::image::create_image;
use bucksaw::image::render_columns;
use bucksaw::iter::OverlappingWindowIter;
use bucksaw::spectrogram::throttle_bucket;
use bucksaw::spectrogram::throttle_buckets;
use bucksaw::spectrogram::tile_bounds;
use bucksaw::spectrogram::time_tiles;
use bucksaw::spectrogram::Tile;
use bucksaw::spectrogram::THROTTLE_DOMAIN_BUCKETS;
use bucksaw::spectrogram::TIME_DOMAIN_TEX_WIDTH;
use bucksaw::spectrum::arrange_spectrum;
use bucksaw::spectrum::bin_of_row;
use bucksaw::spectrum::next_chunk_input;
use bucksaw::spectrum::spectrum_len;
use bucksaw::spectrum::transform_len;
use bucksaw::step_response::plan_step_response;
use bucksaw::step_response::StepResponsePlan;

fn ramp() -> ColorLookupTable {
    let colors = (0..128).map(|i| Color::from_rgb(i as u8, 2 * i as u8, 7)).collect();
    ColorLookupTable::new(Colorscheme::Inferno, colors).unwrap()
}

fn shade(i: u8) -> egui::Color32 {
    egui::Color32::from_rgb(i, 2 * i, 7)
}

#[test]
fn tiles_cover_every_column_once() {
    assert_eq!(tile_bounds(0, 4), Vec::<Tile>::new());
    assert_eq!(tile_bounds(3, 4), vec![Tile { start: 0, end: 3 }]);
    assert_eq!(tile_bounds(4, 4), vec![Tile { start: 0, end: 4 }]);
    assert_eq!(
        tile_bounds(9, 4),
        vec![Tile { start: 0, end: 4 }, Tile { start: 4, end: 8 }, Tile { start: 8, end: 9 }]
    );
    assert_eq!(tile_bounds(usize::MAX, usize::MAX), vec![Tile { start: 0, end: usize::MAX }]);
}

#[test]
fn time_tiles_are_a_thousand_and_twenty_four_wide() {
    assert_eq!(TIME_DOMAIN_TEX_WIDTH, 1024);
    assert_eq!(
        time_tiles(2500),
        vec![
            Tile { start: 0, end: 1024 },
            Tile { start: 1024, end: 2048 },
            Tile { start: 2048, end: 2500 }
        ]
    );
    assert!(time_tiles(0).is_empty());
}

#[test]
fn throttle_falls_into_one_of_the_buckets() {
    assert_eq!(THROTTLE_DOMAIN_BUCKETS, 256);
    assert_eq!(throttle_bucket(0), 0);
    assert_eq!(throttle_bucket(1), 1);
    assert_eq!(throttle_bucket(128), 128);
    assert_eq!(throttle_bucket(255), 255);
    assert_eq!(throttle_bucket(256), 255);
    assert_eq!(throttle_bucket(100_000), 255);
    assert_eq!(throttle_bucket(-1), 0);
    assert_eq!(throttle_bucket(i64::MIN), 0);
    assert_eq!(throttle_bucket(i64::MAX), 255);
    let throttle = 500.0_f32;
    assert_eq!(throttle_bucket((throttle / 1000.0 * 256.0).floor() as i64), 128);
}

#[test]
fn spectra_are_sorted_by_throttle() {
    let buckets = throttle_buckets(&vec![3, 300, 3, -5, 0, 255, 3]);
    assert_eq!(buckets.len(), 256);
    assert_eq!(buckets[3], vec![0, 2, 6]);
    assert_eq!(buckets[0], vec![3, 4]);
    assert_eq!(buckets[255], vec![1, 5]);
    assert_eq!(buckets.iter().map(|b| b.len()).sum::<usize>(), 7);
    assert!(throttle_buckets(&Vec::new()).iter().all(|b| b.is_empty()));
}

#[test]
fn image_has_a_column_for_each_spectrum() {
    let columns = vec![vec![0, 64, 127], vec![-3, 128, 1], vec![5, 6, 7], vec![9, 9, 9]];
    let image = create_image(&columns, &ramp()).unwrap();
    assert_eq!(image.size, [4, 3]);
    assert_eq!(image.pixels.len(), 12);
    assert_eq!(image[(0, 0)], shade(0));
    assert_eq!(image[(0, 1)], shade(64));
    assert_eq!(image[(0, 2)], shade(127));
    assert_eq!(image[(1, 0)], shade(0));
    assert_eq!(image[(1, 1)], shade(127));
    assert_eq!(image[(1, 2)], shade(1));
    assert_eq!(image[(2, 1)], shade(6));
    assert_eq!(image[(3, 2)], shade(9));
    assert_eq!(image.pixels[2 * 4 + 1], shade(1));
}

#[test]
fn image_of_nothing_is_none() {
    assert!(create_image(&Vec::new(), &ramp()).is_none());
    assert!(create_image(&vec![vec![1], vec![1, 2]], &ramp()).is_none());
    assert!(render_columns(&vec![vec![1, 2, 3]], 2, &ramp()).is_none());
}

#[test]
fn short_and_empty_columns_stay_transparent() {
    let columns = vec![vec![], vec![10], vec![20, 30]];
    let image = render_columns(&columns, 2, &ramp()).unwrap();
    assert_eq!(image.size, [3, 2]);
    assert_eq!(image[(0, 0)], egui::Color32::TRANSPARENT);
    assert_eq!(image[(0, 1)], egui::Color32::TRANSPARENT);
    assert_eq!(image[(1, 0)], shade(10));
    assert_eq!(image[(1, 1)], egui::Color32::TRANSPARENT);
    assert_eq!(image[(2, 0)], shade(20));
    assert_eq!(image[(2, 1)], shade(30));
    let empty = render_columns(&Vec::new(), 5, &ramp()).unwrap();
    assert_eq!(empty.size, [0, 5]);
    assert!(empty.pixels.is_empty());
}

#[test]
fn drawing_again_gives_the_same_image() {
    let columns: Vec<Vec<i64>> = (0..50).map(|x| (0..20).map(|y| (x * y) % 140 - 5).collect()).collect();
    let first = create_image(&columns, &ramp()).unwrap();
    let second = create_image(&columns, &ramp()).unwrap();
    assert!(first == second);
    assert_eq!(first.size, [50, 20]);
}

#[test]
fn spectrum_runs_from_the_highest_bin_down() {
    assert_eq!(spectrum_len(256), 128);
    assert_eq!(transform_len(256), 129);
    assert_eq!(spectrum_len(7), 3);
    assert_eq!(bin_of_row(256, 0), 127);
    assert_eq!(bin_of_row(256, 127), 0);
    assert_eq!(arrange_spectrum(vec![0, 1, 2, 3, 4]), vec![3, 2, 1, 0]);
    assert_eq!(arrange_spectrum(vec![9]), Vec::<i32>::new());
    assert_eq!(arrange_spectrum(Vec::<i32>::new()), Vec::<i32>::new());
}

#[test]
fn chunk_inputs_pair_the_three_series() {
    let times = vec![0.0, 0.1, 0.2, 0.3, 0.4, 0.5];
    let values = vec![10, 11, 12, 13, 14, 15];
    let throttle = vec![100, 200, 300, 400, 500, 600];
    let mut t = OverlappingWindowIter::new(times.into_iter(), 4, 2);
    let mut v = OverlappingWindowIter::new(values.into_iter(), 4, 2);
    let mut h = OverlappingWindowIter::new(throttle.into_iter(), 4, 2);
    let first = next_chunk_input(&mut t, &mut v, &mut h).unwrap();
    assert_eq!(first.time, 0.0);
    assert_eq!(first.samples, vec![10, 11, 12, 13]);
    assert_eq!(first.throttle, 300);
    let second = next_chunk_input(&mut t, &mut v, &mut h).unwrap();
    assert_eq!(second.time, 0.2);
    assert_eq!(second.samples, vec![12, 13, 14, 15]);
    assert_eq!(second.throttle, 500);
    assert!(next_chunk_input(&mut t, &mut v, &mut h).is_none());
}

#[test]
fn chunk_inputs_end_with_the_shortest_series() {
    let mut t = OverlappingWindowIter::new(vec![1, 2, 3, 4].into_iter(), 2, 1);
    let mut v = OverlappingWindowIter::new(vec![1, 2].into_iter(), 2, 1);
    let mut h = OverlappingWindowIter::new(vec![1, 2, 3, 4].into_iter(), 2, 1);
    assert!(next_chunk_input(&mut t, &mut v, &mut h).is_some());
    assert!(next_chunk_input(&mut t, &mut v, &mut h).is_none());
    assert_eq!(h.next(), Some(vec![2, 3]));
}

#[test]
fn step_response_of_an_empty_series_has_no_plan() {
    assert_eq!(plan_step_response(0, 0, 0, 500), None);
    assert_eq!(plan_step_response(100, 0, 100, 500), None);
    assert_eq!(plan_step_response(100, 100, 0, 500), None);
}

#[test]
fn step_response_plan_counts_the_stages() {
    assert_eq!(
        plan_step_response(4000, 4000, 4000, 500),
        Some(StepResponsePlan { spectrum_len: 2001, impulse_len: 4000, curve_len: 500 })
    );
    assert_eq!(
        plan_step_response(4, 4, 4, 4),
        Some(StepResponsePlan { spectrum_len: 3, impulse_len: 4, curve_len: 4 })
    );
    assert_eq!(
        plan_step_response(7, 7, 7, 500),
        Some(StepResponsePlan { spectrum_len: 4, impulse_len: 7, curve_len: 7 })
    );
    assert_eq!(
        plan_step_response(3, 10, 8, 500),
        Some(StepResponsePlan { spectrum_len: 5, impulse_len: 8, curve_len: 3 })
    );
    assert_eq!(
        plan_step_response(100, 100, 100, 0),
        Some(StepResponsePlan { spectrum_len: 51, impulse_len: 100, curve_len: 0 })
    );
    assert_eq!(
        plan_step_response(usize::MAX, usize::MAX, usize::MAX, usize::MAX),
        Some(StepResponsePlan {
            spectrum_len: usize::MAX / 2 + 1,
            impulse_len: usize::MAX,
            curve_len: usize::MAX
        })
    );
}

fn there_and_back(series: &[f32]) -> Vec<f32> {
    let plan = plan_step_response(series.len(), series.len(), series.len(), series.len()).unwrap();
    let mut planner = realfft::RealFftPlanner::<f32>::new();
    let forward = planner.plan_fft_forward(series.len());
    let mut input = series.to_vec();
    let mut bins = forward.make_output_vec();
    forward.process(&mut input, &mut bins).unwrap();
    assert_eq!(bins.len(), plan.spectrum_len);
    let inverse = planner.plan_fft_inverse(plan.impulse_len);
    let mut back = inverse.make_output_vec();
    inverse.process(&mut bins, &mut back).unwrap();
    back.iter().map(|sample| sample / (series.len() as f32)).collect()
}

#[test]
fn planned_lengths_give_a_pulse_back() {
    let back = there_and_back(&[1.0, 0.0, 0.0, 0.0]);
    assert_eq!(back.len(), 4);
    assert!((back[0] - 1.0).abs() < 1e-4);
    assert!(back[1].abs() < 1e-4);
    assert!(back[2].abs() < 1e-4);
    assert!(back[3].abs() < 1e-4);
}

#[test]
fn planned_lengths_give_a_series_back() {
    for len in [1usize, 2, 3, 8, 9, 100, 257] {
        let series: Vec<f32> = (0..len).map(|i| ((i * 37 % 11) as f32) - 4.5).collect();
        let back = there_and_back(&series);
        assert_eq!(back.len(), len);
        for (given, got) in series.iter().zip(back.iter()) {
            assert!((given - got).abs() < 1e-3);
        }
    }
}

#[test]
fn sine_shows_in_the_row_of_its_bin() {
    let size = 256;
    let bin = 20;
    let samples: Vec<f32> = (0..size)
        .map(|i| (2.0 * std::f32::consts::PI * (bin as f32) * (i as f32) / (size as f32)).sin())
        .collect();
    let windowed: Vec<f32> = samples
        .iter()
        .enumerate()
        .map(|(i, s)| {
            s * (0.53836 - 0.46164 * (2.0 * std::f32::consts::PI * (i as f32) / (size as f32)).cos())
        })
        .collect();
    let mut input = windowed;
    let plan = realfft::RealFftPlanner::<f32>::new().plan_fft_forward(size);
    let mut output = plan.make_output_vec();
    plan.process(&mut input, &mut output).unwrap();
    assert_eq!(output.len(), transform_len(size));
    let powers: Vec<f32> = output.iter().map(|c| (c.re * c.re + c.im * c.im).log10()).collect();
    let rows = arrange_spectrum(powers);
    assert_eq!(rows.len(), spectrum_len(size));
    let mut best = 0;
    for row in 0..rows.len() {
        if rows[row] > rows[best] {
            best = row;
        }
    }
    let found = bin_of_row(size, best);
    assert!(found + 1 >= bin && found <= bin + 1);
}
