use synth::gui::scope::{crop_to_screen, find_wave_starts, zoom_to_screen};

fn square_wave(periods: usize, half: usize) -> Vec<i64> {
    let mut samples = Vec::new();
    for _ in 0..periods {
        for _ in 0..half {
            samples.push(-100);
        }
        for _ in 0..half {
            samples.push(100);
        }
    }
    samples
}

#[test]
fn wave_starts_are_the_rising_zero_crossings() {
    let samples = [-1i64, 2, 3, -4, -5, 6, 0, 7, -1, 0, 1, -1, 1];
    assert_eq!(find_wave_starts(&samples), vec![1, 5, 12]);
}

#[test]
fn a_sample_of_zero_is_no_crossing() {
    assert_eq!(find_wave_starts(&[-1, 0, 1]), Vec::<usize>::new());
    assert_eq!(find_wave_starts(&[0, 1]), Vec::<usize>::new());
    assert_eq!(find_wave_starts(&[-1, 0]), Vec::<usize>::new());
}

#[test]
fn short_and_falling_signals_have_no_wave_start() {
    assert_eq!(find_wave_starts(&[]), Vec::<usize>::new());
    assert_eq!(find_wave_starts(&[5]), Vec::<usize>::new());
    assert_eq!(find_wave_starts(&[5, -5]), Vec::<usize>::new());
    assert_eq!(find_wave_starts(&[i64::MIN, i64::MAX]), vec![1]);
}

#[test]
fn wave_starts_of_a_square_wave() {
    let samples = square_wave(4, 5);
    assert_eq!(find_wave_starts(&samples), vec![5, 15, 25, 35]);
}

#[test]
fn without_enough_waves_the_whole_window_is_shown() {
    let samples = square_wave(2, 5);
    let starts = find_wave_starts(&samples);
    assert_eq!(starts, vec![5, 15]);
    assert_eq!(crop_to_screen(&samples, starts.clone(), 100, 2), &samples[..]);
    assert_eq!(crop_to_screen(&samples, Vec::new(), 100, 0), &samples[..]);
    assert_eq!(crop_to_screen(&samples, starts, 100, usize::MAX), &samples[..]);
}

#[test]
fn waves_wider_than_the_screen_are_shown_from_start_to_start() {
    let samples = square_wave(6, 50);
    let starts = find_wave_starts(&samples);
    assert_eq!(starts, vec![50, 150, 250, 350, 450, 550]);
    // two waves are 200 samples and one more
    assert_eq!(crop_to_screen(&samples, starts, 150, 2), &samples[350..=550]);
}

#[test]
fn waves_narrower_than_the_screen_are_widened_and_cut_to_the_screen() {
    let samples = square_wave(6, 50);
    let starts = find_wave_starts(&samples);
    // two waves are 200 samples: four fill a screen of 300, of which the
    // latest 300 samples are shown
    assert_eq!(crop_to_screen(&samples, starts.clone(), 300, 2), &samples[251..=550]);
    // a screen wider than all waves shows them all
    assert_eq!(crop_to_screen(&samples, starts.clone(), 1000, 2), &samples[150..=550]);
    // exactly as wide as two waves: widened once, to the same start
    assert_eq!(crop_to_screen(&samples, starts, 200, 2), &samples[351..=550]);
}

#[test]
fn no_minimum_of_waves_shows_the_last_wave_start_alone() {
    let samples = square_wave(3, 5);
    let starts = find_wave_starts(&samples);
    assert_eq!(starts, vec![5, 15, 25]);
    assert_eq!(crop_to_screen(&samples, starts.clone(), 0, 0), &samples[26..26]);
    assert_eq!(crop_to_screen(&samples, starts, 4, 0), &samples[22..=25]);
}

#[test]
fn zoom_draws_every_sample_that_fits() {
    assert_eq!(zoom_to_screen(0, 100), (0, 1));
    assert_eq!(zoom_to_screen(100, 100), (0, 1));
    assert_eq!(zoom_to_screen(99, 100), (0, 1));
}

#[test]
fn zoom_thins_out_what_does_not_fit() {
    assert_eq!(zoom_to_screen(1000, 100), (0, 10));
    assert_eq!(zoom_to_screen(1050, 100), (50, 10));
    assert_eq!(zoom_to_screen(101, 100), (1, 1));
    assert_eq!(zoom_to_screen(10, 0), (0, usize::MAX));
}
