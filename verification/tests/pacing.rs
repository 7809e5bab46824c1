use chimera_ruffle::pacing::{axis_to_pixel, frame_samples, stage_pixels, Pace, MOUSE_AXIS_MAX};

/// The movie frames that run in each of the first `n` host frames.
fn run_counts(pace: &Pace, n: u64) -> Vec<u64> {
    let mut done = 0;
    let mut counts = Vec::new();
    for frames in 0..n {
        let due = pace.due_after(frames);
        counts.push(due - done);
        done = due;
    }
    counts
}

#[test]
fn own_rate_runs_one_movie_frame_each() {
    let pace = Pace::new(24 * 256, 0);
    assert_eq!(run_counts(&pace, 6), vec![1, 1, 1, 1, 1, 1]);
    let odd = Pace::new(6138, 0);
    assert_eq!(run_counts(&odd, 6), vec![1, 1, 1, 1, 1, 1]);
}

#[test]
fn raised_rate_lands_on_the_first_host_frame() {
    let pace = Pace::new(30 * 256, 60);
    assert_eq!(run_counts(&pace, 6), vec![1, 0, 1, 0, 1, 0]);
    let uneven = Pace::new(24 * 256, 60);
    assert_eq!(run_counts(&uneven, 10), vec![1, 0, 1, 0, 0, 1, 0, 1, 0, 0]);
}

#[test]
fn lowered_rate_runs_several_at_once() {
    let pace = Pace::new(60 * 256, 20);
    assert_eq!(run_counts(&pace, 3), vec![3, 3, 3]);
}

#[test]
fn long_run_does_not_drift() {
    let pace = Pace::new(24 * 256, 60);
    assert_eq!(pace.due_after(60 * 60 * 60 * 24 - 1), 24 * 60 * 60 * 24);
}

#[test]
fn equally_long_runs_have_equally_many_movie_frames() {
    let own = Pace::new(24 * 256, 0);
    let raised = Pace::new(24 * 256, 60);
    assert_eq!(own.due_after(2 * 24 - 1), raised.due_after(2 * 60 - 1));
}

#[test]
fn clock_is_the_rounded_total() {
    let clocks = |pace: Pace, n: u64| -> Vec<i64> { (0..n).map(|f| pace.clock_after(f)).collect() };
    assert_eq!(clocks(Pace::new(24 * 256, 0), 6), vec![42, 83, 125, 167, 208, 250]);
    assert_eq!(clocks(Pace::new(30 * 256, 0), 3), vec![33, 67, 100]);
    assert_eq!(clocks(Pace::new(24 * 256, 60), 3), vec![17, 33, 50]);
    assert_eq!(clocks(Pace::new(24 * 256, 16), 2), vec![63, 125]);
    assert_eq!(Pace::new(1, 0).clock_after(0), 256000);
}

#[test]
fn clock_does_not_stray_from_the_time() {
    let own = Pace::new(24 * 256, 0);
    assert_eq!(own.clock_after(23), 1000);
    assert_eq!(own.clock_after(24 * 60 * 60 * 24 - 1), 24 * 60 * 60 * 1000);
    let odd = Pace::new(6138, 0);
    assert_eq!(odd.clock_after(6138 - 1), 256_000);
}

#[test]
fn clock_moves_at_every_rate() {
    let fast = Pace::new(24 * 256, 4000);
    let clocks: Vec<i64> = (0..8).map(|f| fast.clock_after(f)).collect();
    assert_eq!(clocks, vec![0, 1, 1, 1, 1, 2, 2, 2]);
    assert_eq!(fast.clock_after(3999), 1000);
    assert_eq!(fast.clock_after(7999), 2000);
}

#[test]
fn counters_have_an_end() {
    let pace = Pace::new(24 * 256, 60);
    assert!(pace.can_count(0));
    let last = (u64::MAX - 256 * 60) / (24 * 256) - 1;
    assert!(pace.can_count(last));
    assert!(!pace.can_count(last + 1));
    assert!(!pace.can_count(u64::MAX));
    assert!(!Pace::new(24 * 256, i64::MAX).can_count(0));
}

#[test]
fn whole_rate_stays_whole() {
    assert_eq!(Pace::new(30 * 256, 0).vsync(), (30, 1));
    assert_eq!(Pace::new(30 * 256, 144).vsync(), (144, 1));
}

#[test]
fn broken_rate_survives_as_a_ratio() {
    assert_eq!(Pace::new(6138, 0).vsync(), (23977, 1000));
    assert_eq!(Pace::new(128, 0).vsync(), (500, 1000));
}

#[test]
fn absurd_rates_are_bounded() {
    assert_eq!(Pace::new(24 * 256, i64::MAX).vsync(), (i32::MAX, 1));
    let still = Pace::new(0, 0);
    assert_eq!((still.rate_256, still.host_num, still.host_den), (1, 1, 256));
    let backward = Pace::new(-256, 0);
    assert_eq!(backward.rate_256, 1);
    let asked = Pace::new(24 * 256, -5);
    assert_eq!((asked.host_num, asked.host_den), (24 * 256, 256));
}

#[test]
fn stage_is_measured_in_twentieths() {
    assert_eq!(stage_pixels(11000), 550);
    assert_eq!(stage_pixels(19), 0);
    assert_eq!(stage_pixels(39), 1);
    assert_eq!(stage_pixels(-20), 0);
}

#[test]
fn axis_reaches_both_ends() {
    assert_eq!(axis_to_pixel(0, 550), 0);
    assert_eq!(axis_to_pixel(MOUSE_AXIS_MAX, 550), 549);
    assert_eq!(axis_to_pixel(4096, 550), 274);
    assert_eq!(axis_to_pixel(-100, 550), 0);
    assert_eq!(axis_to_pixel(100_000, 550), 549);
    assert_eq!(axis_to_pixel(MOUSE_AXIS_MAX, 1), 0);
    assert_eq!(axis_to_pixel(MOUSE_AXIS_MAX, 0), -1);
    assert_eq!(axis_to_pixel(MOUSE_AXIS_MAX - 1, 0), 0);
}

#[test]
fn sound_comes_in_whole_stereo_frames() {
    assert_eq!(frame_samples(Some(60), 1838), 1470);
    assert_eq!(frame_samples(Some(24), 0), 3676);
    assert_eq!(frame_samples(Some(88200), 0), 2);
    assert_eq!(frame_samples(Some(88201), 0), 0);
    assert_eq!(frame_samples(None, 1838), 3676);
}
