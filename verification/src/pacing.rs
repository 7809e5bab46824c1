//! How often the machine is stepped, and how often the movie is.
//!
//! A movie has a frame rate of its own and its timeline runs at that. The host
//! may step the machine more often, which gives it more frames to carry input,
//! timers and a picture, and never a faster movie. Everything is kept in whole
//! numbers, so that it cannot drift and cannot differ between two machines.
use vstd::prelude::*;
use vstd::arithmetic::div_mod::{
    lemma_div_is_ordered, lemma_fundamental_div_mod, lemma_fundamental_div_mod_converse,
};

verus! {

/// The pointer's axis runs from zero to this, whatever the stage.
pub const MOUSE_AXIS_MAX: i32 = 8191;

/// Sound is mixed at this many stereo frames a second.
pub const AUDIO_RATE: u64 = 44100;

/// Sound has this many channels.
pub const AUDIO_CHANNELS: usize = 2;

/// The whole number nearest to `n / d`, a half counting upward.
pub open spec fn nearest(n: nat, d: nat) -> nat {
    n / d + if 2 * (n % d) >= d {
        1nat
    } else {
        0nat
    }
}

/// The least whole number that is not below `a / b`.
pub open spec fn ceiling(a: int, b: int) -> int {
    (a + b - 1) / b
}

/// The two rates a run is paced by.
#[derive(Clone, Copy)]
pub struct Pace {
    /// The movie's own frame rate in 256ths of a frame a second, which is how
    /// a movie file stores it.
    pub rate_256: u64,
    /// The host's frame rate as a ratio.
    pub host_num: u64,
    pub host_den: u64,
}

impl Pace {
    /// Both rates are above zero, and the host's is either a whole number or
    /// the movie's own.
    pub open spec fn well_formed(self) -> bool {
        &&& 0 < self.rate_256 <= 0x7fff
        &&& 0 < self.host_num <= i64::MAX
        &&& self.host_den == 1 || (self.host_den == 256 && self.host_num == self.rate_256)
    }

    /// The movie frames that should have run by the end of `n` host frames:
    /// as many as have begun by then at the movie's own rate.
    pub open spec fn due(self, n: nat) -> nat {
        ceiling((n * self.rate_256 * self.host_den) as int, (256 * self.host_num) as int) as nat
    }

    /// The host frame after `frames` can be counted in 64 bits.
    pub open spec fn countable(self, frames: nat) -> bool {
        (frames + 1) * self.rate_256 * self.host_den + 256 * self.host_num <= u64::MAX
    }

    /// Where the movie's wall clock stands after `n` host frames: the time they
    /// took, to the nearest millisecond. The total is rounded and not each
    /// frame, so that the clock never strays from the time.
    pub open spec fn clock_at(self, n: nat) -> nat {
        nearest((n * 1000 * self.host_den) as nat, self.host_num as nat)
    }

    /// The host rate as a ratio of two 32-bit numbers: a whole rate stays
    /// whole, any other is kept to the thousandth.
    pub open spec fn vsync_ratio(self) -> (int, int) {
        let most = i32::MAX as int;
        if self.host_num % self.host_den == 0 {
            let whole = (self.host_num / self.host_den) as int;
            (if whole < most { whole } else { most }, 1)
        } else {
            let thousandths = nearest((self.host_num * 1000) as nat, self.host_den as nat) as int;
            (if thousandths < most { thousandths } else { most }, 1000)
        }
    }
}

/// The pace of a movie whose stored rate is `rate`, when the host asks for
/// `fps` frames a second, or for none of its own.
pub open spec fn pace_of(rate: i16, fps: i64) -> Pace {
    let rate_256 = if rate < 1 { 1u64 } else { rate as u64 };
    if fps > 0 {
        Pace { rate_256, host_num: fps as u64, host_den: 1 }
    } else {
        Pace { rate_256, host_num: rate_256, host_den: 256 }
    }
}

/// A stage measure in whole pixels, of which a twip is a twentieth.
pub open spec fn stage_pixels_of(twips: i32) -> u32 {
    if twips < 0 {
        0u32
    } else {
        (twips / 20) as u32
    }
}

/// The pixel an axis value stands for, on a stage `extent` pixels long.
pub open spec fn axis_pixel(value: i32, extent: u32) -> int {
    let v = if value < 0 {
        0
    } else if value > MOUSE_AXIS_MAX {
        MOUSE_AXIS_MAX as int
    } else {
        value as int
    };
    if extent == 0 {
        if v == MOUSE_AXIS_MAX {
            -1
        } else {
            0
        }
    } else {
        v * (extent - 1) / (MOUSE_AXIS_MAX as int)
    }
}

/// The interleaved samples of one host frame: the host's own share of a second
/// when the host rate was asked for, and `movie_frames` stereo frames, the
/// movie's own share, when it was not.
pub open spec fn frame_samples_of(forced: Option<u64>, movie_frames: nat) -> nat {
    AUDIO_CHANNELS as nat * match forced {
        Some(fps) => nearest(AUDIO_RATE as nat, fps as nat),
        None => movie_frames,
    }
}

fn nearest_whole(n: u128, d: u128) -> (r: u128)
    requires
        d > 0,
        n < u128::MAX,
    ensures
        r == nearest(n as nat, d as nat),
        r <= n || r <= 1,
{
    let q: u128 = n / d;
    let left: u128 = n % d;
    proof {
        lemma_fundamental_div_mod(n as int, d as int);
        assert(q <= n) by (nonlinear_arith)
            requires
                n == d * q + left,
                d >= 1,
                left >= 0,
                q >= 0,
        ;
        if d >= 2 {
            assert(2 * q <= n) by (nonlinear_arith)
                requires
                    n == d * q + left,
                    d >= 2,
                    left >= 0,
                    q >= 0,
            ;
        }
    }
    if left >= d - left {
        q + 1
    } else {
        q
    }
}

impl Pace {
    /// Takes the movie's rate as its file stores it, in 256ths, and the host's
    /// as the settings give it. No host rate leaves the movie's own.
    pub fn new(rate: i16, fps: i64) -> (pace: Pace)
        ensures
            pace == pace_of(rate, fps),
            pace.well_formed(),
    {
        let rate_256: u64 = if rate < 1 { 1 } else { rate as u64 };
        if fps > 0 {
            Pace { rate_256, host_num: fps as u64, host_den: 1 }
        } else {
            Pace { rate_256, host_num: rate_256, host_den: 256 }
        }
    }

    /// How many movie frames should have run by the end of the host frame
    /// after `frames` of them.
    pub fn due_after(&self, frames: u64) -> (due: u64)
        requires
            self.well_formed(),
            self.countable(frames as nat),
        ensures
            due == self.due((frames + 1) as nat),
    {
        proof {
            assert((frames + 1) * self.rate_256 <= (frames + 1) * self.rate_256 * self.host_den)
                by (nonlinear_arith)
                requires
                    self.host_den >= 1,
                    (frames + 1) * self.rate_256 >= 0,
            ;
            assert(frames + 1 <= (frames + 1) * self.rate_256) by (nonlinear_arith)
                requires
                    self.rate_256 >= 1,
                    frames >= 0,
            ;
        }
        let d: u64 = 256 * self.host_num;
        let n: u64 = (frames + 1) * self.rate_256 * self.host_den;
        (n + d - 1) / d
    }

    /// Whether the host frame after `frames` can be counted, and its clock
    /// told.
    pub fn can_count(&self, frames: u64) -> (b: bool)
        requires
            self.well_formed(),
        ensures
            b == (self.countable(frames as nat) && self.clock_at((frames + 1) as nat) <= i64::MAX),
    {
        let f: u128 = frames as u128 + 1;
        proof {
            let r = self.rate_256 as int;
            let d = self.host_den as int;
            assert(f * r * d <= 0x1_0000_0000_0000_0000 * 0x7fff * 256) by (nonlinear_arith)
                requires
                    1 <= f <= 0x1_0000_0000_0000_0000,
                    1 <= r <= 0x7fff,
                    1 <= d <= 256,
            ;
            assert(0 <= f * r <= f * r * d) by (nonlinear_arith)
                requires
                    1 <= f,
                    1 <= r,
                    1 <= d,
            ;
        }
        let n: u128 = f * self.rate_256 as u128 * self.host_den as u128;
        n + 256 * self.host_num as u128 <= u64::MAX as u128 && self.clock(f) <= i64::MAX as u128
    }

    /// Where the clock stands after `n` host frames.
    fn clock(&self, n: u128) -> (millis: u128)
        requires
            self.well_formed(),
            n <= 0x1_0000_0000_0000_0000,
        ensures
            millis == self.clock_at(n as nat),
    {
        proof {
            let d = self.host_den as int;
            assert(0 <= n * 1000 * d <= 0x1_0000_0000_0000_0000 * 1000 * 256) by (nonlinear_arith)
                requires
                    0 <= n <= 0x1_0000_0000_0000_0000,
                    1 <= d <= 256,
            ;
        }
        nearest_whole(n * 1000 * self.host_den as u128, self.host_num as u128)
    }

    /// Where the clock stands after the host frame after `frames` of them, in
    /// milliseconds.
    pub fn clock_after(&self, frames: u64) -> (millis: i64)
        requires
            self.well_formed(),
            self.clock_at((frames + 1) as nat) <= i64::MAX,
        ensures
            millis == self.clock_at((frames + 1) as nat),
    {
        self.clock(frames as u128 + 1) as i64
    }

    /// The rate the host is told to run at.
    pub fn vsync(&self) -> (r: (i32, i32))
        requires
            self.well_formed(),
        ensures
            (r.0 as int, r.1 as int) == self.vsync_ratio(),
    {
        let most: u64 = 0x7fff_ffff;
        if self.host_num % self.host_den == 0 {
            let whole: u64 = self.host_num / self.host_den;
            (if whole < most { whole as i32 } else { i32::MAX }, 1)
        } else {
            let thousandths: u128 = nearest_whole(
                self.host_num as u128 * 1000,
                self.host_den as u128,
            );
            (if thousandths < most as u128 { thousandths as i32 } else { i32::MAX }, 1000)
        }
    }
}

/// A stage measure as a movie file stores it, in whole pixels.
pub fn stage_pixels(twips: i32) -> (r: u32)
    ensures
        r == stage_pixels_of(twips),
{
    if twips < 0 {
        0
    } else {
        (twips as u32) / 20
    }
}

/// Scales a pointer axis, clamped to its range, onto a stage `extent` long.
pub fn axis_to_pixel(value: i32, extent: u32) -> (r: i32)
    ensures
        r == axis_pixel(value, extent) as i32,
{
    let v: i64 = if value < 0 {
        0
    } else if value > MOUSE_AXIS_MAX {
        MOUSE_AXIS_MAX as i64
    } else {
        value as i64
    };
    if extent == 0 {
        if v == MOUSE_AXIS_MAX as i64 {
            -1
        } else {
            0
        }
    } else {
        let last: u32 = extent - 1;
        assert(0 <= v * last <= 8191 * 0xffff_ffff) by (nonlinear_arith)
            requires
                0 <= v <= 8191,
                0 <= last <= 0xffff_ffff,
        ;
        let scaled: u64 = (v as u64 * last as u64) / 8191;
        #[verifier::truncate]
        let r: i32 = scaled as i32;
        r
    }
}

/// How many interleaved samples one host frame of sound takes.
pub fn frame_samples(forced: Option<u64>, movie_frames: usize) -> (r: usize)
    requires
        forced matches Some(fps) ==> fps > 0,
        movie_frames <= usize::MAX / 2,
    ensures
        r == frame_samples_of(forced, movie_frames as nat),
{
    let frames: usize = match forced {
        Some(fps) => nearest_whole(AUDIO_RATE as u128, fps as u128) as usize,
        None => movie_frames,
    };
    frames * AUDIO_CHANNELS
}

proof fn ceiling_bounds(a: int, b: int)
    requires
        b > 0,
        a >= 0,
    ensures
        ceiling(a, b) >= 0,
        (ceiling(a, b) - 1) * b < a <= ceiling(a, b) * b,
{
    lemma_fundamental_div_mod(a + b - 1, b);
    let q = ceiling(a, b);
    assert((q - 1) * b < a <= q * b) by (nonlinear_arith)
        requires
            a + b - 1 == b * q + (a + b - 1) % b,
            0 <= (a + b - 1) % b < b,
    ;
    assert(q >= 0) by (nonlinear_arith)
        requires
            a <= q * b,
            a >= 0,
            b > 0,
    ;
}

proof fn ceiling_unique(a: int, b: int, m: int)
    requires
        b > 0,
        a >= 0,
        (m - 1) * b < a <= m * b,
    ensures
        m == ceiling(a, b),
{
    ceiling_bounds(a, b);
    let q = ceiling(a, b);
    assert(m == q) by (nonlinear_arith)
        requires
            (m - 1) * b < a <= m * b,
            (q - 1) * b < a <= q * b,
            b > 0,
    ;
}

/// A rounded quotient is within half of the quotient.
pub proof fn nearest_is_nearest(n: nat, d: nat)
    requires
        d > 0,
    ensures
        -(d as int) <= 2 * n - 2 * (nearest(n, d) * d) < d,
{
    lemma_fundamental_div_mod(n as int, d as int);
    let q = n / d;
    assert(q * d == d * q) by (nonlinear_arith);
    assert((q + 1) * d == q * d + d) by (nonlinear_arith);
}

/// No movie frame has run before the first host frame.
pub proof fn nothing_due_at_the_start(pace: Pace)
    requires
        pace.well_formed(),
    ensures
        pace.due(0) == 0,
{
    assert(0 * pace.rate_256 * pace.host_den == 0) by (nonlinear_arith);
    ceiling_unique(0, (256 * pace.host_num) as int, 0);
}

/// A movie frame runs on the first host frame that reaches it: frame `m` has
/// run after `n` host frames exactly when the time of `n` host frames is past
/// the moment frame `m` begins at the movie's own rate.
pub proof fn frame_runs_when_reached(pace: Pace, n: nat, m: nat)
    requires
        pace.well_formed(),
    ensures
        m > 0 ==> (pace.due(n) >= m <==> n * pace.rate_256 * pace.host_den > (m - 1) * (256
            * pace.host_num)),
{
    let a = (n * pace.rate_256 * pace.host_den) as int;
    let b = (256 * pace.host_num) as int;
    assert(a >= 0) by (nonlinear_arith)
        requires
            a == n * pace.rate_256 * pace.host_den,
            n >= 0,
            pace.rate_256 >= 0,
            pace.host_den >= 0,
    ;
    ceiling_bounds(a, b);
    let q = ceiling(a, b);
    if m > 0 {
        if q >= m {
            assert(a > (m - 1) * b) by (nonlinear_arith)
                requires
                    (q - 1) * b < a,
                    q >= m,
                    b > 0,
            ;
        } else {
            assert(a <= (m - 1) * b) by (nonlinear_arith)
                requires
                    a <= q * b,
                    q <= m - 1,
                    b > 0,
            ;
        }
    }
}

/// The movie is never behind the host's clock and never a whole movie frame
/// ahead of it, however long the run: nothing drifts.
pub proof fn movie_keeps_time(pace: Pace, n: nat)
    requires
        pace.well_formed(),
    ensures
        n * pace.rate_256 * pace.host_den <= pace.due(n) * (256 * pace.host_num) < n
            * pace.rate_256 * pace.host_den + 256 * pace.host_num,
{
    let a = (n * pace.rate_256 * pace.host_den) as int;
    let b = (256 * pace.host_num) as int;
    assert(a >= 0) by (nonlinear_arith)
        requires
            a == n * pace.rate_256 * pace.host_den,
            n >= 0,
            pace.rate_256 >= 0,
            pace.host_den >= 0,
    ;
    ceiling_bounds(a, b);
    let q = ceiling(a, b);
    assert(q * b < a + b) by (nonlinear_arith)
        requires
            (q - 1) * b < a,
    ;
}

/// At the movie's own rate every host frame runs exactly one movie frame.
pub proof fn own_rate_runs_one_each(rate: i16, fps: i64, n: nat)
    requires
        fps <= 0,
    ensures
        pace_of(rate, fps).due(n) == n,
{
    let p = pace_of(rate, fps);
    let a = (n * p.rate_256 * p.host_den) as int;
    let b = (256 * p.host_num) as int;
    assert(a == n * b && a >= 0) by (nonlinear_arith)
        requires
            a == n * p.rate_256 * 256,
            b == 256 * p.rate_256,
            n >= 0,
            p.rate_256 >= 0,
    ;
    assert((n - 1) * b < a) by (nonlinear_arith)
        requires
            a == n * b,
            b > 0,
    ;
    ceiling_unique(a, b, n as int);
}

/// Movie frames are never taken back.
pub proof fn due_never_falls(pace: Pace, n: nat)
    requires
        pace.well_formed(),
    ensures
        pace.due(n) <= pace.due(n + 1),
{
    let a = (n * pace.rate_256 * pace.host_den) as int;
    let c = ((n + 1) * pace.rate_256 * pace.host_den) as int;
    let b = (256 * pace.host_num) as int;
    assert(0 <= a <= c) by (nonlinear_arith)
        requires
            a == n * pace.rate_256 * pace.host_den,
            c == (n + 1) * pace.rate_256 * pace.host_den,
            n >= 0,
            pace.rate_256 >= 0,
            pace.host_den >= 0,
    ;
    ceiling_bounds(a, b);
    ceiling_bounds(c, b);
    lemma_div_is_ordered(a + b - 1, c + b - 1, b);
}

/// A host that steps at least as often as the movie runs at most one movie
/// frame in each of its own.
pub proof fn raised_rate_runs_at_most_one(pace: Pace, n: nat)
    requires
        pace.well_formed(),
        pace.rate_256 * pace.host_den <= 256 * pace.host_num,
    ensures
        pace.due(n + 1) <= pace.due(n) + 1,
{
    let a = (n * pace.rate_256 * pace.host_den) as int;
    let c = ((n + 1) * pace.rate_256 * pace.host_den) as int;
    let b = (256 * pace.host_num) as int;
    assert(0 <= a <= c <= a + b) by (nonlinear_arith)
        requires
            a == n * pace.rate_256 * pace.host_den,
            c == (n + 1) * pace.rate_256 * pace.host_den,
            pace.rate_256 * pace.host_den <= b,
            n >= 0,
            pace.rate_256 >= 0,
            pace.host_den >= 0,
    ;
    ceiling_bounds(a, b);
    ceiling_bounds(c, b);
    let q = ceiling(a, b);
    let r = ceiling(c, b);
    assert(r <= q + 1) by (nonlinear_arith)
        requires
            (r - 1) * b < c,
            c <= a + b,
            a <= q * b,
            b > 0,
    ;
}

/// The host's rate does not change the movie's: two runs of one movie that
/// have lasted equally long have run equally many movie frames, whatever rate
/// each was stepped at.
pub proof fn host_rate_does_not_change_the_movie(p: Pace, q: Pace, n: nat, m: nat)
    requires
        p.well_formed(),
        q.well_formed(),
        p.rate_256 == q.rate_256,
        n * p.host_den * q.host_num == m * q.host_den * p.host_num,
    ensures
        p.due(n) == q.due(m),
{
    let a = (n * p.rate_256 * p.host_den) as int;
    let b = (256 * p.host_num) as int;
    let c = (m * q.rate_256 * q.host_den) as int;
    let d = (256 * q.host_num) as int;
    let rate = p.rate_256 as int;
    let x = (n * p.host_den) as int;
    let y = (m * q.host_den) as int;
    let pn = p.host_num as int;
    let qn = q.host_num as int;
    assert(a == rate * x) by (nonlinear_arith)
        requires
            a == n * p.rate_256 * p.host_den,
            rate == p.rate_256,
            x == n * p.host_den,
    ;
    assert(c == rate * y) by (nonlinear_arith)
        requires
            c == m * q.rate_256 * q.host_den,
            rate == q.rate_256,
            y == m * q.host_den,
    ;
    assert(x >= 0 && y >= 0) by (nonlinear_arith)
        requires
            x == n * p.host_den,
            y == m * q.host_den,
            n >= 0,
            m >= 0,
            p.host_den >= 0,
            q.host_den >= 0,
    ;
    assert(a >= 0 && c >= 0) by (nonlinear_arith)
        requires
            a == rate * x,
            c == rate * y,
            rate >= 0,
            x >= 0,
            y >= 0,
    ;
    assert(a * d == c * b) by (nonlinear_arith)
        requires
            a == rate * x,
            c == rate * y,
            b == 256 * pn,
            d == 256 * qn,
            x * qn == y * pn,
    ;
    ceiling_bounds(a, b);
    let k = ceiling(a, b);
    assert((k - 1) * d < c) by (nonlinear_arith)
        requires
            (k - 1) * b < a,
            a * d == c * b,
            b > 0,
            d > 0,
    ;
    assert(c <= k * d) by (nonlinear_arith)
        requires
            a <= k * b,
            a * d == c * b,
            b > 0,
            d > 0,
    ;
    ceiling_unique(c, d, k);
}

/// The clock starts at nothing.
pub proof fn the_clock_starts_at_zero(pace: Pace)
    requires
        pace.well_formed(),
    ensures
        pace.clock_at(0) == 0,
{
    assert(0 * 1000 * pace.host_den == 0) by (nonlinear_arith);
    let d = pace.host_num as int;
    lemma_fundamental_div_mod_converse(0, d, 0, 0);
}

/// The clock is the time: after any number of host frames it stands within half
/// a millisecond of how long they took.
pub proof fn the_clock_keeps_time(pace: Pace, n: nat)
    requires
        pace.well_formed(),
    ensures
        -pace.host_num <= 2 * (n * 1000 * pace.host_den) - 2 * (pace.clock_at(n) * pace.host_num)
            < pace.host_num,
{
    assert(n * 1000 * pace.host_den >= 0) by (nonlinear_arith)
        requires
            n >= 0,
            pace.host_den >= 0,
    ;
    nearest_is_nearest((n * 1000 * pace.host_den) as nat, pace.host_num as nat);
}

/// The clock moves, at every rate: it never goes back, and as many host frames
/// as `host_num` move it by `host_den` seconds, wherever they begin.
pub proof fn the_clock_moves(pace: Pace, n: nat)
    requires
        pace.well_formed(),
    ensures
        pace.clock_at(n) <= pace.clock_at(n + 1),
        pace.clock_at(n + pace.host_num as nat) == pace.clock_at(n) + 1000 * pace.host_den,
{
    let d = pace.host_num as int;
    let k = 1000 * pace.host_den as int;
    let a = n * 1000 * pace.host_den;
    assert(a == n * k && a >= 0) by (nonlinear_arith)
        requires
            a == n * 1000 * pace.host_den,
            k == 1000 * pace.host_den,
            n >= 0,
            pace.host_den >= 0,
    ;
    let m = n + pace.host_num as nat;
    assert(m * 1000 * pace.host_den == a + d * k) by (nonlinear_arith)
        requires
            a == n * k,
            k == 1000 * pace.host_den,
            m == n + d,
    ;
    lemma_fundamental_div_mod(a, d);
    assert(a + d * k == (a / d + k) * d + a % d) by (nonlinear_arith)
        requires
            a == d * (a / d) + a % d,
    ;
    lemma_fundamental_div_mod_converse(a + d * k, d, a / d + k, a % d);
    let c = (n + 1) * 1000 * pace.host_den;
    assert(c == a + k) by (nonlinear_arith)
        requires
            a == n * k,
            k == 1000 * pace.host_den,
            c == (n + 1) * 1000 * pace.host_den,
    ;
    nearest_is_monotone(a as nat, c as nat, d as nat);
}

proof fn nearest_is_monotone(a: nat, b: nat, d: nat)
    requires
        d > 0,
        a <= b,
    ensures
        nearest(a, d) <= nearest(b, d),
{
    nearest_is_nearest(a, d);
    nearest_is_nearest(b, d);
    let x = nearest(a, d);
    let y = nearest(b, d);
    assert(x <= y) by (nonlinear_arith)
        requires
            2 * (x * d) <= 2 * a + d,
            2 * b - 2 * (y * d) < d,
            a <= b,
            d > 0,
    ;
}

/// The axis covers the stage: its two ends are the stage's first and last
/// pixel, every value between lands on the stage, and a larger value never
/// lands on an earlier pixel.
pub proof fn axis_covers_the_stage(value: i32, more: i32, extent: u32)
    requires
        extent > 0,
        value <= more,
    ensures
        axis_pixel(0, extent) == 0,
        axis_pixel(MOUSE_AXIS_MAX, extent) == extent - 1,
        0 <= axis_pixel(value, extent) < extent,
        axis_pixel(value, extent) <= axis_pixel(more, extent),
{
    let last = extent - 1;
    let max = MOUSE_AXIS_MAX as int;
    let v = if value < 0 {
        0
    } else if value > max {
        max
    } else {
        value as int
    };
    let w = if more < 0 {
        0
    } else if more > max {
        max
    } else {
        more as int
    };
    assert(0 * last == 0) by (nonlinear_arith);
    assert(max * last / max == last) by {
        lemma_fundamental_div_mod_converse(max * last, max, last, 0);
    }
    assert(0 <= v * last <= w * last <= max * last) by (nonlinear_arith)
        requires
            0 <= v <= w <= max,
            last >= 0,
    ;
    lemma_div_is_ordered(0, v * last, max);
    lemma_div_is_ordered(v * last, w * last, max);
    lemma_div_is_ordered(w * last, max * last, max);
}

/// Whatever rate a host asks for, a movie keeps the rate that it was stored
/// with, to the last 256th. Asked for, the host's rate is the whole number that
/// was asked for; not asked for, it is the movie's own.
pub proof fn a_movie_keeps_its_stored_rate(rate: i16, fps: i64)
    ensures
        rate >= 1 ==> pace_of(rate, fps).rate_256 == rate,
        rate < 1 ==> pace_of(rate, fps).rate_256 == 1,
        fps > 0 ==> pace_of(rate, fps).host_num == fps && pace_of(rate, fps).host_den == 1,
        fps <= 0 && rate >= 1 ==> pace_of(rate, fps).host_num == rate && pace_of(
            rate,
            fps,
        ).host_den == 256,
        fps <= 0 && rate < 1 ==> pace_of(rate, fps).host_num == 1 && pace_of(rate, fps).host_den
            == 256,
        pace_of(rate, fps).well_formed(),
{
}

/// The movie frames due after `n` host frames at a rate that was asked for are
/// as many as begin, at the movie's stored rate, in the time that `n` host
/// frames take: the least whole number that is not below
/// `n * rate / (256 * fps)`.
pub proof fn due_frames_at_a_host_rate(rate: i16, fps: i64, n: nat)
    requires
        rate >= 1,
        fps > 0,
    ensures
        (pace_of(rate, fps).due(n) - 1) * (256 * fps) < n * rate,
        n * rate <= pace_of(rate, fps).due(n) * (256 * fps),
{
    let p = pace_of(rate, fps);
    movie_keeps_time(p, n);
    assert(n * p.rate_256 * p.host_den == n * rate) by (nonlinear_arith)
        requires
            p.rate_256 == rate,
            p.host_den == 1,
    ;
    assert((p.due(n) - 1) * (256 * fps) == p.due(n) * (256 * fps) - 256 * fps)
        by (nonlinear_arith);
}

/// Two settings of the host's rate, or none, do not make two movies: after equal
/// times equally many of its frames have run. The first host steps `n` times in
/// the time in which the second steps `m` times.
pub proof fn two_host_rates_run_one_movie(rate: i16, fps: i64, other: i64, n: nat, m: nat)
    requires
        rate >= 1,
        fps > 0,
        if other > 0 {
            n * other == m * fps
        } else {
            n * rate == m * (256 * fps)
        },
    ensures
        pace_of(rate, fps).due(n) == pace_of(rate, other).due(m),
{
    let p = pace_of(rate, fps);
    let q = pace_of(rate, other);
    assert(n * p.host_den * q.host_num == m * q.host_den * p.host_num) by (nonlinear_arith)
        requires
            p.host_den == 1,
            p.host_num == fps,
            if other > 0 {
                q.host_num == other && q.host_den == 1 && n * other == m * fps
            } else {
                q.host_num == rate && q.host_den == 256 && n * rate == m * (256 * fps)
            },
    ;
    host_rate_does_not_change_the_movie(p, q, n, m);
}

/// The clock of a movie stepped at a rate that was asked for is `n / fps`
/// seconds after `n` host frames, to the nearest millisecond.
pub proof fn the_clock_at_a_host_rate(rate: i16, fps: i64, n: nat)
    requires
        fps > 0,
    ensures
        -fps <= 2 * (1000 * n) - 2 * (pace_of(rate, fps).clock_at(n) * fps) < fps,
{
    let p = pace_of(rate, fps);
    the_clock_keeps_time(p, n);
    assert(n * 1000 * p.host_den == 1000 * n) by (nonlinear_arith)
        requires
            p.host_den == 1,
    ;
}

/// The clock of a movie stepped at its own rate is as far on as `n` of its
/// frames are long, to the nearest millisecond.
pub proof fn the_clock_at_the_movies_rate(rate: i16, fps: i64, n: nat)
    requires
        rate >= 1,
        fps <= 0,
    ensures
        -rate <= 2 * (256000 * n) - 2 * (pace_of(rate, fps).clock_at(n) * rate) < rate,
{
    let p = pace_of(rate, fps);
    the_clock_keeps_time(p, n);
    assert(n * 1000 * p.host_den == 256000 * n) by (nonlinear_arith)
        requires
            p.host_den == 256,
    ;
}

/// The host is told a rate that was asked for as that whole number, as far as
/// 32 bits hold it.
pub proof fn an_asked_rate_is_told_whole(rate: i16, fps: i64)
    requires
        fps > 0,
    ensures
        pace_of(rate, fps).vsync_ratio().1 == 1,
        fps <= i32::MAX ==> pace_of(rate, fps).vsync_ratio().0 == fps,
        fps > i32::MAX ==> pace_of(rate, fps).vsync_ratio().0 == i32::MAX,
{
}

/// The host is told the movie's own rate: exactly where it is a whole number,
/// and to the nearest thousandth of a frame where it is not.
pub proof fn a_movies_rate_survives_as_a_ratio(rate: i16, fps: i64)
    requires
        rate >= 1,
        fps <= 0,
    ensures
        ({
            let (num, den) = pace_of(rate, fps).vsync_ratio();
            if rate % 256 == 0 {
                den == 1 && num * 256 == rate
            } else {
                den == 1000 && -256 <= 2 * (rate * 1000) - 2 * (num * 256) < 256
            }
        }),
{
    nearest_is_nearest((rate * 1000) as nat, 256);
}

/// A stage is as many whole pixels long as fit in its twips, twenty to a pixel.
/// A negative measure is none.
pub proof fn a_pixel_is_twenty_twips(twips: i32)
    ensures
        twips >= 0 ==> 20 * stage_pixels_of(twips) <= twips < 20 * stage_pixels_of(twips) + 20,
        twips < 0 ==> stage_pixels_of(twips) == 0,
{
}

/// The pixel of an axis value divides the stage as the value divides the axis,
/// rounded down. A value beyond the axis is its end.
pub proof fn the_axis_is_proportional(value: i32, extent: u32)
    requires
        extent > 0,
    ensures
        0 <= value <= 8191 ==> 8191 * axis_pixel(value, extent) <= value * (extent - 1) < 8191 * (
        axis_pixel(value, extent) + 1),
        value < 0 ==> axis_pixel(value, extent) == 0,
        value > 8191 ==> axis_pixel(value, extent) == extent - 1,
{
    if 0 <= value <= 8191 {
        lemma_fundamental_div_mod(value * (extent - 1), 8191);
    } else {
        axis_covers_the_stage(if value < 0 { 0i32 } else { 8191i32 }, 8191, extent);
    }
    assert(0 * (extent - 1) == 0) by (nonlinear_arith);
}

/// On a stage with no pixels the axis stands for none, and its end for the one
/// before the first.
pub proof fn the_axis_of_no_stage(value: i32)
    ensures
        value < 8191 ==> axis_pixel(value, 0) == 0,
        value >= 8191 ==> axis_pixel(value, 0) == -1,
{
}

/// A frame of sound is whole stereo frames: the host's share of 44100 a second,
/// to the nearest, where a rate was asked for, and the movie's own share where
/// none was.
pub proof fn a_frame_of_sound_is_its_share(forced: Option<u64>, movie_frames: nat)
    requires
        forced matches Some(fps) ==> fps > 0,
    ensures
        frame_samples_of(forced, movie_frames) % 2 == 0,
        match forced {
            Some(fps) => {
                let frames = frame_samples_of(forced, movie_frames) / 2;
                -fps <= 2 * 44100 - 2 * (frames * fps) < fps
            },
            None => frame_samples_of(forced, movie_frames) == 2 * movie_frames,
        },
{
    if let Some(fps) = forced {
        nearest_is_nearest(44100, fps as nat);
    }
}

} // verus!
