//! The reference run: the same movie, outside of any sandbox, its trace and its
//! sound on record.
use vstd::prelude::*;
use vstd::utf8::encode_utf8;
use crate::config::maybe_text;
use crate::digest::{digest_from, digest_more};
use crate::log::traced_bytes;
use crate::pacing::{a_pixel_is_twenty_twips, stage_pixels, stage_pixels_of};
use crate::sha1::{sha1_hex, sha1_text};
use crate::text::{
    a_separator_parts_the_pieces, decimal_digits, hex_digits, one_piece_is_the_text, parse_u32, push_decimal, push_hex, same_text, split_at_each,
    split_text, texts, u32_of,
};

verus! {

/// Where the digest of a silent run's sound stands.
pub const SOUND_DIGEST_START: u64 = 1469598103934665603;

/// Captures a movie's trace.
pub struct CaptureLog {
    pub out: String,
}

impl CaptureLog {
    /// Nothing said yet.
    pub fn new() -> (log: CaptureLog)
        ensures
            log.out@ == Seq::<char>::empty(),
    {
        CaptureLog { out: String::new() }
    }

    /// Hands over what was said, and starts anew.
    pub fn take(&mut self) -> (said: String)
        ensures
            said@ == old(self).out@,
            final(self).out@ == Seq::<char>::empty(),
    {
        let mut said: String = String::new();
        std::mem::swap(&mut said, &mut self.out);
        said
    }

    /// The movie traced a message.
    pub fn avm_trace(&mut self, message: &str)
        ensures
            final(self).out@ == (old(self).out@ + message@).push('\n'),
    {
        self.out.append(message);
        self.out.push('\n');
    }
}

/// A scripted click: the pointer arrives in a frame, at a place whose two
/// coordinates are as they were written.
pub struct Click {
    pub frame: u32,
    pub x: String,
    pub y: String,
}

/// A scripted click, for contracts.
pub struct ClickView {
    pub frame: u32,
    pub x: Seq<char>,
    pub y: Seq<char>,
}

impl View for Click {
    type V = ClickView;

    open spec fn view(&self) -> ClickView {
        ClickView { frame: self.frame, x: self.x@, y: self.y@ }
    }
}

/// What a reference run was asked for.
pub struct Options {
    pub swf_path: String,
    /// How many frames to run.
    pub frames: u32,
    /// The frame rate as it was written, where it is not the movie's own.
    pub fps: Option<String>,
    pub spoof_url: Option<String>,
    /// The viewport, zero for the movie's own stage.
    pub width: u32,
    pub height: u32,
    pub audio_out: Option<String>,
    pub audio_peaks: Option<String>,
    pub clicks: Vec<Click>,
    /// Frames from the pointer's arrival to the press, and from there to the
    /// release.
    pub hover: u32,
    pub hold: u32,
    /// The clock moves by frames and not by itself.
    pub virtual_time: bool,
}

/// What a reference run was asked for, for contracts.
#[verifier::ext_equal]
pub struct OptionsView {
    pub swf_path: Seq<char>,
    pub frames: u32,
    pub fps: Option<Seq<char>>,
    pub spoof_url: Option<Seq<char>>,
    pub width: u32,
    pub height: u32,
    pub audio_out: Option<Seq<char>>,
    pub audio_peaks: Option<Seq<char>>,
    pub clicks: Seq<ClickView>,
    pub hover: u32,
    pub hold: u32,
    pub virtual_time: bool,
}

/// The clicks, for contracts.
pub open spec fn clicks_view(v: Seq<Click>) -> Seq<ClickView> {
    v.map_values(|c: Click| c@)
}

impl View for Options {
    type V = OptionsView;

    open spec fn view(&self) -> OptionsView {
        OptionsView {
            swf_path: self.swf_path@,
            frames: self.frames,
            fps: maybe_text(self.fps),
            spoof_url: maybe_text(self.spoof_url),
            width: self.width,
            height: self.height,
            audio_out: maybe_text(self.audio_out),
            audio_peaks: maybe_text(self.audio_peaks),
            clicks: clicks_view(self.clicks@),
            hover: self.hover,
            hold: self.hold,
            virtual_time: self.virtual_time,
        }
    }
}

/// Why a command line is none.
pub enum ArgError {
    /// No movie was named.
    Usage,
    /// There is no such option.
    Unknown(String),
    /// An option lacks its value.
    Missing(String),
    /// A value is no number.
    BadNumber(String),
}

/// Why a command line is none, for contracts.
pub enum ArgErrorView {
    Usage,
    Unknown(Seq<char>),
    Missing(Seq<char>),
    BadNumber(Seq<char>),
}

impl View for ArgError {
    type V = ArgErrorView;

    open spec fn view(&self) -> ArgErrorView {
        match self {
            ArgError::Usage => ArgErrorView::Usage,
            ArgError::Unknown(s) => ArgErrorView::Unknown(s@),
            ArgError::Missing(s) => ArgErrorView::Missing(s@),
            ArgError::BadNumber(s) => ArgErrorView::BadNumber(s@),
        }
    }
}

/// A run of one frame of the movie at its own stage and rate.
pub open spec fn plain_options(swf_path: Seq<char>) -> OptionsView {
    OptionsView {
        swf_path,
        frames: 1,
        fps: None,
        spoof_url: None,
        width: 0,
        height: 0,
        audio_out: None,
        audio_peaks: None,
        clicks: Seq::empty(),
        hover: 0,
        hold: 2,
        virtual_time: false,
    }
}

/// The clicks that a list of `frame:x:y` spells. What is not made of three
/// parts is no click.
pub open spec fn clicks_of(parts: Seq<Seq<char>>) -> Result<Seq<ClickView>, Seq<char>>
    decreases parts.len(),
{
    if parts.len() == 0 {
        Ok(Seq::empty())
    } else {
        match clicks_of(parts.drop_last()) {
            Err(e) => Err(e),
            Ok(before) => {
                let f = split_at_each(parts.last(), ':');
                if f.len() != 3 {
                    Ok(before)
                } else {
                    match u32_of(f[0]) {
                        Some(frame) => Ok(before.push(ClickView { frame, x: f[1], y: f[2] })),
                        None => Err(f[0]),
                    }
                }
            },
        }
    }
}

/// A flag with a value, taken into `o`. `None` where there is no such flag.
pub open spec fn with_value(o: OptionsView, flag: Seq<char>, value: Seq<char>) -> Option<
    Result<OptionsView, Seq<char>>,
> {
    if flag == "--frames"@ {
        Some(
            match u32_of(value) {
                Some(frames) => Ok(OptionsView { frames, ..o }),
                None => Err(value),
            },
        )
    } else if flag == "--fps"@ {
        Some(Ok(OptionsView { fps: Some(value), ..o }))
    } else if flag == "--spoof-url"@ {
        Some(Ok(OptionsView { spoof_url: Some(value), ..o }))
    } else if flag == "--width"@ {
        Some(
            match u32_of(value) {
                Some(width) => Ok(OptionsView { width, ..o }),
                None => Err(value),
            },
        )
    } else if flag == "--height"@ {
        Some(
            match u32_of(value) {
                Some(height) => Ok(OptionsView { height, ..o }),
                None => Err(value),
            },
        )
    } else if flag == "--audio-out"@ {
        Some(Ok(OptionsView { audio_out: Some(value), ..o }))
    } else if flag == "--audio-peaks"@ {
        Some(Ok(OptionsView { audio_peaks: Some(value), ..o }))
    } else if flag == "--click"@ {
        Some(
            match clicks_of(split_at_each(value, ',')) {
                Ok(clicks) => Ok(OptionsView { clicks: o.clicks + clicks, ..o }),
                Err(e) => Err(e),
            },
        )
    } else if flag == "--hover"@ {
        Some(
            match u32_of(value) {
                Some(hover) => Ok(OptionsView { hover, ..o }),
                None => Err(value),
            },
        )
    } else if flag == "--hold"@ {
        Some(
            match u32_of(value) {
                Some(hold) => Ok(OptionsView { hold, ..o }),
                None => Err(value),
            },
        )
    } else {
        None
    }
}

/// The options from argument `i` on, taken into `o`.
pub open spec fn options_from(args: Seq<Seq<char>>, i: int, o: OptionsView) -> Result<
    OptionsView,
    ArgErrorView,
>
    decreases args.len() - i,
{
    if i >= args.len() {
        Ok(o)
    } else if args[i] == "--virtual-time"@ {
        options_from(args, i + 1, OptionsView { virtual_time: true, ..o })
    } else if with_value(o, args[i], Seq::empty()) is None {
        Err(ArgErrorView::Unknown(args[i]))
    } else if i + 1 >= args.len() {
        Err(ArgErrorView::Missing(args[i]))
    } else {
        match with_value(o, args[i], args[i + 1])->0 {
            Ok(next) => options_from(args, i + 2, next),
            Err(value) => Err(ArgErrorView::BadNumber(value)),
        }
    }
}

/// What a command line asks for: a program, a movie, and options.
pub open spec fn asked(args: Seq<Seq<char>>) -> Result<OptionsView, ArgErrorView> {
    if args.len() < 2 {
        Err(ArgErrorView::Usage)
    } else {
        options_from(args, 2, plain_options(args[1]))
    }
}

/// Adds the clicks that a list of `frame:x:y` spells.
fn read_clicks(clicks: &mut Vec<Click>, value: &str) -> (bad: Option<String>)
    ensures
        match clicks_of(split_at_each(value@, ',')) {
            Ok(more) => bad is None && clicks_view(final(clicks)@) == clicks_view(old(clicks)@)
                + more,
            Err(e) => bad matches Some(b) && b@ == e,
        },
{
    let parts: Vec<String> = split_text(value, ',');
    let ghost all = texts(parts@);
    let ghost before = clicks_view(clicks@);
    let count: usize = parts.len();
    proof {
        assert(clicks_of(all.take(0)) == Ok::<Seq<ClickView>, Seq<char>>(Seq::empty()));
        assert(before + Seq::<ClickView>::empty() =~= before);
    }
    for i in 0usize..count
        invariant
            all == texts(parts@),
            all == split_at_each(value@, ','),
            count == parts@.len(),
            clicks_of(all.take(i as int)) is Ok,
            clicks_view(clicks@) == before + clicks_of(all.take(i as int))->Ok_0,
    {
        assert(all.take(i + 1).drop_last() =~= all.take(i as int));
        assert(all.take(i + 1).last() == parts@[i as int]@);
        let mut f: Vec<String> = split_text(parts[i].as_str(), ':');
        let ghost fields = texts(f@);
        if f.len() == 3 {
            assert(fields[0] == f@[0]@ && fields[1] == f@[1]@ && fields[2] == f@[2]@);
            match parse_u32(f[0].as_str()) {
                Some(frame) => {
                    let y: String = f.remove(2);
                    let x: String = f.remove(1);
                    let ghost was = clicks@;
                    clicks.push(Click { frame, x, y });
                    assert(clicks_view(clicks@) =~= clicks_view(was).push(
                        ClickView { frame, x: fields[1], y: fields[2] },
                    ));
                    assert(clicks_view(clicks@) =~= before + clicks_of(
                        all.take(i + 1),
                    )->Ok_0);
                },
                None => {
                    proof {
                        bad_click_is_last(all, i + 1);
                    }
                    return Some(f.remove(0));
                },
            }
        }
    }
    assert(all.take(count as int) =~= all);
    None
}

proof fn bad_click_is_last(parts: Seq<Seq<char>>, n: int)
    requires
        0 <= n <= parts.len(),
        clicks_of(parts.take(n)) is Err,
    ensures
        clicks_of(parts) == clicks_of(parts.take(n)),
    decreases parts.len() - n,
{
    if n < parts.len() {
        assert(parts.take(n + 1).drop_last() =~= parts.take(n));
        bad_click_is_last(parts, n + 1);
    } else {
        assert(parts.take(n) =~= parts);
    }
}

/// Takes a flag with a value into the options.
fn take_value(o: &mut Options, flag: &str, value: &String) -> (r: Option<Result<(), String>>)
    ensures
        match with_value(old(o)@, flag@, value@) {
            None => r is None && *final(o) == *old(o),
            Some(Ok(next)) => r matches Some(Ok(_)) && final(o)@ == next,
            Some(Err(e)) => r matches Some(Err(bad)) && bad@ == e,
        },
{
    if same_text(flag, "--frames") {
        match parse_u32(value.as_str()) {
            Some(n) => {
                o.frames = n;
                Some(Ok(()))
            },
            None => Some(Err(value.clone())),
        }
    } else if same_text(flag, "--fps") {
        o.fps = Some(value.clone());
        Some(Ok(()))
    } else if same_text(flag, "--spoof-url") {
        o.spoof_url = Some(value.clone());
        Some(Ok(()))
    } else if same_text(flag, "--width") {
        match parse_u32(value.as_str()) {
            Some(n) => {
                o.width = n;
                Some(Ok(()))
            },
            None => Some(Err(value.clone())),
        }
    } else if same_text(flag, "--height") {
        match parse_u32(value.as_str()) {
            Some(n) => {
                o.height = n;
                Some(Ok(()))
            },
            None => Some(Err(value.clone())),
        }
    } else if same_text(flag, "--audio-out") {
        o.audio_out = Some(value.clone());
        Some(Ok(()))
    } else if same_text(flag, "--audio-peaks") {
        o.audio_peaks = Some(value.clone());
        Some(Ok(()))
    } else if same_text(flag, "--click") {
        match read_clicks(&mut o.clicks, value.as_str()) {
            None => Some(Ok(())),
            Some(bad) => Some(Err(bad)),
        }
    } else if same_text(flag, "--hover") {
        match parse_u32(value.as_str()) {
            Some(n) => {
                o.hover = n;
                Some(Ok(()))
            },
            None => Some(Err(value.clone())),
        }
    } else if same_text(flag, "--hold") {
        match parse_u32(value.as_str()) {
            Some(n) => {
                o.hold = n;
                Some(Ok(()))
            },
            None => Some(Err(value.clone())),
        }
    } else {
        None
    }
}

/// Whether a flag is one that has a value.
fn has_value(flag: &str) -> (r: bool)
    ensures
        forall|o: OptionsView, v: Seq<char>| r == (#[trigger] with_value(o, flag@, v) is Some),
{
    same_text(flag, "--frames") || same_text(flag, "--fps") || same_text(flag, "--spoof-url")
        || same_text(flag, "--width") || same_text(flag, "--height") || same_text(
        flag,
        "--audio-out",
    ) || same_text(flag, "--audio-peaks") || same_text(flag, "--click") || same_text(
        flag,
        "--hover",
    ) || same_text(flag, "--hold")
}

/// Reads a command line.
pub fn parse_args(args: &Vec<String>) -> (r: Result<Options, ArgError>)
    ensures
        match r {
            Ok(o) => asked(texts(args@)) == Ok::<OptionsView, ArgErrorView>(o@),
            Err(e) => asked(texts(args@)) == Err::<OptionsView, ArgErrorView>(e@),
        },
{
    let count: usize = args.len();
    if count < 2 {
        return Err(ArgError::Usage);
    }
    let mut o: Options = Options {
        swf_path: args[1].clone(),
        frames: 1,
        fps: None,
        spoof_url: None,
        width: 0,
        height: 0,
        audio_out: None,
        audio_peaks: None,
        clicks: Vec::new(),
        hover: 0,
        hold: 2,
        virtual_time: false,
    };
    let ghost all = texts(args@);
    assert(clicks_view(o.clicks@) =~= Seq::<ClickView>::empty());
    assert(o@ =~= plain_options(all[1]));
    let mut i: usize = 2;
    while i < count
        invariant
            count == args@.len(),
            2 <= i <= count,
            all == texts(args@),
            asked(all) == options_from(all, i as int, o@),
        decreases count - i,
    {
        assert(all[i as int] == args@[i as int]@);
        let flag: &str = args[i].as_str();
        if same_text(flag, "--virtual-time") {
            o.virtual_time = true;
            i += 1;
        } else if !has_value(flag) {
            return Err(ArgError::Unknown(flag.to_owned()));
        } else if i + 1 >= count {
            return Err(ArgError::Missing(flag.to_owned()));
        } else {
            assert(all[i + 1] == args@[i + 1]@);
            match take_value(&mut o, flag, &args[i + 1]) {
                Some(Ok(_)) => {},
                Some(Err(bad)) => {
                    return Err(ArgError::BadNumber(bad));
                },
                None => {},
            }
            i += 2;
        }
    }
    Ok(o)
}

/// A side of the viewport, given what was asked for and the movie's own.
pub open spec fn side_of(asked_for: u32, twips: i32) -> u32 {
    if asked_for != 0 {
        asked_for
    } else if stage_pixels_of(twips) == 0 {
        1u32
    } else {
        stage_pixels_of(twips)
    }
}

/// A side of the viewport: what was asked for, or the movie's own stage where
/// nothing was.
pub fn viewport_side(asked_for: u32, twips: i32) -> (r: u32)
    ensures
        r == side_of(asked_for, twips),
{
    if asked_for != 0 {
        return asked_for;
    }
    let own: u32 = stage_pixels(twips);
    if own == 0 {
        1
    } else {
        own
    }
}

/// One thing a frame of the reference run does.
#[derive(Clone, Copy, PartialEq, Eq, Structural, Debug)]
pub enum NativeAction {
    AdvanceTime,
    RunFrame,
    UpdateTimers,
    MixAudio,
    /// The pointer arrives at the place of this click, presses, releases.
    PointerMove(usize),
    PointerDown(usize),
    PointerUp(usize),
    Render,
}

/// What click `k` does in a frame.
pub open spec fn click_actions(c: Click, k: int, frame: u32, hover: u32, hold: u32) -> Seq<
    NativeAction,
> {
    (if frame == c.frame {
        seq![NativeAction::PointerMove(k as usize)]
    } else {
        Seq::empty()
    }) + (if frame == c.frame + hover {
        seq![NativeAction::PointerDown(k as usize)]
    } else {
        Seq::empty()
    }) + (if frame == c.frame + hover + hold {
        seq![NativeAction::PointerUp(k as usize)]
    } else {
        Seq::empty()
    })
}

/// What the first `n` clicks do in a frame.
pub open spec fn script_actions(clicks: Seq<Click>, n: nat, frame: u32, hover: u32, hold: u32) -> Seq<
    NativeAction,
>
    decreases n,
{
    if n == 0 {
        Seq::empty()
    } else {
        script_actions(clicks, (n - 1) as nat, frame, hover, hold) + click_actions(
            clicks[n - 1],
            n - 1,
            frame,
            hover,
            hold,
        )
    }
}

/// A whole frame: the input lands after the movie ran and before it is drawn.
pub open spec fn native_frame(o: Options, frame: u32) -> Seq<NativeAction> {
    (if o.virtual_time {
        seq![NativeAction::AdvanceTime]
    } else {
        Seq::empty()
    }) + seq![NativeAction::RunFrame, NativeAction::UpdateTimers, NativeAction::MixAudio]
        + script_actions(o.clicks@, o.clicks@.len(), frame, o.hover, o.hold) + seq![
        NativeAction::Render,
    ]
}

/// The script ends within the frames there are numbers for.
pub open spec fn script_countable(o: Options) -> bool {
    forall|k: int|
        0 <= k < o.clicks@.len() ==> (#[trigger] o.clicks@[k]).frame + o.hover + o.hold <= u32::MAX
}

/// Says what a frame of the reference run does, in order.
pub fn frame_plan(o: &Options, frame: u32) -> (plan: Vec<NativeAction>)
    requires
        script_countable(*o),
    ensures
        plan@ == native_frame(*o, frame),
{
    let mut plan: Vec<NativeAction> = Vec::new();
    if o.virtual_time {
        plan.push(NativeAction::AdvanceTime);
    }
    plan.push(NativeAction::RunFrame);
    plan.push(NativeAction::UpdateTimers);
    plan.push(NativeAction::MixAudio);
    let ghost head = plan@;
    let count: usize = o.clicks.len();
    for k in 0usize..count
        invariant
            script_countable(*o),
            count == o.clicks@.len(),
            plan@ == head + script_actions(o.clicks@, k as nat, frame, o.hover, o.hold),
    {
        let ghost before = plan@;
        let at: u32 = o.clicks[k].frame;
        assert(o.clicks@[k as int].frame == at);
        if frame == at {
            plan.push(NativeAction::PointerMove(k));
        }
        if frame == at + o.hover {
            plan.push(NativeAction::PointerDown(k));
        }
        if frame == at + o.hover + o.hold {
            plan.push(NativeAction::PointerUp(k));
        }
        assert(plan@ =~= before + click_actions(
            o.clicks@[k as int],
            k as int,
            frame,
            o.hover,
            o.hold,
        ));
    }
    plan.push(NativeAction::Render);
    assert(plan@ =~= native_frame(*o, frame));
    plan
}

/// The low and the high byte of a sample.
pub open spec fn low_byte(s: i16) -> u8 {
    (s as u16 & 0xff) as u8
}

pub open spec fn high_byte(s: i16) -> u8 {
    (s as u16 >> 8) as u8
}

/// Samples as bytes, the low one of each first.
pub open spec fn sound_bytes(samples: Seq<i16>) -> Seq<u8> {
    Seq::new(
        2 * samples.len(),
        |i: int|
            if i % 2 == 0 {
                low_byte(samples[i / 2])
            } else {
                high_byte(samples[i / 2])
            },
    )
}

/// How far a sample is from silence.
pub open spec fn loudness(s: i16) -> int {
    if s < 0 {
        -s
    } else {
        s as int
    }
}

/// How far the loudest of the samples is from silence.
pub open spec fn peak_of(samples: Seq<i16>) -> int
    decreases samples.len(),
{
    if samples.len() == 0 {
        0
    } else if loudness(samples.last()) > peak_of(samples.drop_last()) {
        loudness(samples.last())
    } else {
        peak_of(samples.drop_last())
    }
}

/// What a reference run leaves behind, beside the trace.
pub struct Recording {
    /// Every frame's sound.
    pub audio: Vec<u8>,
    /// Every frame's loudest sample.
    pub peaks: Vec<i32>,
    /// The movie's own frame, as last told.
    pub last_frame: u16,
}

impl Recording {
    /// `next` is this with a frame more: its sound, its loudest sample, and where
    /// the movie says it is.
    pub open spec fn takes_down(
        self,
        next: Recording,
        samples: Seq<i16>,
        current: Option<u16>,
    ) -> bool {
        &&& next.audio@ == self.audio@ + sound_bytes(samples)
        &&& next.peaks@ == self.peaks@.push(peak_of(samples) as i32)
        &&& next.last_frame == match current {
            Some(frame) => frame,
            None => self.last_frame,
        }
    }

    /// Nothing yet.
    pub fn new() -> (r: Recording)
        ensures
            r.audio@ == Seq::<u8>::empty(),
            r.peaks@ == Seq::<i32>::empty(),
            r.last_frame == 0,
    {
        Recording { audio: Vec::new(), peaks: Vec::new(), last_frame: 0 }
    }

    /// Takes down a frame: its sound, and the frame the movie is in where it
    /// says so.
    pub fn frame(&mut self, samples: &[i16], current: Option<u16>)
        ensures
            old(self).takes_down(*final(self), samples@, current),
    {
        let ghost before = self.audio@;
        let ghost peaks = self.peaks@;
        let ghost last = self.last_frame;
        let mut peak: i32 = 0;
        let count: usize = samples.len();
        for i in 0usize..count
            invariant
                count == samples@.len(),
                peak == peak_of(samples@.take(i as int)),
                0 <= peak <= 32768,
                self.audio@ == before + sound_bytes(samples@.take(i as int)),
                self.peaks@ == peaks,
                self.last_frame == last,
        {
            let s: i16 = samples[i];
            assert(samples@.take(i + 1).drop_last() =~= samples@.take(i as int));
            let bits: u16 = s as u16;
            self.audio.push((bits & 0xff) as u8);
            self.audio.push((bits >> 8) as u8);
            assert(self.audio@ =~= before + sound_bytes(samples@.take(i + 1)));
            let wide: i32 = s as i32;
            let loud: i32 = if wide < 0 {
                -wide
            } else {
                wide
            };
            if loud > peak {
                peak = loud;
            }
        }
        assert(samples@.take(count as int) =~= samples@);
        self.peaks.push(peak);
        match current {
            Some(frame) => {
                self.last_frame = frame;
            },
            None => {},
        }
    }

    /// The one line a run is known by.
    pub fn summary(&self, frames: u32, trace: &str) -> (r: String)
        requires
            encode_utf8(trace@).len() * 8 <= u64::MAX,
        ensures
            r@ == summary_of(frames, trace@, self.last_frame, self.audio@),
    {
        let bytes: &[u8] = trace.as_bytes();
        let mut line: String = "ruffle: frames=".to_owned();
        push_decimal(&mut line, frames as u64);
        line.append(" traceBytes=");
        push_decimal(&mut line, bytes.len() as u64);
        line.append(" traceSha1=");
        line.append(sha1_hex(bytes).as_str());
        line.append(" lastFrame=");
        push_decimal(&mut line, self.last_frame as u64);
        line.append(" audioBytes=");
        push_decimal(&mut line, self.audio.len() as u64);
        line.append(" audioDigest=");
        push_hex(&mut line, digest_more(SOUND_DIGEST_START, self.audio.as_slice()), 16);
        line
    }
}

/// The line a run is known by: how far it went, and what it said and sounded
/// like.
pub open spec fn summary_of(frames: u32, trace: Seq<char>, last_frame: u16, audio: Seq<u8>) -> Seq<
    char,
> {
    "ruffle: frames="@ + decimal_digits(frames as nat) + " traceBytes="@ + decimal_digits(
        encode_utf8(trace).len(),
    ) + " traceSha1="@ + sha1_text(encode_utf8(trace)) + " lastFrame="@ + decimal_digits(
        last_frame as nat,
    ) + " audioBytes="@ + decimal_digits(audio.len()) + " audioDigest="@ + hex_digits(
        digest_from(SOUND_DIGEST_START, audio) as nat,
        16,
    )
}

/// A whole trace as the reference run keeps it.
pub open spec fn traced_text(messages: Seq<Seq<char>>) -> Seq<char>
    decreases messages.len(),
{
    if messages.len() == 0 {
        Seq::empty()
    } else {
        (traced_text(messages.drop_last()) + messages.last()).push('\n')
    }
}

proof fn encoding_joins(a: Seq<char>, b: Seq<char>)
    ensures
        encode_utf8(a + b) == encode_utf8(a) + encode_utf8(b),
    decreases a.len(),
{
    if a.len() == 0 {
        assert(a + b =~= b);
    } else {
        encoding_joins(a.drop_first(), b);
        assert((a + b).drop_first() =~= a.drop_first() + b);
    }
}

proof fn newline_is_one_byte()
    ensures
        encode_utf8(seq!['\n']) == seq![10u8],
{
    assert(seq!['\n'].drop_first() =~= Seq::<char>::empty());
    reveal_with_fuel(encode_utf8, 2);
    assert((10u32 & 0x7f) as u8 == 10u8) by (bit_vector);
}

/// A movie that says the same things in the sandbox and outside of it leaves
/// the same trace, byte for byte: the two can be compared.
pub proof fn both_runs_keep_one_trace(messages: Seq<Seq<char>>)
    ensures
        encode_utf8(traced_text(messages)) == traced_bytes(messages),
    decreases messages.len(),
{
    if messages.len() > 0 {
        let before = traced_text(messages.drop_last());
        let last = messages.last();
        both_runs_keep_one_trace(messages.drop_last());
        encoding_joins(before, last);
        encoding_joins(before + last, seq!['\n']);
        newline_is_one_byte();
        assert((before + last).push('\n') =~= before + last + seq!['\n']);
    }
}

/// The bytes of a sound are the sound: no two sounds have the same.
pub proof fn sound_survives_as_bytes(a: Seq<i16>, b: Seq<i16>)
    requires
        sound_bytes(a) == sound_bytes(b),
    ensures
        a == b,
{
    assert(sound_bytes(a).len() == 2 * a.len() && sound_bytes(b).len() == 2 * b.len());
    assert(a.len() == b.len());
    assert forall|i: int| 0 <= i < a.len() implies a[i] == b[i] by {
        assert(sound_bytes(a)[2 * i] == low_byte(a[i]));
        assert(sound_bytes(b)[2 * i] == low_byte(b[i]));
        assert(sound_bytes(a)[2 * i + 1] == high_byte(a[i]));
        assert(sound_bytes(b)[2 * i + 1] == high_byte(b[i]));
        let s = a[i];
        let t = b[i];
        assert((s as u16 & 0xff) as u8 == (t as u16 & 0xff) as u8 && (s as u16 >> 8) as u8 == (
        t as u16 >> 8) as u8 ==> s == t) by (bit_vector);
    }
    assert(a =~= b);
}

/// No sample is louder than the peak, and one is as loud.
pub proof fn peak_is_the_loudest(samples: Seq<i16>)
    ensures
        0 <= peak_of(samples) <= 32768,
        forall|i: int|
            0 <= i < samples.len() ==> loudness(#[trigger] samples[i]) <= peak_of(samples),
        samples.len() > 0 ==> exists|i: int|
            0 <= i < samples.len() && loudness(#[trigger] samples[i]) == peak_of(samples),
    decreases samples.len(),
{
    if samples.len() > 0 {
        let before = samples.drop_last();
        peak_is_the_loudest(before);
        assert forall|i: int| 0 <= i < samples.len() implies loudness(#[trigger] samples[i])
            <= peak_of(samples) by {
            if i < before.len() {
                assert(before[i] == samples[i]);
            }
        }
        if before.len() == 0 || loudness(samples.last()) > peak_of(before) {
            assert(loudness(samples[samples.len() - 1]) == peak_of(samples));
        } else {
            let i = choose|i: int|
                0 <= i < before.len() && loudness(#[trigger] before[i]) == peak_of(before);
            assert(loudness(samples[i]) == peak_of(samples));
        }
    }
}

/// Whether an action is the pointer's.
pub open spec fn is_input(a: NativeAction) -> bool {
    a is PointerMove || a is PointerDown || a is PointerUp
}

proof fn script_is_input(clicks: Seq<Click>, n: nat, frame: u32, hover: u32, hold: u32)
    ensures
        forall|i: int|
            0 <= i < script_actions(clicks, n, frame, hover, hold).len() ==> is_input(
                #[trigger] script_actions(clicks, n, frame, hover, hold)[i],
            ),
    decreases n,
{
    if n > 0 {
        script_is_input(clicks, (n - 1) as nat, frame, hover, hold);
        let before = script_actions(clicks, (n - 1) as nat, frame, hover, hold);
        let last = click_actions(clicks[n - 1], n - 1, frame, hover, hold);
        assert forall|i: int|
            0 <= i < script_actions(clicks, n, frame, hover, hold).len() implies is_input(
            #[trigger] script_actions(clicks, n, frame, hover, hold)[i],
        ) by {
            if i < before.len() {
                assert(script_actions(clicks, n, frame, hover, hold)[i] == before[i]);
            } else {
                assert(script_actions(clicks, n, frame, hover, hold)[i] == last[i - before.len()]);
            }
        }
    }
}

/// In every frame all input lands after the movie ran and sounded, and before
/// it is drawn: where the sandboxed run has it too.
pub proof fn input_lands_before_the_picture(o: Options, frame: u32)
    ensures
        native_frame(o, frame).last() == NativeAction::Render,
        native_frame(o, frame)[if o.virtual_time {
            3
        } else {
            2
        }] == NativeAction::MixAudio,
        forall|i: int|
            0 <= i < native_frame(o, frame).len() ==> (is_input(
                #[trigger] native_frame(o, frame)[i],
            ) <==> (if o.virtual_time {
                3int
            } else {
                2
            }) < i < native_frame(o, frame).len() - 1),
{
    script_is_input(o.clicks@, o.clicks@.len(), frame, o.hover, o.hold);
    let script = script_actions(o.clicks@, o.clicks@.len(), frame, o.hover, o.hold);
    let head: int = if o.virtual_time {
        4
    } else {
        3
    };
    assert forall|i: int| 0 <= i < native_frame(o, frame).len() implies (is_input(
        #[trigger] native_frame(o, frame)[i],
    ) <==> head <= i < native_frame(o, frame).len() - 1) by {
        if head <= i < native_frame(o, frame).len() - 1 {
            assert(native_frame(o, frame)[i] == script[i - head]);
        }
    }
}

/// A click arrives, presses and releases in one frame each, in this order,
/// and does nothing in any other.
pub proof fn a_click_happens_once(c: Click, k: int, frame: u32, hover: u32, hold: u32)
    requires
        0 <= k <= usize::MAX,
    ensures
        ({
            let a = click_actions(c, k, frame, hover, hold);
            &&& a.contains(NativeAction::PointerMove(k as usize)) <==> frame == c.frame
            &&& a.contains(NativeAction::PointerDown(k as usize)) <==> frame == c.frame + hover
            &&& a.contains(NativeAction::PointerUp(k as usize)) <==> frame == c.frame + hover
                + hold
            &&& forall|i: int| 0 < i < a.len() ==> !(#[trigger] a[i] is PointerMove)
            &&& forall|i: int| 0 <= i < a.len() - 1 ==> !(#[trigger] a[i] is PointerUp)
            &&& a.len() <= 3
        }),
{
    let a = click_actions(c, k, frame, hover, hold);
    if frame == c.frame {
        assert(a[0] == NativeAction::PointerMove(k as usize));
    }
    if frame == c.frame + hover {
        assert(a[if frame == c.frame {
            1
        } else {
            0
        }] == NativeAction::PointerDown(k as usize));
    }
    if frame == c.frame + hover + hold {
        assert(a.last() == NativeAction::PointerUp(k as usize));
    }
}

/// A part of a click list is a click where it is a frame and two coordinates with
/// colons between; the frame has to be a number, and what was bad before stays
/// bad.
pub proof fn a_click_is_a_frame_and_a_place(
    parts: Seq<Seq<char>>,
    frame: Seq<char>,
    x: Seq<char>,
    y: Seq<char>,
)
    requires
        !frame.contains(':'),
        !x.contains(':'),
        !y.contains(':'),
    ensures
        clicks_of(Seq::<Seq<char>>::empty()) == Ok::<Seq<ClickView>, Seq<char>>(Seq::empty()),
        clicks_of(parts.push(frame.push(':') + (x.push(':') + y))) == match clicks_of(parts) {
            Err(e) => Err::<Seq<ClickView>, Seq<char>>(e),
            Ok(before) => match u32_of(frame) {
                Some(n) => Ok(before.push(ClickView { frame: n, x, y })),
                None => Err(frame),
            },
        },
{
    let part = frame.push(':') + (x.push(':') + y);
    let all = parts.push(part);
    assert(all.drop_last() =~= parts);
    a_separator_parts_the_pieces(frame, x.push(':') + y, ':');
    a_separator_parts_the_pieces(x, y, ':');
    one_piece_is_the_text(frame, ':');
    one_piece_is_the_text(x, ':');
    one_piece_is_the_text(y, ':');
    assert(split_at_each(part, ':') =~= seq![frame, x, y]);
}

/// A part of a click list that is not three parts is passed over.
pub proof fn what_is_no_click_is_passed_over(parts: Seq<Seq<char>>, part: Seq<char>)
    requires
        split_at_each(part, ':').len() != 3,
    ensures
        clicks_of(parts.push(part)) == clicks_of(parts),
{
    assert(parts.push(part).drop_last() =~= parts);
}

/// A command line that names no movie is none; any other asks for one frame of
/// it, at its own stage and rate, with nothing clicked, and for what the options
/// behind it change.
pub proof fn a_command_line_names_a_movie(args: Seq<Seq<char>>)
    ensures
        args.len() < 2 ==> asked(args) == Err::<OptionsView, ArgErrorView>(ArgErrorView::Usage),
        args.len() >= 2 ==> asked(args) == options_from(
            args,
            2,
            OptionsView {
                swf_path: args[1],
                frames: 1,
                fps: None,
                spoof_url: None,
                width: 0,
                height: 0,
                audio_out: None,
                audio_peaks: None,
                clicks: Seq::empty(),
                hover: 0,
                hold: 2,
                virtual_time: false,
            },
        ),
{
}

/// Each option changes what it is called after and nothing else, and takes the
/// argument behind it as its value, but for the one that has none. What is behind
/// the last argument changes nothing.
pub proof fn each_option_changes_its_own(args: Seq<Seq<char>>, i: int, o: OptionsView)
    requires
        0 <= i,
    ensures
        i >= args.len() ==> options_from(args, i, o) == Ok::<OptionsView, ArgErrorView>(o),
        i < args.len() && args[i] == "--virtual-time"@ ==> options_from(args, i, o)
            == options_from(args, i + 1, OptionsView { virtual_time: true, ..o }),
        i + 1 < args.len() ==> {
            let value = args[i + 1];
            let bad = Err::<OptionsView, ArgErrorView>(ArgErrorView::BadNumber(value));
            &&& args[i] == "--frames"@ ==> options_from(args, i, o) == match u32_of(value) {
                Some(frames) => options_from(args, i + 2, OptionsView { frames, ..o }),
                None => bad,
            }
            &&& args[i] == "--width"@ ==> options_from(args, i, o) == match u32_of(value) {
                Some(width) => options_from(args, i + 2, OptionsView { width, ..o }),
                None => bad,
            }
            &&& args[i] == "--height"@ ==> options_from(args, i, o) == match u32_of(value) {
                Some(height) => options_from(args, i + 2, OptionsView { height, ..o }),
                None => bad,
            }
            &&& args[i] == "--hover"@ ==> options_from(args, i, o) == match u32_of(value) {
                Some(hover) => options_from(args, i + 2, OptionsView { hover, ..o }),
                None => bad,
            }
            &&& args[i] == "--hold"@ ==> options_from(args, i, o) == match u32_of(value) {
                Some(hold) => options_from(args, i + 2, OptionsView { hold, ..o }),
                None => bad,
            }
            &&& args[i] == "--fps"@ ==> options_from(args, i, o) == options_from(
                args,
                i + 2,
                OptionsView { fps: Some(value), ..o },
            )
            &&& args[i] == "--spoof-url"@ ==> options_from(args, i, o) == options_from(
                args,
                i + 2,
                OptionsView { spoof_url: Some(value), ..o },
            )
            &&& args[i] == "--audio-out"@ ==> options_from(args, i, o) == options_from(
                args,
                i + 2,
                OptionsView { audio_out: Some(value), ..o },
            )
            &&& args[i] == "--audio-peaks"@ ==> options_from(args, i, o) == options_from(
                args,
                i + 2,
                OptionsView { audio_peaks: Some(value), ..o },
            )
            &&& args[i] == "--click"@ ==> options_from(args, i, o) == match clicks_of(
                split_at_each(value, ','),
            ) {
                Ok(more) => options_from(
                    args,
                    i + 2,
                    OptionsView { clicks: o.clicks + more, ..o },
                ),
                Err(e) => Err(ArgErrorView::BadNumber(e)),
            }
        },
{
    flags_differ();
}

proof fn flags_differ()
    ensures
        "--virtual-time"@.len() == 14,
        "--frames"@.len() == 8 && "--frames"@[2] == 'f',
        "--height"@.len() == 8 && "--height"@[2] == 'h',
        "--fps"@.len() == 5,
        "--spoof-url"@.len() == 11 && "--spoof-url"@[2] == 's',
        "--audio-out"@.len() == 11 && "--audio-out"@[2] == 'a',
        "--audio-peaks"@.len() == 13,
        "--width"@.len() == 7 && "--width"@[2] == 'w',
        "--click"@.len() == 7 && "--click"@[2] == 'c',
        "--hover"@.len() == 7 && "--hover"@[2] == 'h',
        "--hold"@.len() == 6,
{
    reveal_strlit("--virtual-time");
    reveal_strlit("--frames");
    reveal_strlit("--fps");
    reveal_strlit("--spoof-url");
    reveal_strlit("--width");
    reveal_strlit("--height");
    reveal_strlit("--audio-out");
    reveal_strlit("--audio-peaks");
    reveal_strlit("--click");
    reveal_strlit("--hover");
    reveal_strlit("--hold");
}

/// An argument that is no option is refused by name, and an option at the end of
/// the line, without its value, too.
pub proof fn what_is_no_option_is_refused(args: Seq<Seq<char>>, i: int, o: OptionsView)
    requires
        0 <= i < args.len(),
        args[i] != "--virtual-time"@,
    ensures
        ({
            let known = args[i] == "--frames"@ || args[i] == "--fps"@ || args[i]
                == "--spoof-url"@ || args[i] == "--width"@ || args[i] == "--height"@ || args[i]
                == "--audio-out"@ || args[i] == "--audio-peaks"@ || args[i] == "--click"@
                || args[i] == "--hover"@ || args[i] == "--hold"@;
            &&& !known ==> options_from(args, i, o) == Err::<OptionsView, ArgErrorView>(
                ArgErrorView::Unknown(args[i]),
            )
            &&& known && i + 1 == args.len() ==> options_from(args, i, o) == Err::<
                OptionsView,
                ArgErrorView,
            >(ArgErrorView::Missing(args[i]))
        }),
{
}

/// A click is as many actions in a frame as it has moments there, and no others.
pub proof fn a_click_does_nothing_else(c: Click, k: int, frame: u32, hover: u32, hold: u32)
    ensures
        ({
            let moves: int = if frame == c.frame {
                1
            } else {
                0
            };
            let downs: int = if frame == c.frame + hover {
                1
            } else {
                0
            };
            let ups: int = if frame == c.frame + hover + hold {
                1
            } else {
                0
            };
            let a = click_actions(c, k, frame, hover, hold);
            &&& a.len() == moves + downs + ups
            &&& moves == 1 ==> a[0] == NativeAction::PointerMove(k as usize)
            &&& downs == 1 ==> a[moves] == NativeAction::PointerDown(k as usize)
            &&& ups == 1 ==> a[moves + downs] == NativeAction::PointerUp(k as usize)
        }),
{
}

/// A frame of the reference run moves the clock where that is asked for, runs one
/// movie frame, the timers and the sound, does what each click in turn has for
/// it, and draws.
pub proof fn a_reference_frame_does_everything(o: Options, frame: u32, n: nat)
    ensures
        ({
            let script = script_actions(o.clicks@, o.clicks@.len(), frame, o.hover, o.hold);
            let plan = native_frame(o, frame);
            let first: int = if o.virtual_time {
                1
            } else {
                0
            };
            &&& plan.len() == first + 3 + script.len() + 1
            &&& o.virtual_time ==> plan[0] == NativeAction::AdvanceTime
            &&& plan[first] == NativeAction::RunFrame
            &&& plan[first + 1] == NativeAction::UpdateTimers
            &&& plan[first + 2] == NativeAction::MixAudio
            &&& forall|i: int|
                0 <= i < script.len() ==> plan[first + 3 + i] == #[trigger] script[i]
            &&& plan.last() == NativeAction::Render
        }),
        script_actions(o.clicks@, 0, frame, o.hover, o.hold).len() == 0,
        script_actions(o.clicks@, n + 1, frame, o.hover, o.hold) == script_actions(
            o.clicks@,
            n,
            frame,
            o.hover,
            o.hold,
        ) + click_actions(o.clicks@[n as int], n as int, frame, o.hover, o.hold),
{
}

/// The two bytes of a sample, the second worth 256 times the first, are the sample
/// modulo two to the sixteenth, each sample behind the one before it.
pub proof fn samples_are_written_low_byte_first(samples: Seq<i16>, i: int)
    requires
        0 <= i < samples.len(),
    ensures
        sound_bytes(samples).len() == 2 * samples.len(),
        sound_bytes(samples)[2 * i] + 256 * sound_bytes(samples)[2 * i + 1] == if samples[i] >= 0 {
            samples[i] as int
        } else {
            samples[i] + 65536
        },
{
    let s = samples[i];
    assert((s as u16 & 0xff) as u8 + 256 * ((s as u16 >> 8) as u8) == s as u16) by (bit_vector);
    assert(s >= 0 ==> s as u16 == s) by (bit_vector);
    assert(s < 0 ==> s as u16 == s + 65536) by (bit_vector);
    assert(sound_bytes(samples)[2 * i] == low_byte(s));
    assert(sound_bytes(samples)[2 * i + 1] == high_byte(s));
}

/// No sample is further from silence than the peak, to either side, and some
/// sample is as far where there is one.
pub proof fn a_peak_bounds_both_sides(samples: Seq<i16>)
    ensures
        samples.len() == 0 ==> peak_of(samples) == 0,
        forall|i: int|
            0 <= i < samples.len() ==> -peak_of(samples) <= #[trigger] samples[i] <= peak_of(
                samples,
            ),
        samples.len() > 0 ==> exists|i: int|
            0 <= i < samples.len() && (#[trigger] samples[i] == peak_of(samples) || samples[i]
                == -peak_of(samples)),
{
    peak_is_the_loudest(samples);
    assert forall|i: int| 0 <= i < samples.len() implies -peak_of(samples) <= #[trigger] samples[i]
        <= peak_of(samples) by {
        assert(loudness(samples[i]) <= peak_of(samples));
    }
    if samples.len() > 0 {
        let i = choose|i: int|
            0 <= i < samples.len() && loudness(#[trigger] samples[i]) == peak_of(samples);
        assert(samples[i] == peak_of(samples) || samples[i] == -peak_of(samples));
    }
}

/// A trace in text is its messages, a line feed behind each.
pub proof fn a_text_trace_is_its_lines(messages: Seq<Seq<char>>, message: Seq<char>)
    ensures
        traced_text(Seq::<Seq<char>>::empty()) == Seq::<char>::empty(),
        traced_text(messages.push(message)) == traced_text(messages) + message + seq!['\n'],
{
    assert(messages.push(message).drop_last() =~= messages);
    assert(traced_text(messages.push(message)) =~= traced_text(messages) + message + seq!['\n']);
}

/// The line a run is known by gives, in this order, the frames that were asked
/// for, the bytes of the trace and their SHA-1, the movie's last frame, and the
/// bytes of the sound and their digest in sixteen hexadecimal digits.
pub proof fn a_summary_names_everything(
    frames: u32,
    trace: Seq<char>,
    last_frame: u16,
    audio: Seq<u8>,
)
    ensures
        ({
            let said = "ruffle: frames="@ + decimal_digits(frames as nat) + " traceBytes="@
                + decimal_digits(encode_utf8(trace).len()) + " traceSha1="@ + sha1_text(
                encode_utf8(trace),
            );
            let sounded = " audioBytes="@ + decimal_digits(audio.len()) + " audioDigest="@
                + hex_digits(digest_from(1469598103934665603, audio) as nat, 16);
            summary_of(frames, trace, last_frame, audio) == said + (" lastFrame="@
                + decimal_digits(last_frame as nat)) + sounded
        }),
{
    let said = "ruffle: frames="@ + decimal_digits(frames as nat) + " traceBytes="@
        + decimal_digits(encode_utf8(trace).len()) + " traceSha1="@ + sha1_text(
        encode_utf8(trace),
    );
    let sounded = " audioBytes="@ + decimal_digits(audio.len()) + " audioDigest="@ + hex_digits(
        digest_from(1469598103934665603, audio) as nat,
        16,
    );
    assert(summary_of(frames, trace, last_frame, audio) =~= said + (" lastFrame="@
        + decimal_digits(last_frame as nat)) + sounded);
}

/// A side of the viewport that was asked for is that long; one that was not is the
/// movie's own in whole pixels, twenty twips to each, and at least one.
pub proof fn a_viewport_is_asked_for_or_the_stage(asked_for: u32, twips: i32)
    ensures
        asked_for >= 1 ==> side_of(asked_for, twips) == asked_for,
        twips >= 20 ==> 20 * side_of(0, twips) <= twips < 20 * side_of(0, twips) + 20,
        twips < 20 ==> side_of(0, twips) == 1,
{
    a_pixel_is_twenty_twips(twips);
}

/// A frame adds two bytes of sound for each of its samples behind those before,
/// and one peak that no sample of it exceeds to either side. The movie's frame is
/// what it last said.
pub proof fn a_frame_is_taken_down(
    r: Recording,
    next: Recording,
    samples: Seq<i16>,
    current: Option<u16>,
    i: int,
)
    requires
        r.takes_down(next, samples, current),
    ensures
        next.audio@.len() == r.audio@.len() + 2 * samples.len(),
        forall|k: int| 0 <= k < r.audio@.len() ==> #[trigger] next.audio@[k] == r.audio@[k],
        0 <= i < samples.len() ==> {
            let at = r.audio@.len() + 2 * i;
            next.audio@[at] + 256 * next.audio@[at + 1] == if samples[i] >= 0 {
                samples[i] as int
            } else {
                samples[i] + 65536
            }
        },
        next.peaks@.len() == r.peaks@.len() + 1,
        next.peaks@.drop_last() == r.peaks@,
        0 <= i < samples.len() ==> -next.peaks@.last() <= samples[i] <= next.peaks@.last(),
        current matches Some(frame) ==> next.last_frame == frame,
        current is None ==> next.last_frame == r.last_frame,
{
    peak_is_the_loudest(samples);
    a_peak_bounds_both_sides(samples);
    if 0 <= i < samples.len() {
        samples_are_written_low_byte_first(samples, i);
        let at = r.audio@.len() + 2 * i;
        assert(next.audio@[at] == sound_bytes(samples)[2 * i]);
        assert(next.audio@[at + 1] == sound_bytes(samples)[2 * i + 1]);
    }
    assert(next.peaks@.drop_last() =~= r.peaks@);
}

} // verus!
