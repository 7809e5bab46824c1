//! The machine: what one run of a movie holds, and what one frame of it does.
//!
//! A frame alternates between the player, which does the work, and the
//! machine, which decides. The machine hands out what is to be done next, in
//! order; what came of it comes back as an event, and the machine goes on from
//! there until the frame is over.
use vstd::prelude::*;
use crate::config::PlayerConfig;
use crate::input::{edge_events, inject_edges, InputEvent, InputTable};
use crate::log::CaptureLog;
use crate::pacing::{
    due_never_falls, movie_keeps_time, nothing_due_at_the_start, the_clock_keeps_time,
    the_clock_starts_at_zero, Pace,
};
use crate::picture::{
    a_pixel_takes_four_bytes, blank, blank_pixels, byte_count, every_pixel_is_turned_round,
    red_blue_swapped, swapping_keeps_the_size, to_bgra, Picture,
};
use crate::renderer::{
    at_least_one, context_id, context_moved, live_context, Renderer, Which,
};

verus! {

/// What is to be done next.
pub enum Action {
    /// Move the player's clock by one host frame.
    AdvanceTime,
    /// Take in whatever has arrived, without a budget.
    Preload,
    /// Run one movie frame.
    RunFrame,
    /// Let one host frame's worth of timers fire.
    UpdateTimers,
    /// Mix one host frame of sound.
    MixAudio,
    /// Poll every load that is under way, once.
    RunTasks,
    /// Read the mixed sound back.
    ReadSamples,
    /// Ask which context drawing reaches.
    ReadContext,
    /// Build a backend on the context that answers now.
    Rebuild { width: u32, height: u32, which: Which },
    /// Put the backend just built in the player.
    SwapRenderer,
    /// Tell the player the viewport, at scale one.
    SetViewport { width: u32, height: u32 },
    /// Set the stage's quality to what it is, which is what tells a backend.
    PushQuality,
    /// Make everything that was registered with the old backend register anew.
    BumpEpoch,
    /// Tell the movie of an input.
    Input(InputEvent),
    /// Draw.
    Render,
    /// Read the picture back.
    Capture,
}

/// What came of it.
pub enum FrameEvent {
    /// The host wants a frame.
    Begin,
    /// The movie has run: the sound it mixed, and the context the bridge says
    /// drawing reaches, zero where it cannot tell.
    Ran { samples: Vec<i16>, host_context: u64 },
    /// A backend was built, or was not.
    Rebuilt(bool),
    /// The frame is drawn: the picture, where one was read back.
    Drawn(Option<Picture>),
}

/// How far a frame has come.
#[derive(Clone, Copy, PartialEq, Eq, Structural, Debug)]
pub enum Phase {
    /// Between frames.
    Idle,
    /// The movie is running.
    Running,
    /// A backend is being built.
    Rebuilding,
    /// The frame is being drawn.
    Drawing,
}

/// One run of a movie.
pub struct Machine {
    pub pace: Pace,
    /// What the movie reads as the date: milliseconds since the machine's
    /// fixed epoch, moved one host frame at a time.
    pub clock_millis: i64,
    /// Movie frames run so far.
    pub movie_frames: u64,
    /// Host frames finished so far.
    pub frames: u64,
    pub phase: Phase,
    /// Everything the movie has traced.
    pub log: CaptureLog,
    /// The trace as it was last handed to the host.
    pub tty: Vec<u8>,
    /// The levels the host set, and those last told to the movie.
    pub buttons: Vec<u8>,
    pub prev_buttons: Vec<u8>,
    pub mouse: (i32, i32),
    pub prev_mouse: (i32, i32),
    /// The pointer is a person's, not a recorded stream of exact positions.
    pub live_pointer: bool,
    /// A printable key press also types its character.
    pub text_input: bool,
    /// This frame's sound, left and right in turn.
    pub audio: Vec<i16>,
    /// This frame's picture, blue first.
    pub video: Vec<u8>,
    pub video_w: u32,
    pub video_h: u32,
    /// The host's frame rate, as a ratio.
    pub vsync_num: i32,
    pub vsync_den: i32,
    /// The context the backend's objects belong to, zero where unknown.
    pub gl_context: u64,
    /// The picture is read back. Off, everything but that still happens.
    pub rendering: bool,
}

/// A movie frame, `k` times over: what has arrived is taken in before each.
pub open spec fn movie_steps(k: nat) -> Seq<Action> {
    Seq::new(
        2 * k,
        |i: int|
            if i % 2 == 0 {
                Action::Preload
            } else {
                Action::RunFrame
            },
    )
}

/// The first part of a frame, in which `k` movie frames are due.
pub open spec fn run_actions(k: nat) -> Seq<Action> {
    seq![Action::AdvanceTime] + movie_steps(k) + seq![
        Action::UpdateTimers,
        Action::MixAudio,
        Action::RunTasks,
        Action::ReadSamples,
        Action::ReadContext,
    ]
}

/// What putting a new backend in takes.
pub open spec fn swap_actions(width: u32, height: u32) -> Seq<Action> {
    seq![
        Action::SwapRenderer,
        Action::SetViewport { width, height },
        Action::PushQuality,
        Action::BumpEpoch,
    ]
}

/// The last part of a frame: the input, the drawing, and the readback where
/// one is wanted.
pub open spec fn draw_actions(events: Seq<InputEvent>, rendering: bool) -> Seq<Action> {
    events.map_values(|e: InputEvent| Action::Input(e)) + seq![Action::Render] + if rendering {
        seq![Action::Capture]
    } else {
        Seq::empty()
    }
}

impl Machine {
    /// The input this machine owes the movie.
    pub open spec fn input(self, table: InputTable) -> Seq<InputEvent> {
        edge_events(
            table,
            self.buttons@,
            self.prev_buttons@,
            self.mouse,
            self.prev_mouse,
            self.live_pointer,
            self.text_input,
        )
    }

    /// The host frames whose movie part has run.
    pub open spec fn frames_begun(self) -> nat {
        if self.phase == Phase::Idle {
            self.frames as nat
        } else {
            (self.frames + 1) as nat
        }
    }

    /// The movie has run as many frames as are due, the clock stands where the
    /// host frames have brought it, every button has a level, and the picture
    /// has all the pixels that its size says.
    pub open spec fn well_formed(self, table: InputTable) -> bool {
        &&& self.pace.well_formed()
        &&& self.buttons@.len() == table.buttons@.len()
        &&& self.prev_buttons@.len() == table.buttons@.len()
        &&& self.phase != Phase::Idle ==> self.frames < u64::MAX
        &&& self.movie_frames == self.pace.due(self.frames_begun())
        &&& self.clock_millis == self.pace.clock_at(self.frames_begun())
        &&& self.video@.len() == byte_count(self.video_w, self.video_h)
    }

    /// A frame can begin, as far as its counters go.
    pub open spec fn can_count(self) -> bool {
        &&& self.pace.countable(self.frames as nat)
        &&& self.pace.clock_at((self.frames + 1) as nat) <= i64::MAX
    }

    /// The event fits how far the frame has come.
    pub open spec fn expects(self, event: FrameEvent) -> bool {
        match event {
            FrameEvent::Begin => self.phase == Phase::Idle && self.can_count(),
            FrameEvent::Ran { .. } => self.phase == Phase::Running,
            FrameEvent::Rebuilt(_) => self.phase == Phase::Rebuilding,
            FrameEvent::Drawn(picture) => {
                &&& self.phase == Phase::Drawing
                &&& picture matches Some(p) ==> p.well_formed()
            },
        }
    }

    /// Two machines agree on everything that a frame never touches.
    pub open spec fn same_run(self, other: Machine) -> bool {
        &&& self.pace == other.pace
        &&& self.log == other.log
        &&& self.tty == other.tty
        &&& self.buttons == other.buttons
        &&& self.mouse == other.mouse
        &&& self.live_pointer == other.live_pointer
        &&& self.text_input == other.text_input
        &&& self.vsync_num == other.vsync_num
        &&& self.vsync_den == other.vsync_den
        &&& self.rendering == other.rendering
    }

    /// Two machines agree on how far the run has come.
    pub open spec fn same_count(self, other: Machine) -> bool {
        &&& self.clock_millis == other.clock_millis
        &&& self.movie_frames == other.movie_frames
        &&& self.frames == other.frames
    }

    /// Two machines agree on what the host reads back.
    pub open spec fn same_output(self, other: Machine) -> bool {
        &&& self.audio == other.audio
        &&& self.same_picture(other)
    }

    /// Two machines show the same picture.
    pub open spec fn same_picture(self, other: Machine) -> bool {
        &&& self.video == other.video
        &&& self.video_w == other.video_w
        &&& self.video_h == other.video_h
    }

    /// Two machines have told the movie the same input.
    pub open spec fn same_told(self, other: Machine) -> bool {
        &&& self.prev_buttons == other.prev_buttons
        &&& self.prev_mouse == other.prev_mouse
    }

    /// The movie has been told of the levels as they are.
    pub open spec fn input_told(self) -> bool {
        &&& self.prev_buttons@ == self.buttons@
        &&& self.prev_mouse == self.mouse
    }

    /// `next` is this machine once a frame has begun.
    pub open spec fn begun(self, next: Machine, actions: Seq<Action>) -> bool {
        &&& next.same_run(self)
        &&& next.same_output(self)
        &&& next.same_told(self)
        &&& next.gl_context == self.gl_context
        &&& next.phase == Phase::Running
        &&& next.frames == self.frames
        &&& next.movie_frames == self.pace.due((self.frames + 1) as nat)
        &&& next.clock_millis == self.pace.clock_at((self.frames + 1) as nat)
        &&& actions == run_actions((next.movie_frames - self.movie_frames) as nat)
    }

    /// `next` is this machine once the movie has run and `live` is the context
    /// that answers.
    pub open spec fn ran(
        self,
        next: Machine,
        actions: Seq<Action>,
        table: InputTable,
        samples: Seq<i16>,
        live: u64,
        which: Which,
    ) -> bool {
        &&& next.same_run(self)
        &&& next.same_count(self)
        &&& next.same_picture(self)
        &&& next.audio@ == samples
        &&& next.gl_context == if live != 0 {
            live
        } else {
            self.gl_context
        }
        &&& if context_moved(self.gl_context, live) {
            &&& next.phase == Phase::Rebuilding
            &&& next.same_told(self)
            &&& actions == seq![
                Action::Rebuild { width: self.video_w, height: self.video_h, which },
            ]
        } else {
            &&& next.phase == Phase::Drawing
            &&& next.input_told()
            &&& actions == draw_actions(self.input(table), self.rendering)
        }
    }

    /// `next` is this machine once a backend was built, or was not.
    pub open spec fn rebuilt(
        self,
        next: Machine,
        actions: Seq<Action>,
        table: InputTable,
        built: bool,
    ) -> bool {
        &&& next.same_run(self)
        &&& next.same_count(self)
        &&& next.same_output(self)
        &&& next.gl_context == self.gl_context
        &&& next.phase == Phase::Drawing
        &&& next.input_told()
        &&& actions == (if built {
            swap_actions(self.video_w, self.video_h)
        } else {
            Seq::empty()
        }) + draw_actions(self.input(table), self.rendering)
    }

    /// `next` is this machine once the frame is drawn. Where no picture was
    /// read back the last one stays.
    pub open spec fn drawn(self, next: Machine, picture: Option<Picture>) -> bool {
        &&& next.same_run(self)
        &&& next.same_told(self)
        &&& next.audio == self.audio
        &&& next.gl_context == self.gl_context
        &&& next.clock_millis == self.clock_millis
        &&& next.movie_frames == self.movie_frames
        &&& next.phase == Phase::Idle
        &&& next.frames == self.frames + 1
        &&& match picture {
            Some(p) => {
                &&& next.video@ == red_blue_swapped(p.rgba@)
                &&& next.video_w == p.width
                &&& next.video_h == p.height
            },
            None => next.same_picture(self),
        }
    }

    /// `next` is this machine once `event` has come, and `actions` are what is
    /// to be done next.
    pub open spec fn advanced(
        self,
        next: Machine,
        actions: Seq<Action>,
        table: InputTable,
        renderer: Renderer,
        event: FrameEvent,
    ) -> bool {
        match event {
            FrameEvent::Begin => self.begun(next, actions),
            FrameEvent::Ran { samples, host_context } => self.ran(
                next,
                actions,
                table,
                samples@,
                live_context(renderer, host_context),
                drawn_on(renderer),
            ),
            FrameEvent::Rebuilt(built) => self.rebuilt(next, actions, table, built),
            FrameEvent::Drawn(picture) => actions.len() == 0 && self.drawn(next, picture),
        }
    }

    /// Nothing but the picture, and whether it is read back, tells two machines
    /// apart.
    pub open spec fn alike_unseen(self, other: Machine) -> bool {
        &&& self.pace == other.pace
        &&& self.same_count(other)
        &&& self.phase == other.phase
        &&& self.log@ == other.log@
        &&& self.tty@ == other.tty@
        &&& self.buttons@ == other.buttons@
        &&& self.prev_buttons@ == other.prev_buttons@
        &&& self.mouse == other.mouse
        &&& self.prev_mouse == other.prev_mouse
        &&& self.live_pointer == other.live_pointer
        &&& self.text_input == other.text_input
        &&& self.audio@ == other.audio@
        &&& self.video_w == other.video_w
        &&& self.video_h == other.video_h
        &&& self.vsync_num == other.vsync_num
        &&& self.vsync_den == other.vsync_den
        &&& self.gl_context == other.gl_context
    }

    /// Nothing that can be told of two machines tells them apart.
    pub open spec fn alike(self, other: Machine) -> bool {
        &&& self.alike_unseen(other)
        &&& self.video@ == other.video@
        &&& self.rendering == other.rendering
    }

    /// A machine at its first frame.
    pub open spec fn is_new(self, table: InputTable, config: PlayerConfig, log: CaptureLog) -> bool {
        &&& self.pace == config.pace
        &&& self.clock_millis == 0
        &&& self.movie_frames == 0
        &&& self.frames == 0
        &&& self.phase == Phase::Idle
        &&& self.log == log
        &&& self.tty@.len() == 0
        &&& self.buttons@ == Seq::new(table.buttons@.len(), |i: int| 0u8)
        &&& self.prev_buttons@ == Seq::new(table.buttons@.len(), |i: int| 0u8)
        &&& self.mouse == (0i32, 0i32)
        &&& self.prev_mouse == (0i32, 0i32)
        &&& !self.live_pointer
        &&& self.text_input
        &&& self.audio@.len() == 0
        &&& self.video@ == blank_pixels(self.video_w, self.video_h)
        &&& self.video_w == at_least_one(config.stage_width)
        &&& self.video_h == at_least_one(config.stage_height)
        &&& self.vsync_num == config.vsync_num
        &&& self.vsync_den == config.vsync_den
        &&& self.gl_context == 0
        &&& self.rendering
    }

    /// A run that is about to start: every button up, the pointer in the
    /// corner, a blank picture and nothing heard.
    pub fn new(table: &InputTable, config: &PlayerConfig, log: CaptureLog) -> (m: Machine)
        requires
            config.pace.well_formed(),
            byte_count(at_least_one(config.stage_width), at_least_one(config.stage_height))
                <= isize::MAX,
        ensures
            m.is_new(*table, *config, log),
            m.well_formed(*table),
    {
        proof {
            nothing_due_at_the_start(config.pace);
            the_clock_starts_at_zero(config.pace);
        }
        let count: usize = table.buttons.len();
        let buttons: Vec<u8> = vec![0; count];
        let prev_buttons: Vec<u8> = vec![0; count];
        assert(buttons@ =~= Seq::new(table.buttons@.len(), |i: int| 0u8));
        assert(prev_buttons@ =~= Seq::new(table.buttons@.len(), |i: int| 0u8));
        let video_w: u32 = if config.stage_width == 0 { 1 } else { config.stage_width };
        let video_h: u32 = if config.stage_height == 0 { 1 } else { config.stage_height };
        Machine {
            pace: config.pace,
            clock_millis: 0,
            movie_frames: 0,
            frames: 0,
            phase: Phase::Idle,
            log,
            tty: Vec::new(),
            buttons,
            prev_buttons,
            mouse: (0, 0),
            prev_mouse: (0, 0),
            live_pointer: false,
            text_input: true,
            audio: Vec::new(),
            video: blank(video_w, video_h),
            video_w,
            video_h,
            vsync_num: config.vsync_num,
            vsync_den: config.vsync_den,
            gl_context: 0,
            rendering: true,
        }
    }

    /// Whether another frame can begin, as far as the counters go.
    pub fn can_advance(&self) -> (b: bool)
        requires
            self.pace.well_formed(),
        ensures
            b == self.can_count(),
    {
        self.pace.can_count(self.frames)
    }

    /// Begins a frame: the clocks move, and the movie frames that are due by
    /// the end of it run.
    fn begin(&mut self, table: &InputTable) -> (actions: Vec<Action>)
        requires
            old(self).well_formed(*table),
            old(self).phase == Phase::Idle,
            old(self).can_count(),
        ensures
            final(self).well_formed(*table),
            old(self).begun(*final(self), actions@),
    {
        let clock: i64 = self.pace.clock_after(self.frames);
        let due: u64 = self.pace.due_after(self.frames);
        proof {
            due_never_falls(self.pace, self.frames as nat);
            assert(self.frames + 1 <= u64::MAX) by {
                let f = self.frames as int + 1;
                let r = self.pace.rate_256 as int;
                let d = self.pace.host_den as int;
                assert(f <= f * r * d) by (nonlinear_arith)
                    requires
                        f >= 1,
                        r >= 1,
                        d >= 1,
                ;
            }
        }
        self.clock_millis = clock;
        let mut actions: Vec<Action> = Vec::new();
        actions.push(Action::AdvanceTime);
        let ghost first = self.movie_frames;
        let ghost run = *self;
        while self.movie_frames < due
            invariant
                first <= self.movie_frames <= due,
                *self == (Machine { movie_frames: self.movie_frames, ..run }),
                actions@ == seq![Action::AdvanceTime] + movie_steps(
                    (self.movie_frames - first) as nat,
                ),
            decreases due - self.movie_frames,
        {
            actions.push(Action::Preload);
            actions.push(Action::RunFrame);
            self.movie_frames = self.movie_frames + 1;
            assert(actions@ =~= seq![Action::AdvanceTime] + movie_steps(
                (self.movie_frames - first) as nat,
            ));
        }
        actions.push(Action::UpdateTimers);
        actions.push(Action::MixAudio);
        actions.push(Action::RunTasks);
        actions.push(Action::ReadSamples);
        actions.push(Action::ReadContext);
        assert(actions@ =~= run_actions((due - first) as nat));
        self.phase = Phase::Running;
        actions
    }

    /// Appends the last part of a frame: the input, the drawing, the readback.
    fn draw(&mut self, table: &InputTable, actions: &mut Vec<Action>)
        requires
            table.well_formed(),
            old(self).well_formed(*table),
            old(self).phase != Phase::Idle,
        ensures
            final(self).well_formed(*table),
            final(self).same_run(*old(self)),
            final(self).same_count(*old(self)),
            final(self).same_output(*old(self)),
            final(self).gl_context == old(self).gl_context,
            final(self).phase == Phase::Drawing,
            final(self).input_told(),
            final(actions)@ == old(actions)@ + draw_actions(
                old(self).input(*table),
                old(self).rendering,
            ),
    {
        let events: Vec<InputEvent> = inject_edges(
            table,
            &self.buttons,
            &mut self.prev_buttons,
            self.mouse,
            &mut self.prev_mouse,
            self.live_pointer,
            self.text_input,
        );
        let ghost wrap = |e: InputEvent| Action::Input(e);
        let ghost before = actions@;
        let count: usize = events.len();
        for i in 0usize..count
            invariant
                count == events@.len(),
                wrap == (|e: InputEvent| Action::Input(e)),
                actions@ == before + events@.map_values(wrap).take(i as int),
        {
            actions.push(Action::Input(events[i]));
            assert(actions@ =~= before + events@.map_values(wrap).take(i + 1));
        }
        actions.push(Action::Render);
        if self.rendering {
            actions.push(Action::Capture);
        }
        assert(actions@ =~= before + draw_actions(events@, self.rendering));
        self.phase = Phase::Drawing;
    }

    /// Goes on with a frame from what came of its last part.
    pub fn advance(&mut self, table: &InputTable, renderer: &Renderer, event: FrameEvent) -> (actions:
        Vec<Action>)
        requires
            table.well_formed(),
            old(self).well_formed(*table),
            old(self).expects(event),
        ensures
            final(self).well_formed(*table),
            old(self).advanced(*final(self), actions@, *table, *renderer, event),
    {
        match event {
            FrameEvent::Begin => self.begin(table),
            FrameEvent::Ran { samples, host_context } => {
                let mut actions: Vec<Action> = Vec::new();
                self.audio = samples;
                let live: u64 = context_id(renderer, host_context);
                let moved: bool = live != 0 && self.gl_context != 0 && live != self.gl_context;
                if live != 0 {
                    self.gl_context = live;
                }
                if moved {
                    let which: Which = match renderer.in_use {
                        Some(w) => w,
                        None => Which::Hardware,
                    };
                    self.phase = Phase::Rebuilding;
                    actions.push(
                        Action::Rebuild { width: self.video_w, height: self.video_h, which },
                    );
                    assert(actions@ =~= seq![
                        Action::Rebuild { width: self.video_w, height: self.video_h, which },
                    ]);
                } else {
                    self.draw(table, &mut actions);
                    assert(actions@ =~= draw_actions(old(self).input(*table), old(self).rendering));
                }
                actions
            },
            FrameEvent::Rebuilt(built) => {
                let mut actions: Vec<Action> = Vec::new();
                if built {
                    actions.push(Action::SwapRenderer);
                    actions.push(
                        Action::SetViewport { width: self.video_w, height: self.video_h },
                    );
                    actions.push(Action::PushQuality);
                    actions.push(Action::BumpEpoch);
                    assert(actions@ =~= swap_actions(self.video_w, self.video_h));
                }
                self.draw(table, &mut actions);
                actions
            },
            FrameEvent::Drawn(picture) => {
                if let Some(p) = picture {
                    proof {
                        swapping_keeps_the_size(p.rgba@, p.width, p.height);
                    }
                    self.video_w = p.width;
                    self.video_h = p.height;
                    to_bgra(&mut self.video, p.rgba.as_slice());
                }
                self.frames = self.frames + 1;
                self.phase = Phase::Idle;
                Vec::new()
            },
        }
    }
}

/// What a backend is rebuilt on: what it was built on.
pub open spec fn drawn_on(r: Renderer) -> Which {
    match r.in_use {
        Some(w) => w,
        None => Which::Hardware,
    }
}

/// A whole frame, `rebuilding` being what a changed context took.
pub open spec fn frame_actions(
    k: nat,
    rebuilding: Seq<Action>,
    events: Seq<InputEvent>,
    rendering: bool,
) -> Seq<Action> {
    run_actions(k) + rebuilding + draw_actions(events, rendering)
}

/// What a context that moved takes, and whether a backend was built on the new
/// one. One that did not move takes nothing.
pub open spec fn rebuild_actions(
    moved: bool,
    built: bool,
    width: u32,
    height: u32,
    which: Which,
) -> Seq<Action> {
    if !moved {
        Seq::empty()
    } else if built {
        seq![Action::Rebuild { width, height, which }] + swap_actions(width, height)
    } else {
        seq![Action::Rebuild { width, height, which }]
    }
}

/// Where in a frame an action belongs.
pub open spec fn place(a: Action) -> int {
    match a {
        Action::AdvanceTime => 0,
        Action::Preload => 1,
        Action::RunFrame => 1,
        Action::UpdateTimers => 2,
        Action::MixAudio => 3,
        Action::RunTasks => 4,
        Action::ReadSamples => 5,
        Action::ReadContext => 6,
        Action::Rebuild { .. } => 7,
        Action::SwapRenderer => 8,
        Action::SetViewport { .. } => 9,
        Action::PushQuality => 10,
        Action::BumpEpoch => 11,
        Action::Input(_) => 12,
        Action::Render => 13,
        Action::Capture => 14,
    }
}

/// The order of a frame is fixed: the clock, the movie, the timers, the sound,
/// the loads, then what the host is asked, then any new backend, then the
/// input, then the drawing, then the readback. So a frame's input always lands
/// after the movie ran and before it is drawn.
pub proof fn frame_order_is_fixed(
    k: nat,
    moved: bool,
    built: bool,
    width: u32,
    height: u32,
    which: Which,
    events: Seq<InputEvent>,
    rendering: bool,
)
    ensures
        ({
            let all = frame_actions(
                k,
                rebuild_actions(moved, built, width, height, which),
                events,
                rendering,
            );
            forall|i: int, j: int|
                0 <= i <= j < all.len() ==> place(#[trigger] all[i]) <= place(#[trigger] all[j])
        }),
{
    let rebuilding = rebuild_actions(moved, built, width, height, which);
    let run = run_actions(k);
    let draw = draw_actions(events, rendering);
    let all = frame_actions(k, rebuilding, events, rendering);
    assert forall|i: int| 0 <= i < run.len() implies 0 <= place(#[trigger] run[i]) <= 6 by {
        assert(0 < i <= 2 * k ==> run[i] == movie_steps(k)[i - 1]);
    }
    assert forall|i: int, j: int| 0 <= i <= j < run.len() implies place(#[trigger] run[i]) <= place(
        #[trigger] run[j],
    ) by {
        assert(0 < i <= 2 * k ==> run[i] == movie_steps(k)[i - 1]);
        assert(0 < j <= 2 * k ==> run[j] == movie_steps(k)[j - 1]);
    }
    assert(forall|i: int|
        0 <= i < rebuilding.len() ==> 7 <= place(#[trigger] rebuilding[i]) <= 11);
    assert(forall|i: int, j: int|
        0 <= i <= j < rebuilding.len() ==> place(#[trigger] rebuilding[i]) <= place(
            #[trigger] rebuilding[j],
        ));
    assert(forall|i: int| 0 <= i < draw.len() ==> 12 <= place(#[trigger] draw[i]));
    assert forall|i: int, j: int| 0 <= i <= j < all.len() implies place(#[trigger] all[i]) <= place(
        #[trigger] all[j],
    ) by {
        let r = run.len() as int;
        let b = rebuilding.len() as int;
        if i < r {
            assert(all[i] == run[i]);
        } else if i < r + b {
            assert(all[i] == rebuilding[i - r]);
        } else {
            assert(all[i] == draw[i - r - b]);
        }
        if j < r {
            assert(all[j] == run[j]);
        } else if j < r + b {
            assert(all[j] == rebuilding[j - r]);
        } else {
            assert(all[j] == draw[j - r - b]);
        }
    }
}

/// What has arrived is taken in before every movie frame, not only before the
/// first.
pub proof fn preload_precedes_every_frame(k: nat, i: int)
    requires
        0 <= i < run_actions(k).len(),
        run_actions(k)[i] is RunFrame,
    ensures
        i > 0,
        run_actions(k)[i - 1] is Preload,
{
    assert(0 < i <= 2 * k);
    assert(run_actions(k)[i] == movie_steps(k)[i - 1]);
    assert(run_actions(k)[i - 1] == movie_steps(k)[i - 2]);
}

/// Turning rendering off leaves out the readback and nothing else.
pub proof fn rendering_off_skips_only_the_readback(events: Seq<InputEvent>)
    ensures
        draw_actions(events, true) == draw_actions(events, false).push(Action::Capture),
{
    assert(draw_actions(events, true) =~= draw_actions(events, false).push(Action::Capture));
}

/// The readback is output and nothing else. Of two machines that differ in the
/// picture alone, one reading it back and one not, each step leaves two that
/// differ in the picture alone, and asks the same to be done but for the
/// readback itself. The pictures are of the size that the backend was built in.
pub proof fn the_readback_changes_nothing(
    seen: Machine,
    unseen: Machine,
    seen_next: Machine,
    unseen_next: Machine,
    seen_actions: Seq<Action>,
    unseen_actions: Seq<Action>,
    table: InputTable,
    renderer: Renderer,
    event: FrameEvent,
)
    requires
        seen.alike_unseen(unseen),
        seen.rendering,
        !unseen.rendering,
        seen.advanced(seen_next, seen_actions, table, renderer, event),
        unseen.advanced(unseen_next, unseen_actions, table, renderer, without_picture(event)),
        event matches FrameEvent::Drawn(Some(p)) ==> p.width == seen.video_w && p.height
            == seen.video_h,
    ensures
        seen_next.alike_unseen(unseen_next),
        seen_next.rendering,
        !unseen_next.rendering,
        unseen_next.video@ == unseen.video@,
        seen_actions == unseen_actions || seen_actions == unseen_actions.push(Action::Capture),
{
    if event is Begin || event is Drawn || context_moved(
        seen.gl_context,
        match event {
            FrameEvent::Ran { samples, host_context } => live_context(renderer, host_context),
            _ => 0,
        },
    ) {
        assert(seen_actions =~= unseen_actions);
    } else {
        assert(seen_actions =~= unseen_actions.push(Action::Capture));
    }
}

/// An event, as it comes to a machine that reads no picture back.
pub open spec fn without_picture(event: FrameEvent) -> FrameEvent {
    match event {
        FrameEvent::Drawn(_) => FrameEvent::Drawn(None),
        other => other,
    }
}

/// Input is told once: a machine whose movie has been told the levels owes it
/// nothing until one of them changes.
pub proof fn told_input_is_not_told_again(m: Machine, table: InputTable)
    requires
        m.input_told(),
    ensures
        m.input(table) == Seq::<InputEvent>::empty(),
{
    crate::input::steady_levels_are_silent(
        table,
        m.buttons@,
        m.mouse,
        m.live_pointer,
        m.text_input,
    );
}

/// A backend in the sandbox is never rebuilt: whatever the host answers, the
/// context it draws on has not moved.
pub proof fn software_never_moves(m: Machine, r: Renderer, host: u64)
    requires
        r.in_use == Some(Which::Software),
    ensures
        !context_moved(m.gl_context, live_context(r, host)),
{
}

/// A context that answered once and answers again has not moved, and neither
/// has one that cannot be told.
pub proof fn stable_context_is_left_alone(
    m: Machine,
    next: Machine,
    actions: Seq<Action>,
    table: InputTable,
    samples: Seq<i16>,
    live: u64,
    again: u64,
    which: Which,
)
    requires
        m.ran(next, actions, table, samples, live, which),
        again == live || again == 0,
    ensures
        live != 0 ==> next.gl_context == live,
        live != 0 ==> !context_moved(next.gl_context, again),
        live == 0 ==> next.gl_context == m.gl_context && !context_moved(m.gl_context, live),
{
}

/// One frame, from beginning to end, on a context that did not move: one host
/// frame more, the movie frames due by its end, the clock at its end, the
/// levels told, and nothing else of the run changed.
pub proof fn a_frame_counts_once(
    m0: Machine,
    m1: Machine,
    m2: Machine,
    m3: Machine,
    table: InputTable,
    a1: Seq<Action>,
    a2: Seq<Action>,
    samples: Seq<i16>,
    live: u64,
    which: Which,
    picture: Option<Picture>,
)
    requires
        m0.well_formed(table),
        m0.phase == Phase::Idle,
        m0.begun(m1, a1),
        m1.ran(m2, a2, table, samples, live, which),
        !context_moved(m0.gl_context, live),
        m2.drawn(m3, picture),
    ensures
        m3.same_run(m0),
        m3.phase == Phase::Idle,
        m3.frames == m0.frames + 1,
        m3.movie_frames == m0.pace.due(m3.frames as nat),
        m3.clock_millis == m0.pace.clock_at(m3.frames as nat),
        m3.input_told(),
        m3.audio@ == samples,
        a1 + a2 == frame_actions(
            (m3.movie_frames - m0.movie_frames) as nat,
            Seq::empty(),
            m0.input(table),
            m0.rendering,
        ),
{
    assert(a1 + a2 =~= frame_actions(
        (m3.movie_frames - m0.movie_frames) as nat,
        Seq::empty(),
        m0.input(table),
        m0.rendering,
    ));
}

/// One frame on a context that moved: a backend is built before anything is
/// drawn, and but for that the frame is the frame it would have been.
pub proof fn a_rebuilt_frame_counts_once(
    m0: Machine,
    m1: Machine,
    m2: Machine,
    m3: Machine,
    m4: Machine,
    table: InputTable,
    a1: Seq<Action>,
    a2: Seq<Action>,
    a3: Seq<Action>,
    samples: Seq<i16>,
    live: u64,
    which: Which,
    built: bool,
    picture: Option<Picture>,
)
    requires
        m0.well_formed(table),
        m0.phase == Phase::Idle,
        m0.begun(m1, a1),
        m1.ran(m2, a2, table, samples, live, which),
        context_moved(m0.gl_context, live),
        m2.rebuilt(m3, a3, table, built),
        m3.drawn(m4, picture),
    ensures
        m4.same_run(m0),
        m4.phase == Phase::Idle,
        m4.frames == m0.frames + 1,
        m4.movie_frames == m0.pace.due(m4.frames as nat),
        m4.clock_millis == m0.pace.clock_at(m4.frames as nat),
        m4.input_told(),
        m4.audio@ == samples,
        m4.gl_context == live,
        a1 + a2 + a3 == frame_actions(
            (m4.movie_frames - m0.movie_frames) as nat,
            rebuild_actions(true, built, m0.video_w, m0.video_h, which),
            m0.input(table),
            m0.rendering,
        ),
{
    assert(a1 + a2 + a3 =~= frame_actions(
        (m4.movie_frames - m0.movie_frames) as nat,
        rebuild_actions(true, built, m0.video_w, m0.video_h, which),
        m0.input(table),
        m0.rendering,
    ));
}

/// A step is replayed: what is done next, and what the machine becomes, hang
/// on the machine and on what came back, and on nothing else.
pub proof fn a_step_is_replayed(
    m: Machine,
    n: Machine,
    m_next: Machine,
    n_next: Machine,
    m_actions: Seq<Action>,
    n_actions: Seq<Action>,
    table: InputTable,
    renderer: Renderer,
    event: FrameEvent,
)
    requires
        m.alike(n),
        m.advanced(m_next, m_actions, table, renderer, event),
        n.advanced(n_next, n_actions, table, renderer, event),
    ensures
        m_next.alike(n_next),
        m_actions == n_actions,
{
    assert(m_actions =~= n_actions);
}

/// What beginning a frame does. The movie comes to have run as many frames as
/// begin, at its own rate, in the time that the host frames take, this one
/// included; each of them is preceded by taking in what has arrived. The clock
/// comes to stand within half a millisecond of that time. Then the timers fire,
/// the sound is mixed, the loads are polled, and the sound and the context are
/// read. Nothing else of the machine changes.
pub proof fn a_frame_begins(
    m: Machine,
    n: Machine,
    actions: Seq<Action>,
    table: InputTable,
    renderer: Renderer,
)
    requires
        m.well_formed(table),
        m.phase == Phase::Idle,
        m.advanced(n, actions, table, renderer, FrameEvent::Begin),
    ensures
        ({
            let elapsed = (m.frames + 1) * m.pace.rate_256 * m.pace.host_den;
            let step = 256 * m.pace.host_num;
            elapsed <= n.movie_frames * step < elapsed + step
        }),
        -m.pace.host_num <= 2 * ((m.frames + 1) * 1000 * m.pace.host_den) - 2 * (n.clock_millis
            * m.pace.host_num) < m.pace.host_num,
        ({
            let k = n.movie_frames - m.movie_frames;
            &&& k >= 0
            &&& actions.len() == 2 * k + 6
            &&& actions[0] == Action::AdvanceTime
            &&& forall|j: int|
                0 <= j < k ==> actions[2 * j + 1] == Action::Preload && #[trigger] actions[2 * j
                    + 2] == Action::RunFrame
            &&& actions[2 * k + 1] == Action::UpdateTimers
            &&& actions[2 * k + 2] == Action::MixAudio
            &&& actions[2 * k + 3] == Action::RunTasks
            &&& actions[2 * k + 4] == Action::ReadSamples
            &&& actions[2 * k + 5] == Action::ReadContext
        }),
        n == (Machine {
            movie_frames: n.movie_frames,
            clock_millis: n.clock_millis,
            phase: Phase::Running,
            ..m
        }),
{
    movie_keeps_time(m.pace, (m.frames + 1) as nat);
    the_clock_keeps_time(m.pace, (m.frames + 1) as nat);
    due_never_falls(m.pace, m.frames as nat);
    let k = n.movie_frames - m.movie_frames;
    assert forall|j: int| 0 <= j < k implies actions[2 * j + 1] == Action::Preload
        && #[trigger] actions[2 * j + 2] == Action::RunFrame by {
        assert(actions[2 * j + 1] == movie_steps(k as nat)[2 * j]);
        assert(actions[2 * j + 2] == movie_steps(k as nat)[2 * j + 1]);
    }
}

/// What follows once the movie has run, on a context that did not move: the sound
/// is kept, the movie is told the input that the levels make, the frame is drawn,
/// and the picture is read back where that is wanted. The levels are then told,
/// and nothing else of the machine changes.
pub proof fn a_frame_is_told_and_drawn(
    m: Machine,
    n: Machine,
    actions: Seq<Action>,
    table: InputTable,
    renderer: Renderer,
    samples: Vec<i16>,
    host_context: u64,
)
    requires
        m.advanced(n, actions, table, renderer, FrameEvent::Ran { samples, host_context }),
        renderer.in_use == Some(Which::Software) || host_context == 0 || m.gl_context == 0
            || host_context == m.gl_context,
    ensures
        ({
            let events = edge_events(
                table,
                m.buttons@,
                m.prev_buttons@,
                m.mouse,
                m.prev_mouse,
                m.live_pointer,
                m.text_input,
            );
            let count = events.len() as int;
            &&& actions.len() == if m.rendering {
                count + 2
            } else {
                count + 1
            }
            &&& forall|i: int| 0 <= i < count ==> #[trigger] actions[i] == Action::Input(events[i])
            &&& actions[count] == Action::Render
            &&& m.rendering ==> actions[count + 1] == Action::Capture
        }),
        n.audio@ == samples@,
        n.gl_context == if renderer.in_use == Some(Which::Software) || host_context == 0 {
            m.gl_context
        } else {
            host_context
        },
        n.prev_buttons@ == m.buttons@,
        n.prev_mouse == m.mouse,
        n == (Machine {
            audio: n.audio,
            gl_context: n.gl_context,
            prev_buttons: n.prev_buttons,
            prev_mouse: n.prev_mouse,
            phase: Phase::Drawing,
            ..m
        }),
{
}

/// What follows on a context that moved: the sound is kept, and a backend of the
/// picture's size is asked for, on what was drawn on before, ahead of any input
/// and any drawing.
pub proof fn a_moved_context_is_rebuilt_first(
    m: Machine,
    n: Machine,
    actions: Seq<Action>,
    table: InputTable,
    renderer: Renderer,
    samples: Vec<i16>,
    host_context: u64,
)
    requires
        m.advanced(n, actions, table, renderer, FrameEvent::Ran { samples, host_context }),
        renderer.in_use != Some(Which::Software),
        host_context != 0,
        m.gl_context != 0,
        host_context != m.gl_context,
    ensures
        actions == seq![
            Action::Rebuild { width: m.video_w, height: m.video_h, which: Which::Hardware },
        ],
        n.audio@ == samples@,
        n == (Machine {
            audio: n.audio,
            gl_context: host_context,
            phase: Phase::Rebuilding,
            ..m
        }),
{
}

/// What follows a rebuild: where it came about, the backend is put in, told the
/// viewport and the quality, and everything registers anew; and then, either way,
/// the input is told and the frame drawn.
pub proof fn a_rebuilt_frame_is_told_and_drawn(
    m: Machine,
    n: Machine,
    actions: Seq<Action>,
    table: InputTable,
    renderer: Renderer,
    built: bool,
)
    requires
        m.advanced(n, actions, table, renderer, FrameEvent::Rebuilt(built)),
    ensures
        ({
            let events = edge_events(
                table,
                m.buttons@,
                m.prev_buttons@,
                m.mouse,
                m.prev_mouse,
                m.live_pointer,
                m.text_input,
            );
            let first: int = if built {
                4
            } else {
                0
            };
            let count = first + events.len();
            &&& built ==> {
                &&& actions[0] == Action::SwapRenderer
                &&& actions[1] == (Action::SetViewport { width: m.video_w, height: m.video_h })
                &&& actions[2] == Action::PushQuality
                &&& actions[3] == Action::BumpEpoch
            }
            &&& actions.len() == if m.rendering {
                count + 2
            } else {
                count + 1
            }
            &&& forall|i: int|
                first <= i < count ==> #[trigger] actions[i] == Action::Input(events[i - first])
            &&& actions[count] == Action::Render
            &&& m.rendering ==> actions[count + 1] == Action::Capture
        }),
        n.prev_buttons@ == m.buttons@,
        n.prev_mouse == m.mouse,
        n == (Machine {
            prev_buttons: n.prev_buttons,
            prev_mouse: n.prev_mouse,
            phase: Phase::Drawing,
            ..m
        }),
{
}

/// What ends a frame: it is counted, and a picture that was read back is kept in
/// its own size, every pixel blue first. Without one the last picture stays.
pub proof fn a_frame_ends(
    m: Machine,
    n: Machine,
    actions: Seq<Action>,
    table: InputTable,
    renderer: Renderer,
    picture: Option<Picture>,
    p: int,
)
    requires
        m.advanced(n, actions, table, renderer, FrameEvent::Drawn(picture)),
    ensures
        actions.len() == 0,
        n.frames == m.frames + 1,
        picture is None ==> n == (Machine { frames: n.frames, phase: Phase::Idle, ..m }),
        picture matches Some(pic) ==> {
            &&& n == (Machine {
                frames: n.frames,
                phase: Phase::Idle,
                video: n.video,
                video_w: pic.width,
                video_h: pic.height,
                ..m
            })
            &&& n.video@.len() == pic.rgba@.len() - pic.rgba@.len() % 4
            &&& 0 <= p && 4 * p + 3 < pic.rgba@.len() ==> {
                &&& n.video@[4 * p] == pic.rgba@[4 * p + 2]
                &&& n.video@[4 * p + 1] == pic.rgba@[4 * p + 1]
                &&& n.video@[4 * p + 2] == pic.rgba@[4 * p]
                &&& n.video@[4 * p + 3] == pic.rgba@[4 * p + 3]
            }
        },
{
    if let Some(pic) = picture {
        if 0 <= p && 4 * p + 3 < pic.rgba@.len() {
            every_pixel_is_turned_round(pic.rgba@, p);
        }
    }
}

/// How a run starts: nothing has run, nothing is pressed, the pointer stands in
/// the corner and is a recorded one, typing and the readback are on, the trace is
/// what it was given, and the picture is the stage, blank, no side of it shorter
/// than a pixel.
pub proof fn a_run_starts_clean(
    m: Machine,
    table: InputTable,
    config: PlayerConfig,
    log: CaptureLog,
    i: int,
)
    requires
        m.is_new(table, config, log),
    ensures
        m.pace == config.pace && m.vsync_num == config.vsync_num && m.vsync_den
            == config.vsync_den,
        m.clock_millis == 0 && m.movie_frames == 0 && m.frames == 0 && m.phase == Phase::Idle,
        m.log == log,
        m.tty@.len() == 0 && m.audio@.len() == 0,
        m.buttons@.len() == table.buttons@.len() && m.prev_buttons@.len()
            == table.buttons@.len(),
        0 <= i < table.buttons@.len() ==> m.buttons@[i] == 0 && m.prev_buttons@[i] == 0,
        m.mouse.0 == 0 && m.mouse.1 == 0 && m.prev_mouse.0 == 0 && m.prev_mouse.1 == 0,
        !m.live_pointer && m.text_input && m.rendering,
        m.gl_context == 0,
        config.stage_width >= 1 ==> m.video_w == config.stage_width,
        config.stage_width == 0 ==> m.video_w == 1,
        config.stage_height >= 1 ==> m.video_h == config.stage_height,
        config.stage_height == 0 ==> m.video_h == 1,
        m.video@.len() == 4 * m.video_w * m.video_h,
        0 <= i < m.video@.len() ==> m.video@[i] == 0,
{
    a_pixel_takes_four_bytes(m.video_w, m.video_h);
}

} // verus!
