//! The surface a host drives: one function for each thing it may ask.
//!
//! There is at most one machine. What is asked of a machine that is not there
//! changes nothing and is answered with nothing.
#![allow(non_snake_case)]

use vstd::prelude::*;
use vstd::utf8::encode_utf8;
use crate::buffer::{
    a_write_is_the_text_and_a_zero, first_nul, fitting, held_text, read_text, reads_back, up_to_nul, write_text, written,
};
use crate::config::{configure, configures, MovieInfo, PlayerConfig};
use crate::digest::{digest, digest_from, digest_of};
use crate::input::InputTable;
use crate::log::{
    a_line_is_its_message_and_a_feed, trace_line, traced_bytes, CaptureLog,
};
use crate::machine::{a_step_is_replayed, Action, FrameEvent, Machine};
use crate::pacing::{
    axis_covers_the_stage, axis_pixel, axis_to_pixel, the_axis_is_proportional,
};
use crate::picture::byte_count;
use crate::renderer::{at_least_one, built, set_bridge, Renderer, Which};
use crate::settings::{loaded, SettingView, Settings};

verus! {

/// How far loading a movie has come.
pub enum LoadPhase {
    Idle,
    ReadingMovie,
    Parsing,
    ReadingSettings(MovieInfo),
    BuildingRenderer(PlayerConfig),
    /// The player is being built for the machine that will run it.
    BuildingPlayer(Machine),
}

/// What came of a step of loading.
pub enum LoadEvent {
    /// The host wants its movie loaded.
    Begin,
    /// The file mounted as the game, where there is one.
    Movie(Option<Vec<u8>>),
    /// What the movie says of itself, or why it is none.
    Parsed(Result<MovieInfo, String>),
    /// The file mounted as the settings, where there is one.
    Settings(Option<Vec<u8>>),
    /// A backend was built, or why it was not.
    Renderer(Result<(), String>),
    /// The player was built, and has taken in its movie.
    Player,
}

/// The next step of loading.
pub enum LoadStep {
    /// Read the file mounted as `game`.
    ReadMovie,
    /// Parse the movie that was handed over.
    ParseHanded,
    /// Parse this movie.
    ParseMounted(Vec<u8>),
    /// Read the file mounted as `settings`.
    ReadSettings,
    /// Build a backend.
    BuildRenderer { width: u32, height: u32, which: Which },
    /// Build the player.
    BuildPlayer(PlayerConfig),
    /// Loading is over: one where a machine runs now, zero where it was
    /// refused.
    Finished(i32),
}

/// What a run is made of: everything a host sets or asks while a machine runs,
/// and what the movie says meanwhile. An input log is a list of these.
pub enum HostCall {
    /// [`FrameAdvance`]
    Frame(FrameEvent),
    /// [`SetButton`]
    Button { index: i32, state: i32 },
    /// [`SetAxis`]
    Axis { index: i32, value: i32 },
    /// [`SetMousePixels`]
    Pixels { x: i32, y: i32 },
    /// [`SetTextInput`]
    Typing(i32),
    /// [`SetRenderingEnabled`]
    Rendering(i32),
    /// [`avm_trace`]
    Trace(String),
    /// [`GetTty`]
    Tty,
    /// [`SetGpuBridge`]
    Bridge { addr: u64, installed: bool },
    /// [`build`](crate::renderer::build), for a backend that is rebuilt
    Build { which: Which, started: Option<bool> },
}

/// Everything a host can reach.
pub struct Core {
    pub table: InputTable,
    pub machine: Option<Machine>,
    pub loading: LoadPhase,
    /// Why the last movie was refused.
    pub load_error: Vec<u8>,
    /// Where the movie is to believe it was loaded from.
    pub spoof_url: Vec<u8>,
    /// The movie that was handed over.
    pub swf: Vec<u8>,
    pub renderer: Renderer,
}

impl Core {
    /// The buffers have their sizes, and every machine fits the table.
    pub open spec fn well_formed(self) -> bool {
        &&& self.table.well_formed()
        &&& self.load_error@.len() == 256
        &&& self.spoof_url@.len() == 512
        &&& self.machine matches Some(m) ==> m.well_formed(self.table)
        &&& match self.loading {
            LoadPhase::BuildingRenderer(c) => c.pace.well_formed(),
            LoadPhase::BuildingPlayer(m) => m.well_formed(self.table),
            _ => true,
        }
    }

    /// The event fits how far loading has come, and a backend that was built is
    /// of a size whose picture memory can hold. A host may begin again at any
    /// time.
    pub open spec fn expects_load(self, event: LoadEvent) -> bool {
        match event {
            LoadEvent::Begin => true,
            LoadEvent::Movie(_) => self.loading is ReadingMovie,
            LoadEvent::Parsed(_) => self.loading is Parsing,
            LoadEvent::Settings(_) => self.loading is ReadingSettings,
            LoadEvent::Renderer(built) => {
                &&& self.loading is BuildingRenderer
                &&& built is Ok ==> byte_count(
                    at_least_one(self.loading->BuildingRenderer_0.stage_width),
                    at_least_one(self.loading->BuildingRenderer_0.stage_height),
                ) <= isize::MAX
            },
            LoadEvent::Player => self.loading is BuildingPlayer,
        }
    }

    /// `next` differs from this in its machine alone, and has one when this
    /// does.
    pub open spec fn machine_alone(self, next: Core) -> bool {
        &&& next == (Core { machine: next.machine, ..self })
        &&& next.machine is Some <==> self.machine is Some
    }

    /// `next` is this with loading at `loading`.
    pub open spec fn loading_on(self, next: Core) -> bool {
        next == (Core { loading: next.loading, ..self })
    }

    /// `next` differs from this in what is drawn on alone: a backend was built.
    pub open spec fn backend_built(self, next: Core) -> bool {
        next == (Core { renderer: next.renderer, ..self })
    }

    /// Loading was refused with `why`: it is over, the host can read why, and
    /// whatever ran before still does.
    pub open spec fn refused(self, next: Core, step: LoadStep, why: Seq<char>) -> bool {
        &&& step == LoadStep::Finished(0)
        &&& next == (Core { loading: LoadPhase::Idle, load_error: next.load_error, ..self })
        &&& next.load_error@ == written(self.load_error@, encode_utf8(why))
    }

    /// `next` is this once `event` has come, and `step` is what loading takes
    /// next.
    pub open spec fn loads(self, next: Core, event: LoadEvent, step: LoadStep) -> bool {
        match event {
            LoadEvent::Begin => {
                &&& self.loading_on(next)
                &&& if self.swf@.len() > 0 {
                    step is ParseHanded && next.loading is Parsing
                } else {
                    step is ReadMovie && next.loading is ReadingMovie
                }
            },
            LoadEvent::Movie(bytes) => if bytes is Some && bytes->0@.len() > 0 {
                &&& self.loading_on(next)
                &&& next.loading is Parsing
                &&& step == LoadStep::ParseMounted(bytes->0)
            } else {
                self.refused(
                    next,
                    step,
                    "no SWF: nothing was handed over and no movie is mounted as 'game'"@,
                )
            },
            LoadEvent::Parsed(Err(e)) => self.refused(
                next,
                step,
                "not a SWF: "@ + e@,
            ),
            LoadEvent::Parsed(Ok(info)) => {
                &&& self.loading_on(next)
                &&& next.loading == LoadPhase::ReadingSettings(info)
                &&& step is ReadSettings
            },
            LoadEvent::Settings(raw) => {
                &&& self.loading_on(next)
                &&& next.loading matches LoadPhase::BuildingRenderer(c)
                &&& configures(
                    c,
                    self.loading->ReadingSettings_0,
                    loaded(maybe_bytes(raw)),
                    held_text(self.spoof_url@),
                )
                &&& step == (LoadStep::BuildRenderer {
                    width: c.stage_width,
                    height: c.stage_height,
                    which: c.renderer,
                })
            },
            LoadEvent::Renderer(Err(e)) => self.refused(
                next,
                step,
                "no renderer: "@ + e@,
            ),
            LoadEvent::Renderer(Ok(_)) => {
                let c = self.loading->BuildingRenderer_0;
                &&& self.loading_on(next)
                &&& next.loading matches LoadPhase::BuildingPlayer(m)
                &&& m.is_new(self.table, c, m.log)
                &&& m.log@.len() == 0
                &&& step == LoadStep::BuildPlayer(c)
            },
            LoadEvent::Player => {
                &&& next == (Core {
                    machine: Some(self.loading->BuildingPlayer_0),
                    loading: LoadPhase::Idle,
                    ..self
                })
                &&& step == LoadStep::Finished(1)
            },
        }
    }

    /// `next` is this once a frame has gone on from `event`, and `actions` are
    /// what is to be done next.
    pub open spec fn framed(self, next: Core, event: FrameEvent, actions: Seq<Action>) -> bool {
        &&& self.machine_alone(next)
        &&& match self.machine {
            None => actions.len() == 0,
            Some(m) => m.advanced(next.machine->0, actions, self.table, self.renderer, event),
        }
    }

    /// `next` is this once the movie has traced `message`: it is a line more in
    /// the machine that is being loaded, while one is, and else in the one that
    /// runs.
    pub open spec fn traced(self, next: Core, message: Seq<char>) -> bool {
        match self.loading {
            LoadPhase::BuildingPlayer(m) => {
                &&& self.loading_on(next)
                &&& next.loading matches LoadPhase::BuildingPlayer(n)
                &&& n == (Machine { log: n.log, ..m })
                &&& n.log@ == m.log@ + trace_line(message)
            },
            _ => {
                &&& self.machine_alone(next)
                &&& self.machine matches Some(m) ==> {
                    let n = next.machine->0;
                    &&& n == (Machine { log: n.log, ..m })
                    &&& n.log@ == m.log@ + trace_line(message)
                }
            },
        }
    }

    /// `next` is this once the host was handed the trace.
    pub open spec fn trace_read(self, next: Core) -> bool {
        &&& self.machine_alone(next)
        &&& self.machine matches Some(m) ==> {
            let n = next.machine->0;
            &&& n == (Machine { tty: n.tty, ..m })
            &&& n.tty@ == m.log@
        }
    }

    /// `next` is this with the level of a button set. There is no level but up
    /// and down, and a button that is not on the wire is no button.
    pub open spec fn button_set(self, next: Core, index: i32, state: i32) -> bool {
        &&& self.machine_alone(next)
        &&& self.machine matches Some(m) ==> {
            let n = next.machine->0;
            let level = if state != 0 {
                1u8
            } else {
                0u8
            };
            if 0 <= index < self.table.buttons@.len() {
                &&& n == (Machine { buttons: n.buttons, ..m })
                &&& n.buttons@ == m.buttons@.update(index as int, level)
            } else {
                n == m
            }
        }
    }

    /// `next` is this with a person's pointer, put along one axis where `index`
    /// names one.
    pub open spec fn axis_set(self, next: Core, index: i32, value: i32) -> bool {
        &&& self.machine_alone(next)
        &&& self.machine matches Some(m) ==> next.machine->0 == (Machine {
            live_pointer: true,
            mouse: if index == 0 {
                (axis_pixel(value, m.video_w) as i32, m.mouse.1)
            } else if index == 1 {
                (m.mouse.0, axis_pixel(value, m.video_h) as i32)
            } else {
                m.mouse
            },
            ..m
        })
    }

    /// `next` is this with a recorded pointer, put on an exact pixel.
    pub open spec fn pointer_put(self, next: Core, x: i32, y: i32) -> bool {
        &&& self.machine_alone(next)
        &&& self.machine matches Some(m) ==> next.machine->0 == (Machine {
            live_pointer: false,
            mouse: (x, y),
            ..m
        })
    }

    /// `next` is this with typing turned on or off.
    pub open spec fn typing_set(self, next: Core, on: i32) -> bool {
        &&& self.machine_alone(next)
        &&& self.machine matches Some(m) ==> next.machine->0 == (Machine {
            text_input: on != 0,
            ..m
        })
    }

    /// `next` is this with the readback turned on or off.
    pub open spec fn rendering_set(self, next: Core, on: i32) -> bool {
        &&& self.machine_alone(next)
        &&& self.machine matches Some(m) ==> next.machine->0 == (Machine {
            rendering: on != 0,
            ..m
        })
    }

    /// `next` is this with the host's graphics callback, where it was accepted.
    pub open spec fn bridge_set(self, next: Core, addr: u64, installed: bool) -> bool {
        next == (Core {
            renderer: if installed {
                Renderer { bridge: addr, ..self.renderer }
            } else {
                self.renderer
            },
            ..self
        })
    }

    /// `next` is this once `call` was made, and `actions` are what it handed
    /// back to be done.
    pub open spec fn answered(self, next: Core, call: HostCall, actions: Seq<Action>) -> bool {
        match call {
            HostCall::Frame(event) => self.framed(next, event, actions),
            HostCall::Button { index, state } => {
                self.button_set(next, index, state) && actions.len() == 0
            },
            HostCall::Axis { index, value } => {
                self.axis_set(next, index, value) && actions.len() == 0
            },
            HostCall::Pixels { x, y } => self.pointer_put(next, x, y) && actions.len() == 0,
            HostCall::Typing(on) => self.typing_set(next, on) && actions.len() == 0,
            HostCall::Rendering(on) => self.rendering_set(next, on) && actions.len() == 0,
            HostCall::Trace(message) => self.traced(next, message@) && actions.len() == 0,
            HostCall::Tty => self.trace_read(next) && actions.len() == 0,
            HostCall::Bridge { addr, installed } => {
                self.bridge_set(next, addr, installed) && actions.len() == 0
            },
            HostCall::Build { which, started } => {
                &&& next == (Core { renderer: built(self.renderer, which, started), ..self })
                &&& actions.len() == 0
            },
        }
    }

    /// Nothing that a run can show tells two hosts' machines apart: the one that
    /// runs, and the one whose player is being built.
    pub open spec fn alike(self, other: Core) -> bool {
        &&& self.table == other.table
        &&& self.renderer == other.renderer
        &&& match (self.machine, other.machine) {
            (Some(m), Some(n)) => m.alike(n),
            (None, None) => true,
            _ => false,
        }
        &&& match (self.loading, other.loading) {
            (LoadPhase::BuildingPlayer(m), LoadPhase::BuildingPlayer(n)) => m.alike(n),
            (a, b) => !(a is BuildingPlayer) && !(b is BuildingPlayer),
        }
    }

    /// How many bytes the movie has traced.
    pub open spec fn trace_size(self) -> nat {
        match self.machine {
            Some(m) => m.log@.len(),
            None => 0,
        }
    }

    /// The digest of what the movie has traced.
    pub open spec fn trace_digest(self) -> u64 {
        match self.machine {
            Some(m) => digest_of(m.log@),
            None => 0,
        }
    }

    /// How many host frames are finished.
    pub open spec fn frame_count(self) -> u64 {
        match self.machine {
            Some(m) => m.frames,
            None => 0,
        }
    }

    /// One where a machine runs.
    pub open spec fn running(self) -> i32 {
        if self.machine is Some {
            1
        } else {
            0
        }
    }

    /// The host's frame rate as a ratio.
    pub open spec fn vsync(self) -> (i32, i32) {
        match self.machine {
            Some(m) => (m.vsync_num, m.vsync_den),
            None => (60, 1),
        }
    }

    /// The picture's width and height.
    pub open spec fn video_size(self) -> (u32, u32) {
        match self.machine {
            Some(m) => (m.video_w, m.video_h),
            None => (0, 0),
        }
    }

    /// How many stereo frames of sound the frame has.
    pub open spec fn sample_count(self) -> nat {
        match self.machine {
            Some(m) => m.audio@.len() / 2,
            None => 0,
        }
    }

    /// A host with no machine, no movie and nothing said.
    pub fn new(table: InputTable) -> (core: Core)
        requires
            table.well_formed(),
        ensures
            core.well_formed(),
            core.table == table,
            core.machine is None,
            core.loading is Idle,
            core.load_error@ == Seq::new(256, |i: int| 0u8),
            core.spoof_url@ == Seq::new(512, |i: int| 0u8),
            core.swf@.len() == 0,
            core.renderer == (Renderer { in_use: None, bridge: 0 }),
    {
        let load_error: Vec<u8> = vec![0; 256];
        let spoof_url: Vec<u8> = vec![0; 512];
        assert(load_error@ =~= Seq::new(256, |i: int| 0u8));
        assert(spoof_url@ =~= Seq::new(512, |i: int| 0u8));
        Core {
            table,
            machine: None,
            loading: LoadPhase::Idle,
            load_error,
            spoof_url,
            swf: Vec::new(),
            renderer: Renderer::new(),
        }
    }
}

/// The URL the movie believes it was loaded from. Set before loading; it wins
/// over the setting of the same purpose.
pub fn SetSpoofUrl(core: &mut Core, url: &[u8])
    requires
        old(core).well_formed(),
    ensures
        final(core).well_formed(),
        *final(core) == (Core { spoof_url: final(core).spoof_url, ..*old(core) }),
        final(core).spoof_url@ == written(old(core).spoof_url@, url@),
{
    write_text(&mut core.spoof_url, url);
}

/// Keeps why a movie was refused.
pub fn set_load_error(core: &mut Core, msg: &str)
    requires
        old(core).well_formed(),
    ensures
        final(core).well_formed(),
        *final(core) == (Core { load_error: final(core).load_error, ..*old(core) }),
        final(core).load_error@ == written(old(core).load_error@, encode_utf8(msg@)),
{
    write_text(&mut core.load_error, msg.as_bytes());
}

/// Why the last movie was refused, ended by a zero byte.
pub fn GetLoadError(core: &Core) -> (r: &Vec<u8>)
    ensures
        r@ == core.load_error@,
{
    &core.load_error
}

/// Makes room for a movie of `len` bytes, which the host then fills.
pub fn AllocSwf(core: &mut Core, len: u64)
    requires
        old(core).well_formed(),
        len <= isize::MAX,
    ensures
        final(core).well_formed(),
        *final(core) == (Core { swf: final(core).swf, ..*old(core) }),
        final(core).swf@ == Seq::new(len as nat, |i: int| 0u8),
{
    let room: Vec<u8> = vec![0; len as usize];
    assert(room@ =~= Seq::new(len as nat, |i: int| 0u8));
    core.swf = room;
}

/// Goes on loading a movie from what came of the last step.
///
/// The movie comes one of two ways: handed over, which wins, or mounted. Then
/// it is parsed, the settings are read and put together with it, a backend is
/// built, and last the player.
pub fn Init(core: &mut Core, event: LoadEvent) -> (step: LoadStep)
    requires
        old(core).well_formed(),
        old(core).expects_load(event),
    ensures
        final(core).well_formed(),
        old(core).loads(*final(core), event, step),
{
    let mut phase: LoadPhase = LoadPhase::Idle;
    std::mem::swap(&mut phase, &mut core.loading);
    match event {
        LoadEvent::Begin => if core.swf.len() > 0 {
            core.loading = LoadPhase::Parsing;
            LoadStep::ParseHanded
        } else {
            core.loading = LoadPhase::ReadingMovie;
            LoadStep::ReadMovie
        },
        LoadEvent::Movie(bytes) => {
            if let Some(b) = bytes {
                if b.len() > 0 {
                    core.loading = LoadPhase::Parsing;
                    return LoadStep::ParseMounted(b);
                }
            }
            set_load_error(
                core,
                "no SWF: nothing was handed over and no movie is mounted as 'game'",
            );
            LoadStep::Finished(0)
        },
        LoadEvent::Parsed(parsed) => match parsed {
            Ok(info) => {
                core.loading = LoadPhase::ReadingSettings(info);
                LoadStep::ReadSettings
            },
            Err(e) => {
                let mut why: String = "not a SWF: ".to_owned();
                why.append(e.as_str());
                set_load_error(core, why.as_str());
                LoadStep::Finished(0)
            },
        },
        LoadEvent::Settings(raw) => {
            let settings: Settings = match &raw {
                Some(bytes) => Settings::load(Some(bytes.as_slice())),
                None => Settings::load(None),
            };
            if let LoadPhase::ReadingSettings(info) = phase {
                let direct: Option<String> = read_text(&core.spoof_url);
                let config: PlayerConfig = configure(info, &settings, direct);
                let (width, height, which): (u32, u32, Which) = (
                    config.stage_width,
                    config.stage_height,
                    config.renderer,
                );
                core.loading = LoadPhase::BuildingRenderer(config);
                LoadStep::BuildRenderer { width, height, which }
            } else {
                LoadStep::Finished(0)
            }
        },
        LoadEvent::Renderer(built) => match built {
            Ok(_) => {
                if let LoadPhase::BuildingRenderer(config) = phase {
                    let m: Machine = Machine::new(&core.table, &config, CaptureLog::new());
                    core.loading = LoadPhase::BuildingPlayer(m);
                    LoadStep::BuildPlayer(config)
                } else {
                    LoadStep::Finished(0)
                }
            },
            Err(e) => {
                let mut why: String = "no renderer: ".to_owned();
                why.append(e.as_str());
                set_load_error(core, why.as_str());
                LoadStep::Finished(0)
            },
        },
        LoadEvent::Player => {
            if let LoadPhase::BuildingPlayer(m) = phase {
                core.machine = Some(m);
                LoadStep::Finished(1)
            } else {
                LoadStep::Finished(0)
            }
        },
    }
}

/// Bytes that may be absent, for contracts.
pub open spec fn maybe_bytes(b: Option<Vec<u8>>) -> Option<Seq<u8>> {
    match b {
        Some(v) => Some(v@),
        None => None,
    }
}

/// Goes on with a frame from what came of its last part, and hands out what is
/// to be done next, in order.
pub fn FrameAdvance(core: &mut Core, event: FrameEvent) -> (actions: Vec<Action>)
    requires
        old(core).well_formed(),
        old(core).machine matches Some(m) ==> m.expects(event),
    ensures
        final(core).well_formed(),
        old(core).framed(*final(core), event, actions@),
{
    match &mut core.machine {
        None => Vec::new(),
        Some(m) => m.advance(&core.table, &core.renderer, event),
    }
}

/// The movie traced a message: it goes to the machine that is being loaded,
/// while one is, and else to the one that runs.
pub fn avm_trace(core: &mut Core, message: &str)
    requires
        old(core).well_formed(),
    ensures
        final(core).well_formed(),
        old(core).traced(*final(core), message@),
{
    match &mut core.loading {
        LoadPhase::BuildingPlayer(m) => {
            m.log.avm_trace(message);
        },
        _ => {
            match &mut core.machine {
                Some(m) => {
                    m.log.avm_trace(message);
                },
                None => {},
            }
        },
    }
}

/// Everything the movie has traced so far.
pub fn GetTty(core: &mut Core) -> (r: Option<&Vec<u8>>)
    requires
        old(core).well_formed(),
    ensures
        final(core).well_formed(),
        old(core).trace_read(*final(core)),
        match old(core).machine {
            None => r is None,
            Some(m) => r matches Some(v) && v@ == m.log@,
        },
{
    match &mut core.machine {
        None => None,
        Some(m) => {
            m.tty = vstd::slice::slice_to_vec(m.log.out.as_slice());
            Some(&m.tty)
        },
    }
}

/// How many bytes the movie has traced so far.
pub fn GetTtySize(core: &Core) -> (n: i64)
    ensures
        n == core.trace_size() as i64,
{
    match &core.machine {
        Some(m) => m.log.out.len() as i64,
        None => 0,
    }
}

/// The digest of the trace: the one number two runs must agree on, frame for
/// frame.
pub fn GetTraceDigest(core: &Core) -> (h: u64)
    ensures
        h == core.trace_digest(),
{
    match &core.machine {
        Some(m) => digest(m.log.out.as_slice()),
        None => 0,
    }
}

/// How many host frames are finished.
pub fn GetFrameCount(core: &Core) -> (n: u64)
    ensures
        n == core.frame_count(),
{
    match &core.machine {
        Some(m) => m.frames,
        None => 0,
    }
}

/// One where a machine runs, zero where none does.
pub fn IsRunning(core: &Core) -> (r: i32)
    ensures
        r == core.running(),
{
    if core.machine.is_some() {
        1
    } else {
        0
    }
}

/// Sets a button's level. There is no level but up and down, and a button that
/// is not on the wire is no button.
pub fn SetButton(core: &mut Core, index: i32, state: i32)
    requires
        old(core).well_formed(),
    ensures
        final(core).well_formed(),
        old(core).button_set(*final(core), index, state),
{
    match &mut core.machine {
        Some(m) => {
            if index >= 0 && (index as usize) < m.buttons.len() {
                m.buttons.set(index as usize, if state != 0 { 1 } else { 0 });
            }
        },
        None => {},
    }
}

/// Moves the pointer along one axis: a position across the axis's range, which
/// is scaled to the stage. The pointer is then a person's.
pub fn SetAxis(core: &mut Core, index: i32, value: i32)
    requires
        old(core).well_formed(),
    ensures
        final(core).well_formed(),
        old(core).axis_set(*final(core), index, value),
{
    match &mut core.machine {
        Some(m) => {
            m.live_pointer = true;
            if index == 0 {
                m.mouse.0 = axis_to_pixel(value, m.video_w);
            } else if index == 1 {
                m.mouse.1 = axis_to_pixel(value, m.video_h);
            }
        },
        None => {},
    }
}

/// Puts the pointer on an exact stage pixel. The pointer is then a recorded
/// one.
pub fn SetMousePixels(core: &mut Core, x: i32, y: i32)
    requires
        old(core).well_formed(),
    ensures
        final(core).well_formed(),
        old(core).pointer_put(*final(core), x, y),
{
    match &mut core.machine {
        Some(m) => {
            m.mouse = (x, y);
            m.live_pointer = false;
        },
        None => {},
    }
}

/// Whether a printable key press also types its character.
pub fn SetTextInput(core: &mut Core, on: i32)
    requires
        old(core).well_formed(),
    ensures
        final(core).well_formed(),
        old(core).typing_set(*final(core), on),
{
    match &mut core.machine {
        Some(m) => {
            m.text_input = on != 0;
        },
        None => {},
    }
}

/// Whether the picture is read back. A host that throws frames away, seeking,
/// turns it off; the movie runs and is drawn all the same.
pub fn SetRenderingEnabled(core: &mut Core, on: i32)
    requires
        old(core).well_formed(),
    ensures
        final(core).well_formed(),
        old(core).rendering_set(*final(core), on),
{
    match &mut core.machine {
        Some(m) => {
            m.rendering = on != 0;
        },
        None => {},
    }
}

/// How many memory domains there are: none. A movie's state is an object graph
/// that is moved and recycled as it runs, so no address means the same thing
/// from one frame to the next.
pub fn GetMemoryDomainCount() -> (n: i32)
    ensures
        n == 0,
{
    0
}

/// A memory domain's name: there is no domain.
pub fn GetMemoryDomainName(_i: i32) -> (r: Option<&'static str>)
    ensures
        r is None,
{
    None
}

/// A memory domain's bytes: there is no domain.
pub fn GetMemoryDomainPtr(_i: i32) -> (r: Option<&'static [u8]>)
    ensures
        r is None,
{
    None
}

/// A memory domain's size: there is no domain.
pub fn GetMemoryDomainSize(_i: i32) -> (n: i64)
    ensures
        n == 0,
{
    0
}

/// Whether a memory domain can be written: there is no domain.
pub fn GetMemoryDomainWritable(_i: i32) -> (n: i32)
    ensures
        n == 0,
{
    0
}

/// The host's graphics callback, handed over before loading. `installed` says
/// whether the host is one this machine can talk to.
pub fn SetGpuBridge(core: &mut Core, addr: u64, installed: bool)
    requires
        old(core).well_formed(),
    ensures
        final(core).well_formed(),
        old(core).bridge_set(*final(core), addr, installed),
{
    set_bridge(&mut core.renderer, addr, installed);
}

/// The last picture that was read back, blue first, and a blank one before
/// that: as many pixels as [`GetVideoWidth`] by [`GetVideoHeight`] has, at all
/// times.
pub fn GetVideoBgra(core: &Core) -> (r: Option<&Vec<u8>>)
    requires
        core.well_formed(),
    ensures
        match core.machine {
            Some(m) => r matches Some(v) && v@ == m.video@ && v@.len() == byte_count(
                m.video_w,
                m.video_h,
            ),
            None => r is None,
        },
{
    match &core.machine {
        Some(m) => Some(&m.video),
        None => None,
    }
}

/// The host's frame rate: the number of frames in
/// [`GetVsyncDenominator`] seconds.
pub fn GetVsyncNumerator(core: &Core) -> (n: i32)
    ensures
        n == core.vsync().0,
{
    match &core.machine {
        Some(m) => m.vsync_num,
        None => 60,
    }
}

/// The host's frame rate: the seconds that [`GetVsyncNumerator`] frames take.
pub fn GetVsyncDenominator(core: &Core) -> (n: i32)
    ensures
        n == core.vsync().1,
{
    match &core.machine {
        Some(m) => m.vsync_den,
        None => 1,
    }
}

/// The picture's width.
pub fn GetVideoWidth(core: &Core) -> (n: i32)
    ensures
        n == core.video_size().0 as i32,
{
    match &core.machine {
        Some(m) => m.video_w as i32,
        None => 0,
    }
}

/// The picture's height.
pub fn GetVideoHeight(core: &Core) -> (n: i32)
    ensures
        n == core.video_size().1 as i32,
{
    match &core.machine {
        Some(m) => m.video_h as i32,
        None => 0,
    }
}

/// The frame's sound, left and right in turn.
pub fn GetAudio(core: &Core) -> (r: Option<&Vec<i16>>)
    ensures
        match core.machine {
            Some(m) => r matches Some(v) && v@ == m.audio@,
            None => r is None,
        },
{
    match &core.machine {
        Some(m) => Some(&m.audio),
        None => None,
    }
}

/// How many stereo frames of sound this frame has.
pub fn GetAudioSampleCount(core: &Core) -> (n: i32)
    ensures
        n == core.sample_count() as i32,
{
    match &core.machine {
        Some(m) => (m.audio.len() / 2) as i32,
        None => 0,
    }
}

/// A refused load stops nothing that runs, and always says why.
pub proof fn a_refusal_says_why(core: Core, next: Core, event: LoadEvent, step: LoadStep)
    requires
        core.well_formed(),
        core.expects_load(event),
        core.loads(next, event, step),
        step == LoadStep::Finished(0),
    ensures
        next.machine == core.machine,
        next.loading is Idle,
        up_to_nul(next.load_error@).len() > 0,
{
    reveal_strlit("no SWF: nothing was handed over and no movie is mounted as 'game'");
    reveal_strlit("not a SWF: ");
    reveal_strlit("no renderer: ");
    let why = match event {
        LoadEvent::Parsed(Err(e)) => "not a SWF: "@ + e@,
        LoadEvent::Renderer(Err(e)) => "no renderer: "@ + e@,
        _ => "no SWF: nothing was handed over and no movie is mounted as 'game'"@,
    };
    assert(why[0] == 'n');
    let bytes = encode_utf8(why);
    assert((110u32 & 0x7f) as u8 == 110u8) by (bit_vector);
    assert(bytes[0] == 110u8);
    reads_back(core.load_error@, bytes);
    let head = bytes.take(fitting(bytes.len(), core.load_error@.len()));
    assert(head[0] == 110u8);
    first_nul(head);
}

/// The movie traced each of `said` in turn, `cores` being where that started and
/// what each line left.
pub open spec fn traced_in_turn(cores: Seq<Core>, said: Seq<Seq<char>>) -> bool {
    &&& cores.len() == said.len() + 1
    &&& forall|i: int| 0 <= i < said.len() ==> cores[i].traced(cores[i + 1], #[trigger] said[i])
}

/// What a movie traces while its player is built is kept by the machine that is
/// to run it, line by line, and changes nothing else.
pub proof fn loading_traces_are_kept(cores: Seq<Core>, said: Seq<Seq<char>>)
    requires
        traced_in_turn(cores, said),
        cores[0].loading is BuildingPlayer,
    ensures
        ({
            let m = cores[0].loading->BuildingPlayer_0;
            &&& cores[0].loading_on(cores.last())
            &&& cores.last().loading matches LoadPhase::BuildingPlayer(n)
            &&& n == (Machine { log: n.log, ..m })
            &&& n.log@ == m.log@ + traced_bytes(said)
        }),
    decreases said.len(),
{
    let m = cores[0].loading->BuildingPlayer_0;
    if said.len() == 0 {
        assert(m.log@ + traced_bytes(said) =~= m.log@);
    } else {
        let k = said.len() - 1;
        let (cores0, said0) = (cores.drop_last(), said.drop_last());
        assert forall|i: int| 0 <= i < said0.len() implies cores0[i].traced(
            cores0[i + 1],
            #[trigger] said0[i],
        ) by {
            let line = said[i];
        }
        loading_traces_are_kept(cores0, said0);
        let line = said[k];
        assert(cores0.last() == cores[k]);
        assert(m.log@ + traced_bytes(said) =~= m.log@ + traced_bytes(said0) + trace_line(line));
    }
}

/// `core` came to run a movie that says `info` of itself: from its first frame,
/// as the movie and the settings come to, its trace what it said while the
/// player was built. Nothing else of `before` changed but what it draws on.
pub open spec fn runs_from_the_start(
    before: Core,
    core: Core,
    info: MovieInfo,
    raw: Option<Vec<u8>>,
    said: Seq<Seq<char>>,
    built: LoadStep,
) -> bool {
    &&& built matches LoadStep::BuildPlayer(config)
    &&& configures(config, info, loaded(maybe_bytes(raw)), held_text(before.spoof_url@))
    &&& core.machine matches Some(m)
    &&& m.is_new(before.table, config, m.log)
    &&& m.log@ == traced_bytes(said)
    &&& core == (Core {
        machine: core.machine,
        loading: LoadPhase::Idle,
        renderer: core.renderer,
        ..before
    })
}

proof fn a_parsed_movie_runs(
    c1: Core,
    c2: Core,
    c3: Core,
    ready: Core,
    building: Seq<Core>,
    c5: Core,
    info: MovieInfo,
    raw: Option<Vec<u8>>,
    said: Seq<Seq<char>>,
    s2: LoadStep,
    s3: LoadStep,
    s4: LoadStep,
    s5: LoadStep,
)
    requires
        c1.loads(c2, LoadEvent::Parsed(Ok(info)), s2),
        c2.loads(c3, LoadEvent::Settings(raw), s3),
        c3.backend_built(ready),
        ready.loads(building[0], LoadEvent::Renderer(Ok(())), s4),
        traced_in_turn(building, said),
        building.last().loads(c5, LoadEvent::Player, s5),
    ensures
        s2 is ReadSettings,
        s3 is BuildRenderer,
        s5 == LoadStep::Finished(1),
        c5.renderer == ready.renderer,
        runs_from_the_start(c1, c5, info, raw, said, s4),
{
    loading_traces_are_kept(building, said);
    let m = building[0].loading->BuildingPlayer_0;
    assert(m.log@ + traced_bytes(said) =~= traced_bytes(said));
}

/// A movie that was handed over, is one, and gets its backend and its player
/// runs from its first frame, as it and the settings come to, with what it said
/// meanwhile as its trace. It is read from nowhere else.
pub proof fn a_handed_movie_runs(
    c0: Core,
    c1: Core,
    c2: Core,
    c3: Core,
    ready: Core,
    building: Seq<Core>,
    c5: Core,
    info: MovieInfo,
    raw: Option<Vec<u8>>,
    said: Seq<Seq<char>>,
    s1: LoadStep,
    s2: LoadStep,
    s3: LoadStep,
    s4: LoadStep,
    s5: LoadStep,
)
    requires
        c0.swf@.len() > 0,
        c0.loads(c1, LoadEvent::Begin, s1),
        c1.loads(c2, LoadEvent::Parsed(Ok(info)), s2),
        c2.loads(c3, LoadEvent::Settings(raw), s3),
        c3.backend_built(ready),
        ready.loads(building[0], LoadEvent::Renderer(Ok(())), s4),
        traced_in_turn(building, said),
        building.last().loads(c5, LoadEvent::Player, s5),
    ensures
        s1 is ParseHanded,
        s2 is ReadSettings,
        s3 is BuildRenderer,
        s5 == LoadStep::Finished(1),
        c5.renderer == ready.renderer,
        runs_from_the_start(c0, c5, info, raw, said, s4),
{
    a_parsed_movie_runs(c1, c2, c3, ready, building, c5, info, raw, said, s2, s3, s4, s5);
}

/// A movie that is mounted, where none was handed over, runs just so: its bytes
/// are read and are what is parsed.
pub proof fn a_mounted_movie_runs(
    c0: Core,
    opening: Core,
    bytes: Vec<u8>,
    c1: Core,
    c2: Core,
    c3: Core,
    ready: Core,
    building: Seq<Core>,
    c5: Core,
    info: MovieInfo,
    raw: Option<Vec<u8>>,
    said: Seq<Seq<char>>,
    s0: LoadStep,
    s1: LoadStep,
    s2: LoadStep,
    s3: LoadStep,
    s4: LoadStep,
    s5: LoadStep,
)
    requires
        c0.swf@.len() == 0,
        bytes@.len() > 0,
        c0.loads(opening, LoadEvent::Begin, s0),
        opening.loads(c1, LoadEvent::Movie(Some(bytes)), s1),
        c1.loads(c2, LoadEvent::Parsed(Ok(info)), s2),
        c2.loads(c3, LoadEvent::Settings(raw), s3),
        c3.backend_built(ready),
        ready.loads(building[0], LoadEvent::Renderer(Ok(())), s4),
        traced_in_turn(building, said),
        building.last().loads(c5, LoadEvent::Player, s5),
    ensures
        s0 is ReadMovie,
        s1 == LoadStep::ParseMounted(bytes),
        s2 is ReadSettings,
        s3 is BuildRenderer,
        s5 == LoadStep::Finished(1),
        c5.renderer == ready.renderer,
        runs_from_the_start(c0, c5, info, raw, said, s4),
{
    a_parsed_movie_runs(c1, c2, c3, ready, building, c5, info, raw, said, s2, s3, s4, s5);
}

/// A movie starts alike every time: two machines that were loaded from one movie
/// with the same settings cannot be told apart.
pub proof fn a_movie_starts_alike(
    m: Machine,
    n: Machine,
    table: InputTable,
    m_config: PlayerConfig,
    n_config: PlayerConfig,
    movie: MovieInfo,
    settings: Map<Seq<char>, SettingView>,
    direct: Option<Seq<char>>,
)
    requires
        configures(m_config, movie, settings, direct),
        configures(n_config, movie, settings, direct),
        m.is_new(table, m_config, m.log),
        n.is_new(table, n_config, n.log),
        m.log@ == n.log@,
    ensures
        m.alike(n),
{
    assert(m.tty@ =~= n.tty@);
    assert(m.audio@ =~= n.audio@);
}

/// A call is replayed: what it makes of a machine, and what it hands back to be
/// done, hang on the machine and on the call, and on nothing else.
pub proof fn a_call_is_replayed(
    c: Core,
    d: Core,
    c_next: Core,
    d_next: Core,
    call: HostCall,
    c_actions: Seq<Action>,
    d_actions: Seq<Action>,
)
    requires
        c.alike(d),
        c.answered(c_next, call, c_actions),
        d.answered(d_next, call, d_actions),
    ensures
        c_next.alike(d_next),
        c_actions == d_actions,
{
    if let HostCall::Frame(event) = call {
        if let Some(m) = c.machine {
            a_step_is_replayed(
                m,
                d.machine->0,
                c_next.machine->0,
                d_next.machine->0,
                c_actions,
                d_actions,
                c.table,
                c.renderer,
                event,
            );
        }
    }
    assert(c_actions =~= d_actions);
}

/// A run is replayed from its log. Two machines that start alike, and are driven
/// by the same calls (the levels, the pointer, the frames and what came of them,
/// what the movie says), are alike after each of them, ask the same to be done
/// each time, and leave the same trace.
pub proof fn a_driven_run_is_replayed(
    cs: Seq<Core>,
    ds: Seq<Core>,
    calls: Seq<HostCall>,
    c_actions: Seq<Seq<Action>>,
    d_actions: Seq<Seq<Action>>,
)
    requires
        cs.len() == calls.len() + 1,
        ds.len() == calls.len() + 1,
        c_actions.len() == calls.len(),
        d_actions.len() == calls.len(),
        cs[0].alike(ds[0]),
        forall|i: int|
            0 <= i < calls.len() ==> cs[i].answered(cs[i + 1], #[trigger] calls[i], c_actions[i]),
        forall|i: int|
            0 <= i < calls.len() ==> ds[i].answered(ds[i + 1], #[trigger] calls[i], d_actions[i]),
    ensures
        forall|i: int| 0 <= i < cs.len() ==> (#[trigger] cs[i]).alike(ds[i]),
        c_actions == d_actions,
        cs.last().machine is Some <==> ds.last().machine is Some,
        cs.last().machine matches Some(m) ==> {
            let n = ds.last().machine->0;
            &&& m.alike(n)
            &&& digest_of(m.log@) == digest_of(n.log@)
        },
    decreases calls.len(),
{
    if calls.len() > 0 {
        let k = calls.len() - 1;
        let (cs0, ds0, calls0) = (cs.drop_last(), ds.drop_last(), calls.drop_last());
        let (ca0, da0) = (c_actions.drop_last(), d_actions.drop_last());
        assert forall|i: int| 0 <= i < calls0.len() implies cs0[i].answered(
            cs0[i + 1],
            #[trigger] calls0[i],
            ca0[i],
        ) && ds0[i].answered(ds0[i + 1], calls0[i], da0[i]) by {
            let call = calls[i];
        }
        a_driven_run_is_replayed(cs0, ds0, calls0, ca0, da0);
        let call = calls[k];
        assert(cs0[k] == cs[k]);
        a_call_is_replayed(cs[k], ds[k], cs[k + 1], ds[k + 1], call, c_actions[k], d_actions[k]);
        assert forall|i: int| 0 <= i < cs.len() implies (#[trigger] cs[i]).alike(ds[i]) by {
            if i < cs0.len() {
                assert(cs0[i].alike(ds0[i]));
            }
        }
        assert(c_actions =~= ca0.push(c_actions[k]));
        assert(d_actions =~= da0.push(d_actions[k]));
    } else {
        assert(c_actions =~= d_actions);
    }
}

/// What a host reads of a machine is what the machine has: a trace of as many
/// bytes as it has, whose digest is FNV-1a over them; the frames finished; the
/// rate and the size; a stereo frame for each two samples.
pub proof fn a_host_reads_what_there_is(core: Core)
    ensures
        core.machine matches Some(m) ==> {
            &&& core.running() == 1
            &&& core.trace_size() == m.log.out@.len()
            &&& core.trace_digest() == digest_from(14695981039346656037, m.log.out@)
            &&& core.frame_count() == m.frames
            &&& core.vsync() == (m.vsync_num, m.vsync_den)
            &&& core.video_size() == (m.video_w, m.video_h)
            &&& 2 * core.sample_count() <= m.audio@.len() < 2 * core.sample_count() + 2
        },
        core.machine is None ==> {
            &&& core.running() == 0
            &&& core.trace_size() == 0
            &&& core.trace_digest() == 0
            &&& core.frame_count() == 0
            &&& core.vsync() == (60i32, 1i32)
            &&& core.video_size() == (0u32, 0u32)
            &&& core.sample_count() == 0
        },
{
}

/// Setting a button sets that one, to down for anything but zero, and no other;
/// one that is not on the wire sets none. Nothing else of the machine changes.
pub proof fn a_button_is_set_alone(
    core: Core,
    next: Core,
    m: Machine,
    index: i32,
    state: i32,
    i: int,
)
    requires
        core.well_formed(),
        core.machine == Some(m),
        core.button_set(next, index, state),
        0 <= i < core.table.buttons@.len(),
    ensures
        next.machine matches Some(n) && {
            &&& n == (Machine { buttons: n.buttons, ..m })
            &&& n.buttons@.len() == m.buttons@.len()
            &&& i == index && state != 0 ==> n.buttons@[i] == 1
            &&& i == index && state == 0 ==> n.buttons@[i] == 0
            &&& i != index ==> n.buttons@[i] == m.buttons@[i]
        },
        next == (Core { machine: next.machine, ..core }),
{
}

/// Moving an axis puts the pointer, on that axis alone, at the pixel that divides
/// the picture as the value divides the axis, and makes it a person's. There are
/// two axes. Nothing else of the machine changes.
pub proof fn an_axis_moves_alone(core: Core, next: Core, m: Machine, index: i32, value: i32)
    requires
        core.machine == Some(m),
        core.axis_set(next, index, value),
        0 < m.video_w <= i32::MAX,
        0 < m.video_h <= i32::MAX,
    ensures
        next.machine matches Some(n) && {
            let v: int = if value < 0 {
                0
            } else if value > 8191 {
                8191
            } else {
                value as int
            };
            &&& n == (Machine { live_pointer: true, mouse: n.mouse, ..m })
            &&& index == 0 ==> 8191 * n.mouse.0 <= v * (m.video_w - 1) < 8191 * (n.mouse.0 + 1)
            &&& index == 1 ==> 8191 * n.mouse.1 <= v * (m.video_h - 1) < 8191 * (n.mouse.1 + 1)
            &&& index != 0 ==> n.mouse.0 == m.mouse.0
            &&& index != 1 ==> n.mouse.1 == m.mouse.1
        },
        next == (Core { machine: next.machine, ..core }),
{
    let end: i32 = if value < 0 {
        0
    } else if value > 8191 {
        8191
    } else {
        value
    };
    the_axis_is_proportional(value, m.video_w);
    the_axis_is_proportional(value, m.video_h);
    the_axis_is_proportional(end, m.video_w);
    the_axis_is_proportional(end, m.video_h);
    axis_covers_the_stage(value, value, m.video_w);
    axis_covers_the_stage(value, value, m.video_h);
}

/// Exact pixels are taken as they are, and are a recorded pointer's; the switches
/// are on for anything but zero. Each changes its own and nothing else.
pub proof fn the_rest_is_set_alone(core: Core, next: Core, m: Machine, x: i32, y: i32, on: i32)
    requires
        core.machine == Some(m),
    ensures
        core.pointer_put(next, x, y) ==> next == (Core {
            machine: Some(Machine { live_pointer: false, mouse: (x, y), ..m }),
            ..core
        }),
        core.typing_set(next, on) ==> next == (Core {
            machine: Some(Machine { text_input: on != 0, ..m }),
            ..core
        }),
        core.rendering_set(next, on) ==> next == (Core {
            machine: Some(Machine { rendering: on != 0, ..m }),
            ..core
        }),
{
}

/// A message that the movie traces is added to its trace in UTF-8, with a line
/// feed, and to nothing else.
pub proof fn a_trace_is_added_to(core: Core, next: Core, m: Machine, message: Seq<char>)
    requires
        core.machine == Some(m),
        !(core.loading is BuildingPlayer),
        core.traced(next, message),
    ensures
        next.machine matches Some(n) && {
            &&& n == (Machine { log: n.log, ..m })
            &&& n.log.out@ == m.log.out@ + encode_utf8(message) + seq![10u8]
        },
        next == (Core { machine: next.machine, ..core }),
{
    a_line_is_its_message_and_a_feed(message);
    assert(m.log.out@ + (encode_utf8(message) + seq![10u8]) =~= m.log.out@ + encode_utf8(message)
        + seq![10u8]);
}

/// The trace that a host is handed is the trace, and is handed without changing
/// it. A bridge that was refused changes nothing, and one that was accepted is
/// kept.
pub proof fn what_is_handed_over_is_kept(
    core: Core,
    next: Core,
    m: Machine,
    addr: u64,
    installed: bool,
)
    requires
        core.machine == Some(m),
    ensures
        core.trace_read(next) ==> (next.machine matches Some(n) && n == (Machine {
            tty: n.tty,
            ..m
        }) && n.tty@ == m.log.out@ && next == (Core { machine: next.machine, ..core })),
        core.bridge_set(next, addr, installed) ==> {
            &&& !installed ==> next == core
            &&& installed ==> next.renderer.bridge == addr && next.renderer.in_use
                == core.renderer.in_use && next == (Core { renderer: next.renderer, ..core })
        },
{
}

/// With no machine nothing that a host sets, steps or hears of changes anything,
/// and nothing is to be done.
pub proof fn no_machine_is_left_alone(core: Core, next: Core, call: HostCall, actions: Seq<Action>)
    requires
        core.machine is None,
        !(core.loading is BuildingPlayer),
        !(call is Bridge) && !(call is Build),
        core.answered(next, call, actions),
    ensures
        next == core,
        actions.len() == 0,
{
}

/// A movie that was handed over is parsed; where none was, the mounted one is read
/// and parsed, unless it is empty or not there, which is refused.
pub proof fn a_movie_is_handed_over_or_mounted(core: Core, next: Core, step: LoadStep)
    ensures
        core.loads(next, LoadEvent::Begin, step) ==> {
            &&& core.swf@.len() > 0 ==> step is ParseHanded && next.loading is Parsing
            &&& core.swf@.len() == 0 ==> step is ReadMovie && next.loading is ReadingMovie
            &&& next == (Core { loading: next.loading, ..core })
        },
        forall|bytes: Vec<u8>|
            bytes@.len() > 0 && #[trigger] core.loads(next, LoadEvent::Movie(Some(bytes)), step)
                ==> step == LoadStep::ParseMounted(bytes) && next.loading is Parsing,
        forall|bytes: Vec<u8>|
            bytes@.len() == 0 && #[trigger] core.loads(next, LoadEvent::Movie(Some(bytes)), step)
                ==> step == LoadStep::Finished(0) && next.machine == core.machine,
        core.loads(next, LoadEvent::Movie(None), step) ==> step == LoadStep::Finished(0)
            && next.machine == core.machine,
{
}

/// Why a load was refused is written out for the host, as far as its buffer goes,
/// and a zero behind it: that there is no movie, why it is none, or why there is
/// no renderer.
pub proof fn a_refusal_is_written_out(
    core: Core,
    next: Core,
    event: LoadEvent,
    step: LoadStep,
    why: Seq<char>,
    i: int,
)
    requires
        core.well_formed(),
        core.loads(next, event, step),
        match event {
            LoadEvent::Movie(None) => why
                == "no SWF: nothing was handed over and no movie is mounted as 'game'"@,
            LoadEvent::Parsed(Err(e)) => why == "not a SWF: "@ + e@,
            LoadEvent::Renderer(Err(e)) => why == "no renderer: "@ + e@,
            _ => false,
        },
    ensures
        step == LoadStep::Finished(0),
        next == (Core { loading: LoadPhase::Idle, load_error: next.load_error, ..core }),
        next.load_error@.len() == 256,
        ({
            let bytes = encode_utf8(why);
            &&& 0 <= i < bytes.len() && i < 255 ==> next.load_error@[i] == bytes[i]
            &&& bytes.len() <= 255 ==> next.load_error@[bytes.len() as int] == 0
            &&& bytes.len() > 255 ==> next.load_error@[255] == 0
        }),
{
    a_write_is_the_text_and_a_zero(core.load_error@, encode_utf8(why));
}

/// A movie that was parsed has its settings read; it and they, and an address that
/// was handed over, are what the player is configured as, and a backend of its
/// stage on the OpenGL that they ask for is what is built.
pub proof fn settings_and_movie_are_put_together(
    core: Core,
    parsed: Core,
    next: Core,
    info: MovieInfo,
    raw: Option<Vec<u8>>,
    s1: LoadStep,
    s2: LoadStep,
)
    requires
        core.loads(parsed, LoadEvent::Parsed(Ok(info)), s1),
        parsed.loads(next, LoadEvent::Settings(raw), s2),
    ensures
        s1 is ReadSettings,
        next.loading matches LoadPhase::BuildingRenderer(c) && {
            &&& configures(c, info, loaded(maybe_bytes(raw)), held_text(core.spoof_url@))
            &&& s2 == (LoadStep::BuildRenderer {
                width: c.stage_width,
                height: c.stage_height,
                which: c.renderer,
            })
        },
        next == (Core { loading: next.loading, ..core }),
{
}

} // verus!
