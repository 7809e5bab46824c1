//! Whose OpenGL the movie is drawn on.
//!
//! There are two. **Software** is inside the sandbox: what it holds is the
//! machine's own memory, the same on every machine, carried by a savestate.
//! **Hardware** is the host's, across a bridge: fast, outside the savestate,
//! and its objects are names that one particular context handed out.
use vstd::prelude::*;

verus! {

/// Which OpenGL a run asked for.
#[derive(Clone, Copy, PartialEq, Eq, Structural, Debug)]
pub enum Which {
    Software,
    Hardware,
}

/// What is known of the OpenGL that is drawn on.
#[derive(Clone, Copy)]
pub struct Renderer {
    /// What the live backend was built on, once one has been.
    pub in_use: Option<Which>,
    /// The host's callback, or zero.
    pub bridge: u64,
}

/// The next thing to do to build a backend.
pub enum BuildStep {
    /// Bring the sandbox's own OpenGL up, and say whether it came.
    StartSoftware,
    /// Create a backend of this size on the OpenGL named.
    Create { width: u32, height: u32, which: Which },
    /// No backend, and why.
    Refused(String),
}

/// The size a backend is made in: no side is zero.
pub open spec fn at_least_one(n: u32) -> u32 {
    if n == 0 {
        1u32
    } else {
        n
    }
}

/// The context that drawing reaches, as far as it can change under the backend.
pub open spec fn live_context(r: Renderer, host: u64) -> u64 {
    if r.in_use == Some(Which::Software) {
        0
    } else {
        host
    }
}

impl Renderer {
    /// Nothing built, and no bridge.
    pub fn new() -> (r: Renderer)
        ensures
            r.in_use is None,
            r.bridge == 0,
    {
        Renderer { in_use: None, bridge: 0 }
    }
}

/// Which OpenGL the live backend was built on, once one has been built.
pub fn in_use(r: &Renderer) -> (w: Option<Which>)
    ensures
        w == r.in_use,
{
    r.in_use
}

/// The context that drawing reaches, as far as it can change under the
/// backend. A software renderer has none: its objects are the machine's own
/// memory. `host` is what the bridge answers, zero where it cannot tell.
pub fn context_id(r: &Renderer, host: u64) -> (id: u64)
    ensures
        id == live_context(*r, host),
{
    match r.in_use {
        Some(Which::Software) => 0,
        _ => host,
    }
}

/// Takes the host's callback, when installing it was accepted. A refused one
/// changes nothing.
pub fn set_bridge(r: &mut Renderer, addr: u64, installed: bool)
    ensures
        *final(r) == (if installed {
            Renderer { bridge: addr, ..*old(r) }
        } else {
            *old(r)
        }),
{
    if installed {
        r.bridge = addr;
    }
}

/// Whether there is a host to draw on.
pub fn have_bridge(r: &Renderer) -> (b: bool)
    ensures
        b == (r.bridge != 0),
{
    r.bridge != 0
}

/// Everything is there to create a backend on the OpenGL named.
pub open spec fn can_create(r: Renderer, which: Which, started: Option<bool>) -> bool {
    match which {
        Which::Software => started == Some(true),
        Which::Hardware => r.bridge != 0,
    }
}

/// What is known once a backend was asked for: that it is drawn on, from before
/// it is created.
pub open spec fn built(r: Renderer, which: Which, started: Option<bool>) -> Renderer {
    if can_create(r, which, started) {
        Renderer { in_use: Some(which), ..r }
    } else {
        r
    }
}

/// `step` is what building a backend takes next.
pub open spec fn build_comes_to(
    r: Renderer,
    w: u32,
    h: u32,
    which: Which,
    started: Option<bool>,
    step: BuildStep,
) -> bool {
    match (which, started) {
        (Which::Software, None) => step is StartSoftware,
        (Which::Software, Some(false)) => step matches BuildStep::Refused(why) && why@
            == "the guest's own OpenGL would not start"@,
        (Which::Hardware, _) if r.bridge == 0 => step matches BuildStep::Refused(why) && why@
            == "no GPU bridge: this Chimera did not offer a GL context. Set the renderer setting to 'software' to draw inside the sandbox instead"@,
        _ => step == (BuildStep::Create {
            width: at_least_one(w),
            height: at_least_one(h),
            which,
        }),
    }
}

/// Decides what building a backend for a stage of `w` by `h` takes next.
/// `started` says whether the sandbox's own OpenGL came up, once it was asked.
///
/// A run that asked for the host's OpenGL is never given the sandbox's
/// instead: the two draw different pixels.
pub fn build(r: &mut Renderer, w: u32, h: u32, which: Which, started: Option<bool>) -> (step:
    BuildStep)
    ensures
        build_comes_to(*old(r), w, h, which, started, step),
        step is Create <==> can_create(*old(r), which, started),
        *final(r) == built(*old(r), which, started),
{
    match which {
        Which::Software => match started {
            None => {
                return BuildStep::StartSoftware;
            },
            Some(false) => {
                return BuildStep::Refused("the guest's own OpenGL would not start".to_owned());
            },
            Some(true) => {},
        },
        Which::Hardware => {
            if !have_bridge(r) {
                return BuildStep::Refused(
                    "no GPU bridge: this Chimera did not offer a GL context. Set the renderer setting to 'software' to draw inside the sandbox instead".to_owned(),
                );
            }
        },
    }
    r.in_use = Some(which);
    BuildStep::Create {
        width: if w == 0 { 1 } else { w },
        height: if h == 0 { 1 } else { h },
        which,
    }
}

/// How often a device is asked for before it is given up.
pub const POLLS: u32 = 1_000_000;

/// What waiting for a device comes to next.
#[derive(Clone, Copy, PartialEq, Eq, Structural, Debug)]
pub enum PollStep {
    /// It is there.
    Done,
    /// Ask again.
    Poll,
    /// It will never be there.
    GiveUp,
}

/// What waiting for a device comes to after it was asked for `polled` times.
pub open spec fn poll_step(polled: u32, ready: bool) -> PollStep {
    if ready {
        PollStep::Done
    } else if polled < POLLS {
        PollStep::Poll
    } else {
        PollStep::GiveUp
    }
}

/// Decides whether a device that was asked for `polled` times, and is `ready` or
/// not, is asked for again. There is nothing to wait on in between: it is there
/// at once, or never.
pub fn next_poll(polled: u32, ready: bool) -> (step: PollStep)
    ensures
        step == poll_step(polled, ready),
{
    if ready {
        PollStep::Done
    } else if polled < POLLS {
        PollStep::Poll
    } else {
        PollStep::GiveUp
    }
}

/// Whether the objects a backend holds belong to a context that is gone:
/// `built_on` is the context it was built against and `live` the one that
/// answers now, either of them zero where it cannot be told.
pub open spec fn context_moved(built_on: u64, live: u64) -> bool {
    live != 0 && built_on != 0 && live != built_on
}

/// A backend's context moved when two contexts answered, and they are not one. A
/// zero is no answer, on either side.
pub proof fn a_context_moves_between_two_answers(built_on: u64, live: u64)
    ensures
        built_on == live ==> !context_moved(built_on, live),
        built_on == 0 || live == 0 ==> !context_moved(built_on, live),
        built_on != 0 && live != 0 && built_on != live ==> context_moved(built_on, live),
{
}

/// What the host answers is heard unless the sandbox's own OpenGL is drawn on,
/// and then never is.
pub proof fn only_software_is_deaf_to_the_host(bridge: u64, host: u64)
    ensures
        live_context(Renderer { in_use: Some(Which::Software), bridge }, host) == 0,
        live_context(Renderer { in_use: Some(Which::Hardware), bridge }, host) == host,
        live_context(Renderer { in_use: None, bridge }, host) == host,
{
}

/// The host's OpenGL is built on exactly where there is a bridge, the sandbox's
/// exactly where it started, and neither in place of the other. What is built on
/// is in use; a refusal leaves what was.
pub proof fn no_renderer_stands_in_for_another(r: Renderer, started: Option<bool>)
    ensures
        r.bridge == 0 ==> built(r, Which::Hardware, started) == r,
        r.bridge != 0 ==> built(r, Which::Hardware, started).in_use == Some(Which::Hardware),
        started == Some(true) ==> built(r, Which::Software, started).in_use == Some(
            Which::Software,
        ),
        started != Some(true) ==> built(r, Which::Software, started) == r,
        forall|which: Which| (#[trigger] built(r, which, started)).bridge == r.bridge,
        forall|which: Which|
            can_create(r, which, started) || #[trigger] built(r, which, started) == r,
        can_create(r, Which::Hardware, started) <==> r.bridge != 0,
        can_create(r, Which::Software, started) <==> started == Some(true),
{
}

/// No side of a backend is shorter than a pixel, and no other side is changed.
pub proof fn a_side_is_at_least_a_pixel(n: u32)
    ensures
        at_least_one(n) >= 1,
        n >= 1 ==> at_least_one(n) == n,
        at_least_one(0) == 1,
{
}

/// Building a backend comes to one in the size of the stage on the OpenGL that was
/// asked for, or is refused and says why: the host's without a bridge, the
/// sandbox's where it would not start. The sandbox's is started first.
pub proof fn a_backend_is_built_on_what_was_asked_for(
    r: Renderer,
    w: u32,
    h: u32,
    which: Which,
    started: Option<bool>,
    step: BuildStep,
)
    requires
        build_comes_to(r, w, h, which, started, step),
    ensures
        step matches BuildStep::Create { width, height, which: on } ==> {
            &&& on == which
            &&& width >= 1 && height >= 1
            &&& w >= 1 ==> width == w
            &&& h >= 1 ==> height == h
            &&& w == 0 ==> width == 1
            &&& h == 0 ==> height == 1
        },
        which == Which::Hardware && r.bridge != 0 ==> step is Create,
        which == Which::Hardware && r.bridge == 0 ==> (step matches BuildStep::Refused(why) && why@
            == "no GPU bridge: this Chimera did not offer a GL context. Set the renderer setting to 'software' to draw inside the sandbox instead"@),
        which == Which::Software && started is None ==> step is StartSoftware,
        which == Which::Software && started == Some(true) ==> step is Create,
        which == Which::Software && started == Some(false) ==> (step matches BuildStep::Refused(why)
            && why@ == "the guest's own OpenGL would not start"@),
{
}

/// A device that is there is asked for no more; one that is not is asked for a
/// million times, and then no more.
pub proof fn a_device_is_asked_for_a_million_times(polled: u32)
    ensures
        poll_step(polled, true) == PollStep::Done,
        polled < 1_000_000 ==> poll_step(polled, false) == PollStep::Poll,
        polled >= 1_000_000 ==> poll_step(polled, false) == PollStep::GiveUp,
{
}

} // verus!
