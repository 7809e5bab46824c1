use chimera_ruffle::exports::{
    avm_trace, AllocSwf, Core, FrameAdvance, GetAudio, GetAudioSampleCount, GetFrameCount,
    GetMemoryDomainCount, GetMemoryDomainName, GetMemoryDomainPtr, GetMemoryDomainSize,
    GetMemoryDomainWritable, GetTraceDigest, GetVideoBgra, GetVideoHeight, GetVideoWidth, Init,
    LoadEvent, SetAxis, SetButton, SetMousePixels, SetRenderingEnabled, SetTextInput,
};
use chimera_ruffle::config::MovieInfo;
use chimera_ruffle::input::{Btn, InputTable, KeyLocation, MouseButton, NamedKey, PhysicalKey};
use chimera_ruffle::locale::WaterboxLocale;
use chimera_ruffle::machine::{Action, FrameEvent};
use chimera_ruffle::picture::{blank, holdable, to_bgra, Picture};
use chimera_ruffle::renderer::Which;

fn table() -> InputTable {
    InputTable {
        buttons: vec![
            Btn::Mouse(MouseButton::Left),
            Btn::Mouse(MouseButton::Right),
            Btn::Mouse(MouseButton::Middle),
            Btn::Char('a', 'A', PhysicalKey(10)),
            Btn::Named(NamedKey(1), PhysicalKey(30), KeyLocation::Left),
        ],
        shift_left: 4,
        shift_right: 4,
    }
}

/// A machine at its first frame: a stage of 100 by 50, 30 frames a second.
fn loaded(settings: &str) -> Core {
    let mut core = Core::new(table());
    AllocSwf(&mut core, 1);
    Init(&mut core, LoadEvent::Begin);
    let info = MovieInfo { rate: 30 * 256, width_twips: 2000, height_twips: 1000 };
    Init(&mut core, LoadEvent::Parsed(Ok(info)));
    Init(&mut core, LoadEvent::Settings(Some(settings.as_bytes().to_vec())));
    Init(&mut core, LoadEvent::Renderer(Ok(())));
    Init(&mut core, LoadEvent::Player);
    core
}

/// An action in short.
fn word(a: &Action) -> String {
    let w = match a {
        Action::AdvanceTime => "time",
        Action::Preload => "preload",
        Action::RunFrame => "run",
        Action::UpdateTimers => "timers",
        Action::MixAudio => "mix",
        Action::RunTasks => "tasks",
        Action::ReadSamples => "samples",
        Action::ReadContext => "context",
        Action::Rebuild { width, height, which } => {
            return format!("rebuild {}x{} {:?}", width, height, which)
        }
        Action::SwapRenderer => "swap",
        Action::SetViewport { width, height } => return format!("viewport {}x{}", width, height),
        Action::PushQuality => "quality",
        Action::BumpEpoch => "epoch",
        Action::Input(e) => return format!("{:?}", e),
        Action::Render => "render",
        Action::Capture => "capture",
    };
    w.to_string()
}

fn words(actions: &[Action]) -> Vec<String> {
    actions.iter().map(word).collect()
}

/// Runs a frame on a host whose context is `host`; a backend that is asked for
/// is built when `built`.
fn frame(core: &mut Core, host: u64, built: bool, picture: Option<Picture>) -> Vec<String> {
    let mut all = words(&FrameAdvance(core, FrameEvent::Begin));
    let next = FrameAdvance(core, FrameEvent::Ran { samples: vec![1, -2, 3, -4], host_context: host });
    all.extend(words(&next));
    if matches!(next[0], Action::Rebuild { .. }) {
        all.extend(words(&FrameAdvance(core, FrameEvent::Rebuilt(built))));
    }
    assert!(FrameAdvance(core, FrameEvent::Drawn(picture)).is_empty());
    all
}

const PLAIN: [&str; 10] = [
    "time", "preload", "run", "timers", "mix", "tasks", "samples", "context", "render", "capture",
];

#[test]
fn frame_goes_in_a_fixed_order() {
    let mut core = loaded("{}");
    assert_eq!(frame(&mut core, 0, true, None), PLAIN);
    assert_eq!(GetFrameCount(&core), 1);
    assert_eq!(frame(&mut core, 0, true, None), PLAIN);
    assert_eq!(GetFrameCount(&core), 2);
}

#[test]
fn no_machine_does_nothing() {
    let mut core = Core::new(table());
    assert!(FrameAdvance(&mut core, FrameEvent::Begin).is_empty());
    SetButton(&mut core, 0, 1);
    SetAxis(&mut core, 0, 5);
    SetMousePixels(&mut core, 1, 1);
    SetTextInput(&mut core, 0);
    SetRenderingEnabled(&mut core, 0);
    avm_trace(&mut core, "lost");
    assert_eq!(GetFrameCount(&core), 0);
    assert_eq!(GetTraceDigest(&core), 0);
    assert!(GetVideoBgra(&core).is_none());
    assert!(GetAudio(&core).is_none());
    assert_eq!(GetAudioSampleCount(&core), 0);
    assert!(core.machine.is_none());
}

#[test]
fn raised_rate_runs_the_movie_every_other_frame() {
    let mut core = loaded("{\"fps\": 60}");
    assert_eq!(frame(&mut core, 0, true, None)[1..3], ["preload", "run"]);
    assert_eq!(frame(&mut core, 0, true, None)[1], "timers");
    assert_eq!(frame(&mut core, 0, true, None)[1..3], ["preload", "run"]);
    let m = core.machine.as_ref().unwrap();
    assert_eq!((m.frames, m.movie_frames, m.clock_millis), (3, 2, 50));
}

#[test]
fn lowered_rate_preloads_before_every_movie_frame() {
    let mut core = loaded("{\"fps\": 10}");
    let all = frame(&mut core, 0, true, None);
    assert_eq!(all[1..7], ["preload", "run", "preload", "run", "preload", "run"]);
    assert_eq!(all[7], "timers");
}

#[test]
fn date_follows_the_frames() {
    let mut core = loaded("{}");
    for _ in 0..3 {
        frame(&mut core, 0, true, None);
    }
    let locale = WaterboxLocale { millis: core.machine.as_ref().unwrap().clock_millis };
    assert_eq!(locale.get_current_date_time(), 978_307_200_000 + 100);
    assert_eq!(locale.get_timezone(), 0);
}

#[test]
fn date_agrees_with_the_players_clock() {
    let mut core = Core::new(table());
    AllocSwf(&mut core, 1);
    Init(&mut core, LoadEvent::Begin);
    let info = MovieInfo { rate: 24 * 256, width_twips: 20, height_twips: 20 };
    Init(&mut core, LoadEvent::Parsed(Ok(info)));
    Init(&mut core, LoadEvent::Settings(None));
    Init(&mut core, LoadEvent::Renderer(Ok(())));
    Init(&mut core, LoadEvent::Player);
    for _ in 0..24 {
        assert!(core.machine.as_ref().unwrap().can_advance());
        frame(&mut core, 0, true, None);
    }
    assert_eq!(core.machine.as_ref().unwrap().clock_millis, 1000);
}

#[test]
fn date_reaches_the_ends_of_the_calendar() {
    let epoch = 978_307_200_000;
    for end in [-8_334_601_228_800_000, 8_210_266_876_799_999] {
        let locale = WaterboxLocale { millis: end - epoch };
        assert_eq!(locale.get_current_date_time(), end);
    }
}

#[test]
fn sound_is_handed_on() {
    let mut core = loaded("{}");
    frame(&mut core, 0, true, None);
    assert_eq!(GetAudio(&core), Some(&vec![1, -2, 3, -4]));
    assert_eq!(GetAudioSampleCount(&core), 2);
}

#[test]
fn picture_is_handed_on_blue_first() {
    let mut core = loaded("{}");
    let rgba = vec![1, 2, 3, 4, 5, 6, 7, 8];
    frame(&mut core, 0, true, Some(Picture { width: 2, height: 1, rgba }));
    assert_eq!(GetVideoBgra(&core), Some(&vec![3, 2, 1, 4, 7, 6, 5, 8]));
    assert_eq!((GetVideoWidth(&core), GetVideoHeight(&core)), (2, 1));
    frame(&mut core, 0, true, None);
    assert_eq!(GetVideoBgra(&core), Some(&vec![3, 2, 1, 4, 7, 6, 5, 8]));
}

#[test]
fn picture_has_all_its_pixels_at_all_times() {
    let mut core = loaded("{}");
    assert_eq!((GetVideoWidth(&core), GetVideoHeight(&core)), (100, 50));
    assert_eq!(GetVideoBgra(&core), Some(&vec![0; 20000]));
    SetRenderingEnabled(&mut core, 0);
    frame(&mut core, 0, true, None);
    assert_eq!(GetVideoBgra(&core), Some(&vec![0; 20000]));
    SetRenderingEnabled(&mut core, 1);
    frame(&mut core, 0, true, Some(Picture { width: 3, height: 2, rgba: vec![5; 24] }));
    assert_eq!((GetVideoWidth(&core), GetVideoHeight(&core)), (3, 2));
    assert_eq!(GetVideoBgra(&core), Some(&vec![5; 24]));
}

#[test]
fn picture_says_whether_it_is_whole() {
    assert!(Picture { width: 2, height: 1, rgba: vec![0; 8] }.is_whole());
    assert!(Picture { width: 0, height: 9, rgba: Vec::new() }.is_whole());
    assert!(!Picture { width: 2, height: 1, rgba: vec![0; 7] }.is_whole());
    assert!(!Picture { width: 2, height: 1, rgba: Vec::new() }.is_whole());
    assert!(holdable(1920, 1080));
    assert!(!holdable(u32::MAX, u32::MAX));
    assert_eq!(blank(2, 3), vec![0; 24]);
}

#[test]
fn swapping_channels_twice_is_nothing() {
    let pixels = vec![9, 8, 7, 6, 5, 4, 3, 2];
    let mut once = vec![1];
    to_bgra(&mut once, &pixels);
    let mut twice = Vec::new();
    to_bgra(&mut twice, &once);
    assert_eq!(twice, pixels);
    to_bgra(&mut once, &[1, 2, 3, 4, 5]);
    assert_eq!(once, vec![3, 2, 1, 4]);
}

#[test]
fn rendering_off_leaves_out_the_readback() {
    let mut core = loaded("{}");
    SetRenderingEnabled(&mut core, 0);
    assert_eq!(frame(&mut core, 0, true, None), PLAIN[..9]);
    SetRenderingEnabled(&mut core, 2);
    assert_eq!(frame(&mut core, 0, true, None), PLAIN);
}

#[test]
fn unseen_run_is_the_same_run() {
    let mut seen = loaded("{}");
    let mut unseen = loaded("{}");
    SetRenderingEnabled(&mut unseen, 0);
    for k in 0..4 {
        for core in [&mut seen, &mut unseen] {
            SetAxis(core, 0, 2000 * k);
            SetButton(core, k, 1);
        }
        let picture = Picture { width: 100, height: 50, rgba: vec![k as u8; 20000] };
        let mut drawn = frame(&mut seen, 7 + k as u64 / 2, true, Some(picture));
        assert_eq!(drawn.pop(), Some("capture".to_string()));
        assert_eq!(drawn, frame(&mut unseen, 7 + k as u64 / 2, true, None));
    }
    assert_eq!(GetVideoBgra(&seen).unwrap().len(), 20000);
    assert_eq!(GetVideoBgra(&unseen), Some(&vec![0; 20000]));
    let (m, n) = (seen.machine.unwrap(), unseen.machine.unwrap());
    assert_eq!((m.frames, m.movie_frames, m.mouse), (n.frames, n.movie_frames, n.mouse));
}

#[test]
fn stable_context_is_never_rebuilt() {
    let mut core = loaded("{}");
    for host in [0, 7, 7, 0, 7] {
        assert_eq!(frame(&mut core, host, true, None), PLAIN);
    }
    assert_eq!(core.machine.as_ref().unwrap().gl_context, 7);
}

#[test]
fn moved_context_is_rebuilt_before_the_drawing() {
    let mut core = loaded("{}");
    frame(&mut core, 7, true, None);
    SetMousePixels(&mut core, 3, 4);
    let all = frame(&mut core, 8, true, None);
    assert_eq!(
        all[8..],
        [
            "rebuild 100x50 Hardware",
            "swap",
            "viewport 100x50",
            "quality",
            "epoch",
            "MouseMove { x: 3, y: 4 }",
            "render",
            "capture",
        ]
    );
    assert_eq!(GetFrameCount(&core), 2);
    assert_eq!(frame(&mut core, 8, true, None), PLAIN);
}

#[test]
fn failed_rebuild_still_draws() {
    let mut core = loaded("{}");
    frame(&mut core, 7, true, None);
    let all = frame(&mut core, 8, false, None);
    assert_eq!(all[8..], ["rebuild 100x50 Hardware", "render", "capture"]);
    assert_eq!(core.machine.as_ref().unwrap().gl_context, 8);
}

#[test]
fn software_context_never_moves() {
    let mut core = loaded("{}");
    core.renderer.in_use = Some(Which::Software);
    for host in [7, 8, 9] {
        assert_eq!(frame(&mut core, host, true, None), PLAIN);
    }
    assert_eq!(core.machine.as_ref().unwrap().gl_context, 0);
}

#[test]
fn input_lands_between_the_movie_and_the_drawing() {
    let mut core = loaded("{}");
    SetButton(&mut core, 3, 5);
    let all = frame(&mut core, 0, true, None);
    assert_eq!(all[7], "context");
    assert!(all[8].starts_with("KeyDown"));
    assert_eq!(all[9], "TextInput { codepoint: 'a' }");
    assert_eq!(all[10], "render");
    assert_eq!(core.machine.as_ref().unwrap().buttons[3], 1);
    assert_eq!(frame(&mut core, 0, true, None), PLAIN);
}

#[test]
fn typing_is_the_hosts_choice() {
    let mut core = loaded("{}");
    SetTextInput(&mut core, 0);
    SetButton(&mut core, 3, 1);
    assert_eq!(frame(&mut core, 0, true, None).len(), PLAIN.len() + 1);
}

#[test]
fn buttons_off_the_wire_are_none() {
    let mut core = loaded("{}");
    for index in [-1, 5, i32::MAX, i32::MIN] {
        SetButton(&mut core, index, 1);
    }
    assert_eq!(core.machine.as_ref().unwrap().buttons, vec![0; 5]);
}

#[test]
fn axis_is_scaled_to_the_stage() {
    let mut core = loaded("{}");
    SetAxis(&mut core, 0, 8191);
    SetAxis(&mut core, 1, 4096);
    SetAxis(&mut core, 2, 100);
    let m = core.machine.as_ref().unwrap();
    assert_eq!(m.mouse, (99, 24));
    assert!(m.live_pointer);
}

#[test]
fn exact_pixels_are_a_recorded_pointer() {
    let mut core = loaded("{}");
    SetAxis(&mut core, 0, 1);
    SetMousePixels(&mut core, -5, 700);
    let m = core.machine.as_ref().unwrap();
    assert_eq!(m.mouse, (-5, 700));
    assert!(!m.live_pointer);
}

#[test]
fn click_of_each_kind_of_pointer() {
    let mut core = loaded("{}");
    SetMousePixels(&mut core, 3, 4);
    SetButton(&mut core, 0, 1);
    let all = frame(&mut core, 0, true, None);
    assert_eq!(all[8], "MouseDown { x: 3, y: 4, button: Left, index: Some(0) }");
    SetAxis(&mut core, 0, 8191);
    SetButton(&mut core, 0, 0);
    let all = frame(&mut core, 0, true, None);
    assert_eq!(all[8], "MouseMove { x: 99, y: 4 }");
    assert_eq!(all[9], "MouseUp { x: 99, y: 4, button: Left }");
}

#[test]
fn same_events_replay_the_same_run() {
    let run = |core: &mut Core| {
        let mut all = Vec::new();
        for k in 0..5 {
            SetAxis(core, 0, 1000 * k);
            SetButton(core, k, 1);
            avm_trace(core, "tick");
            all.push(frame(core, 7 + (k as u64) / 3, true, None));
        }
        all
    };
    let mut one = loaded("{\"fps\": 60}");
    let mut other = loaded("{\"fps\": 60}");
    assert_eq!(run(&mut one), run(&mut other));
    assert_eq!(GetTraceDigest(&one), GetTraceDigest(&other));
    let (m, n) = (one.machine.unwrap(), other.machine.unwrap());
    assert_eq!((m.frames, m.movie_frames, m.clock_millis), (n.frames, n.movie_frames, n.clock_millis));
    assert_eq!(m.prev_buttons, n.prev_buttons);
}

#[test]
fn trace_digest_is_of_the_trace() {
    let mut core = loaded("{}");
    assert_eq!(GetTraceDigest(&core), 14695981039346656037);
    avm_trace(&mut core, "a");
    let mut h: u64 = 14695981039346656037;
    for b in b"a\n" {
        h = (h ^ *b as u64).wrapping_mul(1099511628211);
    }
    assert_eq!(GetTraceDigest(&core), h);
}

#[test]
fn there_is_no_memory_to_search() {
    assert_eq!(GetMemoryDomainCount(), 0);
    assert!(GetMemoryDomainName(0).is_none());
    assert!(GetMemoryDomainPtr(0).is_none());
    assert_eq!(GetMemoryDomainSize(0), 0);
    assert_eq!(GetMemoryDomainWritable(0), 0);
}
