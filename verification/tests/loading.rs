use chimera_ruffle::config::{MovieInfo, PlayerConfig};
use chimera_ruffle::exports::{
    avm_trace, set_load_error, AllocSwf, Core, GetFrameCount, GetLoadError, GetTty, GetTtySize,
    GetVideoHeight, GetVideoWidth, GetVsyncDenominator, GetVsyncNumerator, Init, IsRunning,
    LoadEvent, LoadStep, SetGpuBridge, SetSpoofUrl,
};
use chimera_ruffle::input::{Btn, InputTable, MouseButton};
use chimera_ruffle::renderer::{
    build, context_id, have_bridge, in_use, next_poll, set_bridge, BuildStep, PollStep, Renderer,
    Which,
};

fn fresh() -> Core {
    let buttons = vec![
        Btn::Mouse(MouseButton::Left),
        Btn::Mouse(MouseButton::Right),
        Btn::Mouse(MouseButton::Middle),
    ];
    Core::new(InputTable { buttons, shift_left: 0, shift_right: 0 })
}

fn info() -> MovieInfo {
    MovieInfo { rate: 6138, width_twips: 11000, height_twips: 0 }
}

/// What a zero-ended buffer says.
fn said(buffer: &[u8]) -> String {
    let n = buffer.iter().position(|&b| b == 0).unwrap();
    String::from_utf8(buffer[..n].to_vec()).unwrap()
}

/// Loads a handed movie as far as its player.
fn load_to_player(core: &mut Core, settings: Option<Vec<u8>>) -> PlayerConfig {
    AllocSwf(core, 4);
    assert!(matches!(Init(core, LoadEvent::Begin), LoadStep::ParseHanded));
    assert!(matches!(Init(core, LoadEvent::Parsed(Ok(info()))), LoadStep::ReadSettings));
    assert!(matches!(
        Init(core, LoadEvent::Settings(settings)),
        LoadStep::BuildRenderer { width: 550, height: 0, .. }
    ));
    match Init(core, LoadEvent::Renderer(Ok(()))) {
        LoadStep::BuildPlayer(config) => config,
        _ => panic!("no player was asked for"),
    }
}

#[test]
fn nothing_runs_at_first() {
    let mut core = fresh();
    assert_eq!(IsRunning(&core), 0);
    assert_eq!(GetFrameCount(&core), 0);
    assert_eq!(GetTtySize(&core), 0);
    assert!(GetTty(&mut core).is_none());
    assert_eq!(GetVideoWidth(&core), 0);
    assert_eq!(GetVideoHeight(&core), 0);
    assert_eq!((GetVsyncNumerator(&core), GetVsyncDenominator(&core)), (60, 1));
    assert_eq!(said(GetLoadError(&core)), "");
}

#[test]
fn handed_movie_runs() {
    let mut core = fresh();
    let config = load_to_player(&mut core, None);
    assert_eq!(config.renderer, Which::Hardware);
    assert_eq!(IsRunning(&core), 0);
    assert!(matches!(Init(&mut core, LoadEvent::Player), LoadStep::Finished(1)));
    assert_eq!(IsRunning(&core), 1);
    assert_eq!(GetFrameCount(&core), 0);
    assert_eq!((GetVideoWidth(&core), GetVideoHeight(&core)), (550, 1));
    assert_eq!((GetVsyncNumerator(&core), GetVsyncDenominator(&core)), (23977, 1000));
}

#[test]
fn mounted_movie_is_read_when_none_was_handed() {
    let mut core = fresh();
    assert!(matches!(Init(&mut core, LoadEvent::Begin), LoadStep::ReadMovie));
    match Init(&mut core, LoadEvent::Movie(Some(vec![70, 87, 83]))) {
        LoadStep::ParseMounted(bytes) => assert_eq!(bytes, vec![70, 87, 83]),
        _ => panic!("the movie was not parsed"),
    }
    assert!(matches!(Init(&mut core, LoadEvent::Parsed(Ok(info()))), LoadStep::ReadSettings));
}

#[test]
fn mounted_movie_runs_with_what_it_said_meanwhile() {
    let mut core = fresh();
    assert!(matches!(Init(&mut core, LoadEvent::Begin), LoadStep::ReadMovie));
    let step = Init(&mut core, LoadEvent::Movie(Some(vec![1, 2])));
    assert!(matches!(step, LoadStep::ParseMounted(b) if b == vec![1, 2]));
    Init(&mut core, LoadEvent::Parsed(Ok(info())));
    Init(&mut core, LoadEvent::Settings(None));
    Init(&mut core, LoadEvent::Renderer(Ok(())));
    for line in ["one", "", "three"] {
        avm_trace(&mut core, line);
    }
    assert_eq!(IsRunning(&core), 0);
    assert!(matches!(Init(&mut core, LoadEvent::Player), LoadStep::Finished(1)));
    assert_eq!(IsRunning(&core), 1);
    assert_eq!(GetTty(&mut core), Some(&b"one\n\nthree\n".to_vec()));
    assert_eq!(GetFrameCount(&core), 0);
    assert_eq!((GetVideoWidth(&core), GetVideoHeight(&core)), (550, 1));
    assert!(core.swf.is_empty());
}

#[test]
fn no_movie_is_refused() {
    for mounted in [None, Some(Vec::new())] {
        let mut core = fresh();
        Init(&mut core, LoadEvent::Begin);
        assert!(matches!(Init(&mut core, LoadEvent::Movie(mounted)), LoadStep::Finished(0)));
        assert_eq!(
            said(GetLoadError(&core)),
            "no SWF: nothing was handed over and no movie is mounted as 'game'"
        );
        assert_eq!(IsRunning(&core), 0);
    }
}

#[test]
fn what_is_no_movie_is_refused() {
    let mut core = fresh();
    AllocSwf(&mut core, 1);
    Init(&mut core, LoadEvent::Begin);
    let step = Init(&mut core, LoadEvent::Parsed(Err("Invalid SWF".to_string())));
    assert!(matches!(step, LoadStep::Finished(0)));
    assert_eq!(said(GetLoadError(&core)), "not a SWF: Invalid SWF");
}

#[test]
fn no_renderer_is_refused() {
    let mut core = fresh();
    AllocSwf(&mut core, 1);
    Init(&mut core, LoadEvent::Begin);
    Init(&mut core, LoadEvent::Parsed(Ok(info())));
    Init(&mut core, LoadEvent::Settings(None));
    let step = Init(&mut core, LoadEvent::Renderer(Err("no GPU bridge".to_string())));
    assert!(matches!(step, LoadStep::Finished(0)));
    assert_eq!(said(GetLoadError(&core)), "no renderer: no GPU bridge");
    assert_eq!(IsRunning(&core), 0);
}

#[test]
fn refusal_leaves_what_runs() {
    let mut core = fresh();
    load_to_player(&mut core, None);
    Init(&mut core, LoadEvent::Player);
    Init(&mut core, LoadEvent::Begin);
    Init(&mut core, LoadEvent::Parsed(Err("broken".to_string())));
    assert_eq!(IsRunning(&core), 1);
    assert_eq!(GetVideoWidth(&core), 550);
    assert_eq!(said(GetLoadError(&core)), "not a SWF: broken");
}

#[test]
fn settings_reach_the_player() {
    let mut core = fresh();
    let raw = b"{\"fps\": 60, \"renderer\": \"SOFTWARE\", \"spoofUrl\": \"http://s/\"}".to_vec();
    let config = load_to_player(&mut core, Some(raw));
    assert_eq!(config.renderer, Which::Software);
    assert_eq!(config.forced_rate, Some(60));
    assert_eq!(config.spoofed_url, Some("http://s/".to_string()));
    Init(&mut core, LoadEvent::Player);
    assert_eq!((GetVsyncNumerator(&core), GetVsyncDenominator(&core)), (60, 1));
}

#[test]
fn spoofed_url_wins_when_it_was_set() {
    let mut core = fresh();
    SetSpoofUrl(&mut core, b"http://longer-than-the-next/");
    SetSpoofUrl(&mut core, b"http://direct/");
    let config = load_to_player(&mut core, Some(b"{\"spoofUrl\": \"http://s/\"}".to_vec()));
    assert_eq!(config.spoofed_url, Some("http://direct/".to_string()));
}

#[test]
fn spoofed_url_that_is_no_text_is_unset() {
    let mut core = fresh();
    SetSpoofUrl(&mut core, &[0x68, 0xff]);
    let config = load_to_player(&mut core, Some(b"{\"spoofUrl\": \"http://s/\"}".to_vec()));
    assert_eq!(config.spoofed_url, Some("http://s/".to_string()));
}

#[test]
fn spoofed_url_is_cut_to_its_buffer() {
    let mut core = fresh();
    SetSpoofUrl(&mut core, &[b'u'; 600]);
    let config = load_to_player(&mut core, None);
    assert_eq!(config.spoofed_url, Some("u".repeat(511)));
}

#[test]
fn load_error_is_cut_to_its_buffer() {
    let mut core = fresh();
    set_load_error(&mut core, &"e".repeat(300));
    assert_eq!(GetLoadError(&core).len(), 256);
    assert_eq!(said(GetLoadError(&core)), "e".repeat(255));
    set_load_error(&mut core, "short");
    assert_eq!(said(GetLoadError(&core)), "short");
    assert_eq!(GetLoadError(&core)[6], b'e');
}

#[test]
fn room_for_a_movie_is_zeroed() {
    let mut core = fresh();
    AllocSwf(&mut core, 3);
    core.swf[0] = 9;
    AllocSwf(&mut core, 5);
    assert_eq!(core.swf, vec![0; 5]);
}

#[test]
fn trace_while_loading_is_the_new_machines() {
    let mut core = fresh();
    load_to_player(&mut core, None);
    avm_trace(&mut core, "first");
    assert_eq!(GetTtySize(&core), 0);
    Init(&mut core, LoadEvent::Player);
    avm_trace(&mut core, "then");
    assert_eq!(GetTtySize(&core), 11);
    assert_eq!(GetTty(&mut core), Some(&b"first\nthen\n".to_vec()));
}

#[test]
fn new_machine_starts_with_an_empty_trace() {
    let mut core = fresh();
    load_to_player(&mut core, None);
    Init(&mut core, LoadEvent::Player);
    avm_trace(&mut core, "old");
    load_to_player(&mut core, None);
    Init(&mut core, LoadEvent::Player);
    assert_eq!(GetTtySize(&core), 0);
}

#[test]
fn bridge_is_kept_when_it_is_accepted() {
    let mut core = fresh();
    SetGpuBridge(&mut core, 77, false);
    assert!(!have_bridge(&core.renderer));
    SetGpuBridge(&mut core, 77, true);
    assert!(have_bridge(&core.renderer));
    SetGpuBridge(&mut core, 88, false);
    assert_eq!(core.renderer.bridge, 77);
}

#[test]
fn hardware_needs_a_bridge() {
    let mut r = Renderer::new();
    match build(&mut r, 10, 10, Which::Hardware, None) {
        BuildStep::Refused(why) => assert_eq!(
            why,
            "no GPU bridge: this Chimera did not offer a GL context. \
             Set the renderer setting to 'software' to draw inside the sandbox instead"
        ),
        _ => panic!("not refused"),
    }
    assert_eq!(in_use(&r), None);
    set_bridge(&mut r, 1, true);
    assert!(matches!(
        build(&mut r, 0, 10, Which::Hardware, None),
        BuildStep::Create { width: 1, height: 10, which: Which::Hardware }
    ));
    assert_eq!(in_use(&r), Some(Which::Hardware));
}

#[test]
fn software_starts_before_it_is_built_on() {
    let mut r = Renderer::new();
    assert!(matches!(build(&mut r, 4, 0, Which::Software, None), BuildStep::StartSoftware));
    assert_eq!(in_use(&r), None);
    match build(&mut r, 4, 0, Which::Software, Some(false)) {
        BuildStep::Refused(why) => assert_eq!(why, "the guest's own OpenGL would not start"),
        _ => panic!("not refused"),
    }
    assert_eq!(in_use(&r), None);
    assert!(matches!(
        build(&mut r, 4, 0, Which::Software, Some(true)),
        BuildStep::Create { width: 4, height: 1, which: Which::Software }
    ));
    assert_eq!(in_use(&r), Some(Which::Software));
}

#[test]
fn software_has_no_host_context() {
    let mut r = Renderer::new();
    assert_eq!(context_id(&r, 5), 5);
    r.in_use = Some(Which::Hardware);
    assert_eq!(context_id(&r, 5), 5);
    r.in_use = Some(Which::Software);
    assert_eq!(context_id(&r, 5), 0);
}

#[test]
fn device_is_polled_until_it_is_given_up() {
    assert_eq!(next_poll(0, false), PollStep::Poll);
    assert_eq!(next_poll(999_999, false), PollStep::Poll);
    assert_eq!(next_poll(1_000_000, false), PollStep::GiveUp);
    assert_eq!(next_poll(0, true), PollStep::Done);
    assert_eq!(next_poll(1_000_000, true), PollStep::Done);
}
