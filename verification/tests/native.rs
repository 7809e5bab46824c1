use chimera_ruffle::digest::{digest, digest_more};
use chimera_ruffle::log::{enabled, Level, MsgVisitor};
use chimera_ruffle::log;
use chimera_ruffle::native::{
    frame_plan, parse_args, viewport_side, ArgError, CaptureLog, NativeAction, Options, Recording,
    SOUND_DIGEST_START,
};
use chimera_ruffle::sha1::sha1_hex;
use chimera_ruffle::text::{push_decimal, push_hex};

fn parse(line: &str) -> Result<Options, ArgError> {
    let args: Vec<String> = line.split(' ').map(|s| s.to_string()).collect();
    parse_args(&args)
}

fn parsed(line: &str) -> Options {
    match parse(line) {
        Ok(o) => o,
        Err(_) => panic!("not parsed: {}", line),
    }
}

#[test]
fn sha1_of_known_texts() {
    assert_eq!(sha1_hex(b""), "da39a3ee5e6b4b0d3255bfef95601890afd80709");
    assert_eq!(sha1_hex(b"abc"), "a9993e364706816aba3e25717850c26c9cd0d89d");
    assert_eq!(
        sha1_hex(b"abcdbcdecdefdefgefghfghighijhijkijkljklmklmnlmnomnopnopq"),
        "84983e441c3bd26ebaae4aa1f95129e5e54670f1"
    );
    assert_eq!(sha1_hex(&[b'a'; 1_000_000]), "34aa973cd4c4daa4f61eeb2bdbad27316534016f");
}

#[test]
fn sha1_of_every_padding() {
    let lengths = [55, 56, 63, 64, 65];
    let digests: Vec<String> = lengths.iter().map(|&n| sha1_hex(&vec![b'x'; n])).collect();
    for (i, d) in digests.iter().enumerate() {
        assert_eq!(d.len(), 40);
        for other in &digests[..i] {
            assert_ne!(d, other);
        }
    }
}

#[test]
fn digest_of_known_bytes() {
    assert_eq!(digest(b""), 0xcbf29ce484222325);
    assert_eq!(digest(b"a"), 0xaf63dc4c8601ec8c);
    assert_eq!(digest(b"foobar"), 0x85944171f73967e8);
}

#[test]
fn digest_goes_on_where_it_left_off() {
    assert_eq!(digest_more(digest(b"one "), b"two"), digest(b"one two"));
}

#[test]
fn capture_log_keeps_lines_until_taken() {
    let mut log = CaptureLog::new();
    log.avm_trace("one");
    log.avm_trace("");
    log.avm_trace("zw\u{f6}lf");
    assert_eq!(log.take(), "one\n\nzw\u{f6}lf\n");
    assert_eq!(log.take(), "");
    log.avm_trace("again");
    assert_eq!(log.take(), "again\n");
}

#[test]
fn both_logs_keep_the_same_bytes() {
    let mut native = CaptureLog::new();
    let mut guest = log::CaptureLog::new();
    for message in ["a", "\u{1f600} b", "", "c\nd"] {
        native.avm_trace(message);
        guest.avm_trace(message);
    }
    assert_eq!(native.take().into_bytes(), guest.out);
}

#[test]
fn warnings_and_worse_are_kept() {
    assert!(enabled(Level::Error));
    assert!(enabled(Level::Warn));
    assert!(!enabled(Level::Info));
    assert!(!enabled(Level::Debug));
    assert!(!enabled(Level::Trace));
}

#[test]
fn diagnostic_is_its_message_and_its_fields() {
    let mut v = MsgVisitor::new();
    v.record_debug("message", "could not open");
    v.record_debug("name", "\"a\"");
    v.record_debug("code", "3");
    assert_eq!(v.text, "could not open name=\"a\" code=3");
    let mut v = MsgVisitor::new();
    v.record_debug("code", "3");
    assert_eq!(v.text, "code=3");
    v.record_debug("message", "all");
    assert_eq!(v.text, "all");
}

#[test]
fn plain_command_line_is_one_frame() {
    let o = parsed("run a.swf");
    assert_eq!(o.swf_path, "a.swf");
    assert_eq!((o.frames, o.width, o.height, o.hover, o.hold), (1, 0, 0, 0, 2));
    assert!(o.fps.is_none() && o.spoof_url.is_none());
    assert!(o.audio_out.is_none() && o.audio_peaks.is_none());
    assert!(o.clicks.is_empty());
    assert!(!o.virtual_time);
}

#[test]
fn every_option_is_read() {
    let o = parsed(
        "run a.swf --frames 12 --fps 23.976 --spoof-url http://x/ --width 640 --height 480 \
         --audio-out a.raw --audio-peaks p.txt --hover 1 --hold 3 --virtual-time",
    );
    assert_eq!((o.frames, o.width, o.height, o.hover, o.hold), (12, 640, 480, 1, 3));
    assert_eq!(o.fps, Some("23.976".to_string()));
    assert_eq!(o.spoof_url, Some("http://x/".to_string()));
    assert_eq!(o.audio_out, Some("a.raw".to_string()));
    assert_eq!(o.audio_peaks, Some("p.txt".to_string()));
    assert!(o.virtual_time);
}

#[test]
fn later_options_win_and_clicks_add_up() {
    let o = parsed("run a.swf --frames 1 --frames +20 --click 1:2:3,junk,4:5.5:6 --click 7:8:9");
    assert_eq!(o.frames, 20);
    let clicks: Vec<(u32, &str, &str)> =
        o.clicks.iter().map(|c| (c.frame, c.x.as_str(), c.y.as_str())).collect();
    assert_eq!(clicks, vec![(1, "2", "3"), (4, "5.5", "6"), (7, "8", "9")]);
}

#[test]
fn missing_movie_is_a_usage_error() {
    assert!(matches!(parse("run"), Err(ArgError::Usage)));
    assert!(matches!(parse_args(&Vec::new()), Err(ArgError::Usage)));
}

#[test]
fn unknown_option_is_named() {
    assert!(matches!(parse("run a.swf --bogus 1"), Err(ArgError::Unknown(s)) if s == "--bogus"));
    assert!(matches!(parse("run a.swf 7"), Err(ArgError::Unknown(s)) if s == "7"));
}

#[test]
fn option_without_its_value_is_named() {
    assert!(matches!(parse("run a.swf --frames"), Err(ArgError::Missing(s)) if s == "--frames"));
    assert!(matches!(
        parse("run a.swf --virtual-time --click"),
        Err(ArgError::Missing(s)) if s == "--click"
    ));
}

#[test]
fn bad_numbers_are_named() {
    for (line, bad) in [
        ("run a.swf --frames x", "x"),
        ("run a.swf --frames -1", "-1"),
        ("run a.swf --width 4294967296", "4294967296"),
        ("run a.swf --hold +", "+"),
        ("run a.swf --click 1:2:3,z:1:1,y:1:1", "z"),
    ] {
        assert!(matches!(parse(line), Err(ArgError::BadNumber(s)) if s == bad), "{}", line);
    }
    assert_eq!(parsed("run a.swf --width 4294967295").width, u32::MAX);
}

#[test]
fn viewport_is_the_stage_unless_asked() {
    assert_eq!(viewport_side(0, 11000), 550);
    assert_eq!(viewport_side(0, 5), 1);
    assert_eq!(viewport_side(7, 11000), 7);
}

#[test]
fn reference_frame_has_the_guests_order() {
    let o = parsed("run a.swf");
    assert_eq!(
        frame_plan(&o, 0),
        vec![
            NativeAction::RunFrame,
            NativeAction::UpdateTimers,
            NativeAction::MixAudio,
            NativeAction::Render,
        ]
    );
    let o = parsed("run a.swf --virtual-time");
    assert_eq!(frame_plan(&o, 9)[0], NativeAction::AdvanceTime);
    assert_eq!(frame_plan(&o, 9).len(), 5);
}

#[test]
fn click_arrives_presses_and_releases() {
    let o = parsed("run a.swf --click 2:1:1 --hover 1 --hold 2");
    let inputs = |frame: u32| {
        let plan = frame_plan(&o, frame);
        plan[3..plan.len() - 1].to_vec()
    };
    assert_eq!(inputs(0), vec![]);
    assert_eq!(inputs(2), vec![NativeAction::PointerMove(0)]);
    assert_eq!(inputs(3), vec![NativeAction::PointerDown(0)]);
    assert_eq!(inputs(4), vec![]);
    assert_eq!(inputs(5), vec![NativeAction::PointerUp(0)]);
    assert_eq!(inputs(6), vec![]);
}

#[test]
fn clicks_of_one_frame_keep_their_order() {
    let o = parsed("run a.swf --click 3:1:1,1:2:2 --hold 2");
    let plan = frame_plan(&o, 3);
    assert_eq!(
        plan[3..],
        [
            NativeAction::PointerMove(0),
            NativeAction::PointerDown(0),
            NativeAction::PointerUp(1),
            NativeAction::Render,
        ]
    );
    let at_once = parsed("run a.swf --click 1:2:2 --hold 0");
    assert_eq!(
        frame_plan(&at_once, 1)[3..6],
        [NativeAction::PointerMove(0), NativeAction::PointerDown(0), NativeAction::PointerUp(0)]
    );
}

#[test]
fn recording_takes_down_sound_peaks_and_place() {
    let mut r = Recording::new();
    r.frame(&[1, -2, 256, i16::MIN], Some(3));
    r.frame(&[], None);
    r.frame(&[5, -4], Some(4));
    assert_eq!(r.audio, vec![1, 0, 0xfe, 0xff, 0, 1, 0, 0x80, 5, 0, 0xfc, 0xff]);
    assert_eq!(r.peaks, vec![32768, 0, 5]);
    assert_eq!(r.last_frame, 4);
    r.frame(&[], None);
    assert_eq!(r.last_frame, 4);
}

#[test]
fn sound_bytes_are_the_sound() {
    for s in [0, 1, -1, 255, 256, -256, i16::MAX, i16::MIN] {
        let mut r = Recording::new();
        r.frame(&[s], None);
        assert_eq!(r.audio, s.to_le_bytes());
    }
}

#[test]
fn summary_is_one_line() {
    let mut r = Recording::new();
    r.frame(&[0], Some(7));
    assert_eq!(
        r.summary(10, "abc"),
        format!(
            "ruffle: frames=10 traceBytes=3 \
             traceSha1=a9993e364706816aba3e25717850c26c9cd0d89d \
             lastFrame=7 audioBytes=2 audioDigest={:016x}",
            digest_more(SOUND_DIGEST_START, &[0, 0])
        )
    );
    assert_eq!(
        Recording::new().summary(0, "\u{f6}"),
        format!(
            "ruffle: frames=0 traceBytes=2 traceSha1={} lastFrame=0 audioBytes=0 \
             audioDigest=14650fb0739d0383",
            sha1_hex("\u{f6}".as_bytes())
        )
    );
}

#[test]
fn numbers_are_written_out() {
    let mut s = String::new();
    push_decimal(&mut s, 0);
    s.push(' ');
    push_decimal(&mut s, u64::MAX);
    s.push(' ');
    push_hex(&mut s, 0xab, 4);
    s.push(' ');
    push_hex(&mut s, u64::MAX, 16);
    s.push(' ');
    push_hex(&mut s, 0x123, 2);
    assert_eq!(s, "0 18446744073709551615 00ab ffffffffffffffff 23");
}
