//! What a run is set up as: the movie's own measures and the host's settings,
//! put together once, before the player is built.
use vstd::prelude::*;
use crate::pacing::{
    a_movie_keeps_its_stored_rate, a_movies_rate_survives_as_a_ratio, a_pixel_is_twenty_twips,
    an_asked_rate_is_told_whole, pace_of, stage_pixels, stage_pixels_of, Pace,
};
use crate::renderer::Which;
use crate::settings::{
    bool_setting, choice_setting, int_setting, named_choice, text_setting, SettingView, Settings,
};
use crate::text::{ascii_lower, same_but_for_case};

verus! {

/// What the movie file says of itself.
#[derive(Clone, Copy)]
pub struct MovieInfo {
    /// Its frame rate, in 256ths of a frame a second.
    pub rate: i16,
    /// Its stage, in twips.
    pub width_twips: i32,
    pub height_twips: i32,
}

/// Which player the movie believes it runs in.
#[derive(Clone, Copy, PartialEq, Eq, Structural, Debug)]
pub enum PlayerRuntime {
    FlashPlayer,
    Air,
}

/// How well the stage is drawn.
#[derive(Clone, Copy, PartialEq, Eq, Structural, Debug)]
pub enum StageQuality {
    Low,
    Medium,
    High,
    Best,
    High8x8,
    High8x8Linear,
    High16x16,
    High16x16Linear,
}

/// How the movie's bytes reach it.
#[derive(Clone, Copy, PartialEq, Eq, Structural, Debug)]
pub enum LoadBehavior {
    Streaming,
    Delayed,
    Blocking,
}

/// Everything the player is built from.
pub struct PlayerConfig {
    pub pace: Pace,
    /// The rate sound is mixed for, where it is not the movie's own.
    pub forced_rate: Option<u64>,
    /// The stage in pixels, and so the viewport: a pointer coordinate is a
    /// stage pixel.
    pub stage_width: u32,
    pub stage_height: u32,
    /// The rate the host is told, as a ratio.
    pub vsync_num: i32,
    pub vsync_den: i32,
    /// Where the movie believes it was loaded from.
    pub spoofed_url: Option<String>,
    /// The page the movie believes it is embedded in.
    pub page_url: Option<String>,
    /// The player version the movie is told, where it is not its own choice.
    pub player_version: Option<u8>,
    pub player_runtime: PlayerRuntime,
    pub quality: StageQuality,
    pub load_behavior: LoadBehavior,
    /// Per-site fixups are on.
    pub compatibility_rules: bool,
    /// Text may fall back to a built-in font.
    pub default_font: bool,
    pub renderer: Which,
}

/// A text that may be absent, for contracts.
pub open spec fn maybe_text(t: Option<String>) -> Option<Seq<char>> {
    match t {
        Some(s) => Some(s@),
        None => None,
    }
}

/// The names of the runtimes.
pub open spec fn runtime_names() -> Seq<(&'static str, PlayerRuntime)> {
    seq![("flashPlayer", PlayerRuntime::FlashPlayer), ("air", PlayerRuntime::Air)]
}

/// The names of the qualities.
pub open spec fn quality_names() -> Seq<(&'static str, StageQuality)> {
    seq![
        ("low", StageQuality::Low),
        ("medium", StageQuality::Medium),
        ("high", StageQuality::High),
        ("best", StageQuality::Best),
        ("high8x8", StageQuality::High8x8),
        ("high8x8linear", StageQuality::High8x8Linear),
        ("high16x16", StageQuality::High16x16),
        ("high16x16linear", StageQuality::High16x16Linear),
    ]
}

/// The names of the ways to load.
pub open spec fn load_names() -> Seq<(&'static str, LoadBehavior)> {
    seq![
        ("streaming", LoadBehavior::Streaming),
        ("delayed", LoadBehavior::Delayed),
        ("blocking", LoadBehavior::Blocking),
    ]
}

/// The names of the renderers.
pub open spec fn renderer_names() -> Seq<(&'static str, Which)> {
    seq![("software", Which::Software), ("opengl-hw", Which::Hardware)]
}

/// The player version a setting asks for: one there ever was, or none.
pub open spec fn version_asked(ver: i64) -> Option<u8> {
    if 6 <= ver <= 32 {
        Some(ver as u8)
    } else {
        None
    }
}

/// `c` is what the movie `movie` and the settings `s` come to. A URL that was
/// handed over directly, `direct`, wins over the setting.
pub open spec fn configures(
    c: PlayerConfig,
    movie: MovieInfo,
    s: Map<Seq<char>, SettingView>,
    direct: Option<Seq<char>>,
) -> bool {
    let fps = int_setting(s, "fps"@, 0);
    &&& c.pace == pace_of(movie.rate, fps)
    &&& c.forced_rate == if fps > 0 {
        Some(fps as u64)
    } else {
        None
    }
    &&& c.stage_width == stage_pixels_of(movie.width_twips)
    &&& c.stage_height == stage_pixels_of(movie.height_twips)
    &&& (c.vsync_num as int, c.vsync_den as int) == c.pace.vsync_ratio()
    &&& maybe_text(c.spoofed_url) == if direct is Some {
        direct
    } else {
        text_setting(s, "spoofUrl"@)
    }
    &&& maybe_text(c.page_url) == text_setting(s, "pageUrl"@)
    &&& c.player_version == version_asked(int_setting(s, "playerVersion"@, 0))
    &&& c.player_runtime == choice_setting(
        s,
        "playerRuntime"@,
        runtime_names(),
        PlayerRuntime::FlashPlayer,
    )
    &&& c.quality == choice_setting(s, "quality"@, quality_names(), StageQuality::High)
    &&& c.load_behavior == choice_setting(
        s,
        "loadBehavior"@,
        load_names(),
        LoadBehavior::Streaming,
    )
    &&& c.compatibility_rules == bool_setting(s, "compatibilityRules"@, false)
    &&& c.default_font == bool_setting(s, "defaultFont"@, true)
    &&& c.renderer == choice_setting(s, "renderer"@, renderer_names(), Which::Hardware)
}

/// Puts the movie and the settings together.
pub fn configure(movie: MovieInfo, settings: &Settings, direct: Option<String>) -> (c: PlayerConfig)
    requires
        settings.well_formed(),
    ensures
        configures(c, movie, settings@, maybe_text(direct)),
        c.pace.well_formed(),
{
    let fps: i64 = settings.integer("fps", 0);
    let pace: Pace = Pace::new(movie.rate, fps);
    let (vsync_num, vsync_den): (i32, i32) = pace.vsync();
    let spoofed_url: Option<String> = match direct {
        Some(u) => Some(u),
        None => settings.text("spoofUrl"),
    };
    let ver: i64 = settings.integer("playerVersion", 0);
    let runtimes = [("flashPlayer", PlayerRuntime::FlashPlayer), ("air", PlayerRuntime::Air)];
    let qualities = [
        ("low", StageQuality::Low),
        ("medium", StageQuality::Medium),
        ("high", StageQuality::High),
        ("best", StageQuality::Best),
        ("high8x8", StageQuality::High8x8),
        ("high8x8linear", StageQuality::High8x8Linear),
        ("high16x16", StageQuality::High16x16),
        ("high16x16linear", StageQuality::High16x16Linear),
    ];
    let loads = [
        ("streaming", LoadBehavior::Streaming),
        ("delayed", LoadBehavior::Delayed),
        ("blocking", LoadBehavior::Blocking),
    ];
    let renderers = [("software", Which::Software), ("opengl-hw", Which::Hardware)];
    assert(runtimes@ =~= runtime_names());
    assert(qualities@ =~= quality_names());
    assert(loads@ =~= load_names());
    assert(renderers@ =~= renderer_names());
    PlayerConfig {
        pace,
        forced_rate: if fps > 0 { Some(fps as u64) } else { None },
        stage_width: stage_pixels(movie.width_twips),
        stage_height: stage_pixels(movie.height_twips),
        vsync_num,
        vsync_den,
        spoofed_url,
        page_url: settings.text("pageUrl"),
        player_version: if 6 <= ver && ver <= 32 { Some(ver as u8) } else { None },
        player_runtime: settings.choice(
            "playerRuntime",
            runtimes.as_slice(),
            PlayerRuntime::FlashPlayer,
        ),
        quality: settings.choice("quality", qualities.as_slice(), StageQuality::High),
        load_behavior: settings.choice("loadBehavior", loads.as_slice(), LoadBehavior::Streaming),
        compatibility_rules: settings.flag("compatibilityRules", false),
        default_font: settings.flag("defaultFont", true),
        renderer: settings.choice("renderer", renderers.as_slice(), Which::Hardware),
    }
}

/// With no settings at all a run is the movie's own: its own rate, one movie
/// frame in each host frame, no sound rate forced on it, no address spoofed.
pub proof fn unset_is_the_movies_own(c: PlayerConfig, movie: MovieInfo)
    requires
        configures(c, movie, Map::empty(), None),
    ensures
        forall|n: nat| #[trigger] c.pace.due(n) == n,
        c.forced_rate is None,
        c.spoofed_url is None,
        c.page_url is None,
        c.player_version is None,
        c.player_runtime == PlayerRuntime::FlashPlayer,
        c.quality == StageQuality::High,
        c.load_behavior == LoadBehavior::Streaming,
        !c.compatibility_rules,
        c.default_font,
        c.renderer == Which::Hardware,
{
    assert forall|n: nat| #[trigger] c.pace.due(n) == n by {
        crate::pacing::own_rate_runs_one_each(movie.rate, 0, n);
    }
}

proof fn not_both(a: Seq<char>, b: Seq<char>, word: Seq<char>, i: int)
    requires
        0 <= i < a.len(),
        i < b.len(),
        ascii_lower(a[i]) != ascii_lower(b[i]),
    ensures
        !(same_but_for_case(a, word) && same_but_for_case(b, word)),
{
    if same_but_for_case(a, word) && same_but_for_case(b, word) {
        assert(ascii_lower(a[i]) == ascii_lower(word[i]));
        assert(ascii_lower(b[i]) == ascii_lower(word[i]));
    }
}

/// Each quality is what its own name asks for, in letters of either case. A name
/// that is none, or no name, asks for high.
pub proof fn a_quality_is_asked_for_by_name(
    c: PlayerConfig,
    movie: MovieInfo,
    s: Map<Seq<char>, SettingView>,
    direct: Option<Seq<char>>,
    word: Seq<char>,
)
    requires
        configures(c, movie, s, direct),
    ensures
        text_setting(s, "quality"@) is None ==> c.quality == StageQuality::High,
        text_setting(s, "quality"@) == Some(word) ==> {
            &&& same_but_for_case(word, "low"@) ==> c.quality == StageQuality::Low
            &&& same_but_for_case(word, "medium"@) ==> c.quality == StageQuality::Medium
            &&& same_but_for_case(word, "high"@) ==> c.quality == StageQuality::High
            &&& same_but_for_case(word, "best"@) ==> c.quality == StageQuality::Best
            &&& same_but_for_case(word, "high8x8"@) ==> c.quality == StageQuality::High8x8
            &&& same_but_for_case(word, "high8x8linear"@) ==> c.quality
                == StageQuality::High8x8Linear
            &&& same_but_for_case(word, "high16x16"@) ==> c.quality == StageQuality::High16x16
            &&& same_but_for_case(word, "high16x16linear"@) ==> c.quality
                == StageQuality::High16x16Linear
            &&& !same_but_for_case(word, "low"@) && !same_but_for_case(word, "medium"@)
                && !same_but_for_case(word, "best"@) && !same_but_for_case(word, "high8x8"@)
                && !same_but_for_case(word, "high8x8linear"@) && !same_but_for_case(
                word,
                "high16x16"@,
            ) && !same_but_for_case(word, "high16x16linear"@) ==> c.quality == StageQuality::High
        },
{
    reveal_strlit("low");
    reveal_strlit("medium");
    reveal_strlit("high");
    reveal_strlit("best");
    reveal_strlit("high8x8");
    reveal_strlit("high8x8linear");
    reveal_strlit("high16x16");
    reveal_strlit("high16x16linear");
    not_both("high"@, "best"@, word, 0);
    case_goes_both_ways(word);
    reveal_with_fuel(named_choice, 9);
}

/// Sameness but for case goes both ways.
proof fn case_goes_both_ways(word: Seq<char>)
    ensures
        forall|name: Seq<char>| #[trigger]
            same_but_for_case(name, word) <==> same_but_for_case(word, name),
{
    assert forall|name: Seq<char>| #[trigger]
        same_but_for_case(name, word) implies same_but_for_case(word, name) by {
        assert forall|i: int| 0 <= i < word.len() implies ascii_lower(#[trigger] word[i])
            == ascii_lower(name[i]) by {
            assert(ascii_lower(name[i]) == ascii_lower(word[i]));
        }
    }
    assert forall|name: Seq<char>|
        same_but_for_case(word, name) implies #[trigger] same_but_for_case(name, word) by {
        assert forall|i: int| 0 <= i < name.len() implies ascii_lower(#[trigger] name[i])
            == ascii_lower(word[i]) by {
            assert(ascii_lower(word[i]) == ascii_lower(name[i]));
        }
    }
}

/// Each runtime is what its own name asks for. Anything else asks for the Flash
/// player.
pub proof fn a_runtime_is_asked_for_by_name(
    c: PlayerConfig,
    movie: MovieInfo,
    s: Map<Seq<char>, SettingView>,
    direct: Option<Seq<char>>,
    word: Seq<char>,
)
    requires
        configures(c, movie, s, direct),
    ensures
        text_setting(s, "playerRuntime"@) is None ==> c.player_runtime
            == PlayerRuntime::FlashPlayer,
        text_setting(s, "playerRuntime"@) == Some(word) ==> {
            &&& same_but_for_case(word, "air"@) ==> c.player_runtime == PlayerRuntime::Air
            &&& same_but_for_case(word, "flashPlayer"@) ==> c.player_runtime
                == PlayerRuntime::FlashPlayer
            &&& !same_but_for_case(word, "air"@) ==> c.player_runtime
                == PlayerRuntime::FlashPlayer
        },
{
    reveal_strlit("flashPlayer");
    reveal_strlit("air");
    case_goes_both_ways(word);
    reveal_with_fuel(named_choice, 3);
}

/// Each way to load is what its own name asks for. Anything else asks for
/// streaming.
pub proof fn a_way_to_load_is_asked_for_by_name(
    c: PlayerConfig,
    movie: MovieInfo,
    s: Map<Seq<char>, SettingView>,
    direct: Option<Seq<char>>,
    word: Seq<char>,
)
    requires
        configures(c, movie, s, direct),
    ensures
        text_setting(s, "loadBehavior"@) is None ==> c.load_behavior == LoadBehavior::Streaming,
        text_setting(s, "loadBehavior"@) == Some(word) ==> {
            &&& same_but_for_case(word, "streaming"@) ==> c.load_behavior
                == LoadBehavior::Streaming
            &&& same_but_for_case(word, "delayed"@) ==> c.load_behavior == LoadBehavior::Delayed
            &&& same_but_for_case(word, "blocking"@) ==> c.load_behavior
                == LoadBehavior::Blocking
            &&& !same_but_for_case(word, "delayed"@) && !same_but_for_case(word, "blocking"@)
                ==> c.load_behavior == LoadBehavior::Streaming
        },
{
    reveal_strlit("streaming");
    reveal_strlit("delayed");
    reveal_strlit("blocking");
    case_goes_both_ways(word);
    reveal_with_fuel(named_choice, 4);
}

/// Each renderer is what its own name asks for. Anything else asks for the host's.
pub proof fn a_renderer_is_asked_for_by_name(
    c: PlayerConfig,
    movie: MovieInfo,
    s: Map<Seq<char>, SettingView>,
    direct: Option<Seq<char>>,
    word: Seq<char>,
)
    requires
        configures(c, movie, s, direct),
    ensures
        text_setting(s, "renderer"@) is None ==> c.renderer == Which::Hardware,
        text_setting(s, "renderer"@) == Some(word) ==> {
            &&& same_but_for_case(word, "software"@) ==> c.renderer == Which::Software
            &&& same_but_for_case(word, "opengl-hw"@) ==> c.renderer == Which::Hardware
            &&& !same_but_for_case(word, "software"@) ==> c.renderer == Which::Hardware
        },
{
    reveal_strlit("software");
    reveal_strlit("opengl-hw");
    case_goes_both_ways(word);
    reveal_with_fuel(named_choice, 3);
}

/// The movie's own measures and the host's rate reach the player as they are: the
/// rate that was stored, the stage in whole pixels, and the rate that was asked
/// for, for the sound too, where one was.
pub proof fn the_measures_reach_the_player(
    c: PlayerConfig,
    movie: MovieInfo,
    s: Map<Seq<char>, SettingView>,
    direct: Option<Seq<char>>,
)
    requires
        configures(c, movie, s, direct),
    ensures
        movie.rate >= 1 ==> c.pace.rate_256 == movie.rate,
        movie.rate < 1 ==> c.pace.rate_256 == 1,
        movie.width_twips >= 0 ==> 20 * c.stage_width <= movie.width_twips < 20 * c.stage_width
            + 20,
        movie.height_twips >= 0 ==> 20 * c.stage_height <= movie.height_twips < 20
            * c.stage_height + 20,
        movie.width_twips < 0 ==> c.stage_width == 0,
        movie.height_twips < 0 ==> c.stage_height == 0,
        ({
            let fps = int_setting(s, "fps"@, 0);
            if fps > 0 {
                &&& c.pace.host_num == fps
                &&& c.pace.host_den == 1
                &&& c.forced_rate == Some(fps as u64)
                &&& c.vsync_den == 1
                &&& fps <= i32::MAX ==> c.vsync_num == fps
            } else {
                &&& c.pace.host_num == c.pace.rate_256
                &&& c.pace.host_den == 256
                &&& c.forced_rate is None
                &&& movie.rate >= 1 && movie.rate % 256 == 0 ==> c.vsync_den == 1 && c.vsync_num
                    * 256 == movie.rate
                &&& movie.rate >= 1 && movie.rate % 256 != 0 ==> c.vsync_den == 1000 && -256 <= 2
                    * (movie.rate * 1000) - 2 * (c.vsync_num * 256) < 256
            }
        }),
{
    let fps = int_setting(s, "fps"@, 0);
    a_movie_keeps_its_stored_rate(movie.rate, fps);
    a_pixel_is_twenty_twips(movie.width_twips);
    a_pixel_is_twenty_twips(movie.height_twips);
    if fps > 0 {
        an_asked_rate_is_told_whole(movie.rate, fps);
    } else if movie.rate >= 1 {
        a_movies_rate_survives_as_a_ratio(movie.rate, fps);
    }
}

/// The addresses, the version and the two switches reach the player as they were
/// set: an address that was handed over wins over the setting, a version that
/// there never was is none, fixups are off and the built-in font on unless said
/// otherwise.
pub proof fn the_rest_reaches_the_player(
    c: PlayerConfig,
    movie: MovieInfo,
    s: Map<Seq<char>, SettingView>,
    direct: Option<Seq<char>>,
)
    requires
        configures(c, movie, s, direct),
    ensures
        direct matches Some(url) ==> c.spoofed_url matches Some(u) && u@ == url,
        direct is None ==> match text_setting(s, "spoofUrl"@) {
            Some(url) => c.spoofed_url matches Some(u) && u@ == url,
            None => c.spoofed_url is None,
        },
        match text_setting(s, "pageUrl"@) {
            Some(url) => c.page_url matches Some(u) && u@ == url,
            None => c.page_url is None,
        },
        ({
            let ver = int_setting(s, "playerVersion"@, 0);
            if 6 <= ver <= 32 {
                c.player_version matches Some(v) && v == ver
            } else {
                c.player_version is None
            }
        }),
        c.compatibility_rules == bool_setting(s, "compatibilityRules"@, false),
        c.default_font == bool_setting(s, "defaultFont"@, true),
{
}

} // verus!
