//! Launch configurations: validation, scrcpy arguments, fallbacks and live settings.
use vstd::prelude::*;
use crate::models::{LaunchConfig, ZoomLevel};
use crate::number::{dec, parse_u32, parse_u32_chars, u32_text};
use crate::text::{
    append_strs, chars_of, copy_opt_string, copy_string, is_alnum, is_ascii_alphanumeric,
    lit_plus, opt_is, opt_str_is, push_str, sep_fn, split, split_by, split_once,
    split_once_char, str_is, string_of, strs, trim, trimmed, views, Sep,
};

verus! {

// ---------------------------------------------------------------------------
// Sanitizers
// ---------------------------------------------------------------------------

/// The title of the scrcpy window of a phone.
pub open spec fn window_title(serial: Seq<char>) -> Seq<char> {
    "SCRCPY Studio · "@ + serial
}

pub fn session_window_title(serial: &String) -> (r: String)
    ensures
        r@ == window_title(serial@),
{
    lit_plus("SCRCPY Studio · ", serial)
}

pub open spec fn camera_facing_ok(v: Seq<char>) -> bool {
    v == "front"@ || v == "back"@ || v == "external"@
}

pub fn valid_camera_facing(value: &String) -> (b: bool)
    ensures
        b == camera_facing_ok(value@),
{
    str_is(value, "front") || str_is(value, "back") || str_is(value, "external")
}

pub open spec fn mode_known(m: Seq<char>) -> bool {
    m == "mirror"@ || m == "creator"@ || m == "camera"@ || m == "desktop"@
}

pub open spec fn stale_mode_message() -> Seq<char> {
    "The selected mode changed while its settings were loading. Wait a moment and try again."@
}

/// A launch is accepted only for a known mode that the configuration was made for.
pub fn validate_launch_mode(config: &LaunchConfig, requested_mode: &String) -> (r: Result<
    (),
    String,
>)
    ensures
        r is Ok <==> mode_known(requested_mode@) && config.mode@ == requested_mode@,
        r matches Err(e) ==> (if !mode_known(requested_mode@) {
            e@ == "Unknown session mode."@
        } else {
            e@ == stale_mode_message()
        }),
{
    if !(str_is(requested_mode, "mirror") || str_is(requested_mode, "creator") || str_is(
        requested_mode,
        "camera",
    ) || str_is(requested_mode, "desktop")) {
        return Err(String::from_str("Unknown session mode."));
    }
    let a = chars_of(config.mode.as_str());
    let b = chars_of(requested_mode.as_str());
    if !crate::text::eq_chars(&a, &b) {
        return Err(
            String::from_str(
                "The selected mode changed while its settings were loading. Wait a moment and try again.",
            ),
        );
    }
    Ok(())
}

pub open spec fn safe_dimension(value: Option<u32>, fallback: u32) -> u32 {
    match value {
        Some(v) => if 480 <= v <= 7680 {
            v
        } else {
            fallback
        },
        None => fallback,
    }
}

pub fn safe_desktop_dimension(value: Option<u32>, fallback: u32) -> (r: u32)
    ensures
        r == safe_dimension(value, fallback),
{
    match value {
        Some(v) => if 480 <= v && v <= 7680 {
            v
        } else {
            fallback
        },
        None => fallback,
    }
}

pub open spec fn safe_density(value: Option<u32>) -> u32 {
    match value {
        Some(v) => if 120 <= v <= 640 {
            v
        } else {
            240
        },
        None => 240,
    }
}

pub fn safe_desktop_density(value: Option<u32>) -> (r: u32)
    ensures
        r == safe_density(value),
{
    match value {
        Some(v) => if 120 <= v && v <= 640 {
            v
        } else {
            240
        },
        None => 240,
    }
}

pub open spec fn codec_ok(v: Seq<char>) -> bool {
    v == "h264"@ || v == "h265"@ || v == "av1"@
}

pub open spec fn safe_codec(v: Seq<char>) -> Seq<char> {
    if codec_ok(v) {
        v
    } else {
        "h264"@
    }
}

pub fn safe_video_codec(value: &String) -> (r: String)
    ensures
        r@ == safe_codec(value@),
{
    if str_is(value, "h264") || str_is(value, "h265") || str_is(value, "av1") {
        copy_string(value)
    } else {
        String::from_str("h264")
    }
}

pub open spec fn encoder_char(c: char) -> bool {
    is_alnum(c) || c == '.' || c == '_' || c == '-'
}

pub open spec fn encoder_ok(t: Seq<char>) -> bool {
    0 < t.len() <= 160 && forall|i: int| 0 <= i < t.len() ==> encoder_char(#[trigger] t[i])
}

/// The trimmed encoder name, when it is 1 to 160 ASCII letters, digits, `.`, `_` or `-`.
pub open spec fn safe_encoder(value: Option<String>) -> Option<Seq<char>> {
    match value {
        Some(v) => if encoder_ok(trim(v@)) {
            Some(trim(v@))
        } else {
            None
        },
        None => None,
    }
}

fn all_encoder_chars(t: &[char]) -> (b: bool)
    ensures
        b == forall|i: int| 0 <= i < t@.len() ==> encoder_char(#[trigger] t@[i]),
{
    let mut i: usize = 0;
    while i < t.len()
        invariant
            i <= t@.len(),
            forall|j: int| 0 <= j < i ==> encoder_char(#[trigger] t@[j]),
        decreases t@.len() - i,
    {
        let ch = t[i];
        if !(is_ascii_alphanumeric(ch) || ch == '.' || ch == '_' || ch == '-') {
            assert(!encoder_char(t@[i as int]));
            return false;
        }
        i += 1;
    }
    true
}

pub fn safe_video_encoder(value: &Option<String>) -> (r: Option<String>)
    ensures
        r matches Some(s) ==> safe_encoder(*value) == Some(s@),
        r is None ==> safe_encoder(*value) is None,
{
    match value {
        Some(v) => {
            let c = chars_of(v.as_str());
            let t = trimmed(&c);
            if t.len() > 0 && t.len() <= 160 && all_encoder_chars(&t) {
                Some(string_of(&t))
            } else {
                None
            }
        },
        None => None,
    }
}

pub open spec fn size_ok(p: Option<u32>) -> bool {
    p matches Some(x) && 1 <= x <= 7680
}

/// The trimmed `WIDTHxHEIGHT` text, when both sides are whole numbers from 1 to 7680.
pub open spec fn safe_size(value: Option<String>) -> Option<Seq<char>> {
    match value {
        Some(v) => match split_once(trim(v@), 'x') {
            Some((w, h)) => if size_ok(parse_u32(w)) && size_ok(parse_u32(h)) {
                Some(trim(v@))
            } else {
                None
            },
            None => None,
        },
        None => None,
    }
}

pub fn safe_camera_size(value: &Option<String>) -> (r: Option<String>)
    ensures
        r matches Some(s) ==> safe_size(*value) == Some(s@),
        r is None ==> safe_size(*value) is None,
{
    match value {
        Some(v) => {
            let c = chars_of(v.as_str());
            let t = trimmed(&c);
            match split_once_char(&t, 'x') {
                Some((w, h)) => {
                    let pw = parse_u32_chars(&w);
                    let ph = parse_u32_chars(&h);
                    let ok_w = match pw {
                        Some(x) => 1 <= x && x <= 7680,
                        None => false,
                    };
                    let ok_h = match ph {
                        Some(x) => 1 <= x && x <= 7680,
                        None => false,
                    };
                    if ok_w && ok_h {
                        Some(string_of(&t))
                    } else {
                        None
                    }
                },
                None => None,
            }
        },
        None => None,
    }
}

pub open spec fn crop_ok(t: Seq<char>) -> bool {
    let parts = split_by(t, sep_fn(Sep::Char(':')));
    &&& parts.len() == 4
    &&& forall|i: int| 0 <= i < 4 ==> parse_u32(#[trigger] parts[i]) is Some
    &&& parse_u32(parts[0])->0 > 0
    &&& parse_u32(parts[1])->0 > 0
}

/// The trimmed crop text, when it is four whole numbers joined by `:` of which the first two
/// are positive.
pub open spec fn safe_crop_spec(value: Option<String>) -> Option<Seq<char>> {
    match value {
        Some(v) => if crop_ok(trim(v@)) {
            Some(trim(v@))
        } else {
            None
        },
        None => None,
    }
}

/// Every piece as a `u32`, or `None` when one piece is not a number.
fn parse_all(parts: &Vec<Vec<char>>) -> (r: Option<Vec<u32>>)
    ensures
        r matches Some(nums) ==> nums@.len() == parts@.len() && forall|j: int|
            0 <= j < parts@.len() ==> parse_u32(#[trigger] views(parts@)[j]) == Some(nums@[j]),
        r is None ==> exists|j: int|
            0 <= j < parts@.len() && parse_u32(#[trigger] views(parts@)[j]) is None,
{
    let ghost pv = views(parts@);
    let mut nums: Vec<u32> = Vec::new();
    let mut i: usize = 0;
    while i < parts.len()
        invariant
            i <= parts@.len(),
            pv == views(parts@),
            nums@.len() == i,
            forall|j: int| 0 <= j < i ==> parse_u32(#[trigger] pv[j]) == Some(nums@[j]),
        decreases parts@.len() - i,
    {
        match parse_u32_chars(&parts[i]) {
            Some(x) => {
                nums.push(x);
            },
            None => {
                assert(pv[i as int] == parts@[i as int]@);
                assert(parse_u32(pv[i as int]) is None);
                return None;
            },
        }
        i += 1;
    }
    Some(nums)
}

pub fn safe_crop(value: &Option<String>) -> (r: Option<String>)
    ensures
        r matches Some(s) ==> safe_crop_spec(*value) == Some(s@),
        r is None ==> safe_crop_spec(*value) is None,
{
    match value {
        Some(v) => {
            let c = chars_of(v.as_str());
            let t = trimmed(&c);
            let parts = split(&t, Sep::Char(':'));
            let ghost pv = views(parts@);
            match parse_all(&parts) {
                Some(nums) => {
                    if nums.len() == 4 && nums[0] > 0 && nums[1] > 0 {
                        assert(parse_u32(pv[0]) == Some(nums@[0]));
                        assert(parse_u32(pv[1]) == Some(nums@[1]));
                        Some(string_of(&t))
                    } else {
                        proof {
                            if nums@.len() == 4 {
                                assert(parse_u32(pv[0]) == Some(nums@[0]));
                                assert(parse_u32(pv[1]) == Some(nums@[1]));
                            }
                        }
                        None
                    }
                },
                None => None,
            }
        },
        None => None,
    }
}

/// `--capture-orientation` for `initial`, `0`, `90`, `180` or `270`; nothing otherwise.
pub open spec fn orientation_arg(value: Option<String>) -> Option<Seq<char>> {
    match value {
        Some(v) => if v@ == "initial"@ {
            Some("--capture-orientation=@"@)
        } else if v@ == "0"@ || v@ == "90"@ || v@ == "180"@ || v@ == "270"@ {
            Some("--capture-orientation=@"@ + v@)
        } else {
            None
        },
        None => None,
    }
}

pub fn capture_orientation_arg(value: &Option<String>) -> (r: Option<String>)
    ensures
        r matches Some(s) ==> orientation_arg(*value) == Some(s@),
        r is None ==> orientation_arg(*value) is None,
{
    match value {
        Some(v) => if str_is(v, "initial") {
            Some(String::from_str("--capture-orientation=@"))
        } else if str_is(v, "0") || str_is(v, "90") || str_is(v, "180") || str_is(v, "270") {
            Some(lit_plus("--capture-orientation=@", v))
        } else {
            None
        },
        None => None,
    }
}

// ---------------------------------------------------------------------------
// scrcpy arguments
// ---------------------------------------------------------------------------

/// One argument when the condition holds, none otherwise.
pub open spec fn arg_if(b: bool, a: Seq<char>) -> Seq<Seq<char>> {
    if b {
        seq![a]
    } else {
        Seq::<Seq<char>>::empty()
    }
}

pub open spec fn num_arg(prefix: Seq<char>, n: u32) -> Seq<char> {
    prefix + dec(n as nat)
}

pub open spec fn camera_id_args(c: LaunchConfig) -> Seq<Seq<char>> {
    if c.camera_id matches Some(id) && trim(id@).len() > 0 {
        seq!["--camera-id="@ + trim(c.camera_id->0@)]
    } else if c.camera_facing matches Some(f) && camera_facing_ok(f@) {
        seq!["--camera-facing="@ + c.camera_facing->0@]
    } else {
        Seq::<Seq<char>>::empty()
    }
}

pub open spec fn aspect_ratio_ok(v: Option<String>) -> bool {
    v matches Some(a) && (a@ == "sensor"@ || a@ == "16:9"@ || a@ == "4:3"@)
}

pub open spec fn camera_size_args(c: LaunchConfig) -> Seq<Seq<char>> {
    match safe_size(c.camera_size) {
        Some(sz) => seq!["--camera-size="@ + sz],
        None => arg_if(c.max_size > 0, num_arg("--max-size="@, c.max_size)),
    }
}

pub open spec fn camera_ar_args(c: LaunchConfig) -> Seq<Seq<char>> {
    arg_if(
        safe_size(c.camera_size) is None && aspect_ratio_ok(c.camera_aspect_ratio),
        "--camera-ar="@ + c.camera_aspect_ratio->0@,
    )
}

pub open spec fn camera_extra_args(c: LaunchConfig) -> Seq<Seq<char>> {
    arg_if(c.camera_high_speed && safe_size(c.camera_size) is Some, "--camera-high-speed"@)
        + arg_if(
        c.camera_zoom matches Some(z) && z.usable,
        "--camera-zoom="@ + c.camera_zoom->0.text@,
    ) + arg_if(c.camera_torch, "--camera-torch"@)
}

pub open spec fn camera_args(c: LaunchConfig) -> Seq<Seq<char>> {
    seq!["--video-source=camera"@] + camera_id_args(c) + camera_size_args(c) + camera_ar_args(c)
        + arg_if(c.max_fps > 0, num_arg("--camera-fps="@, c.max_fps)) + camera_extra_args(c)
}

/// Width of the virtual display a desktop launch creates.
pub open spec fn desktop_width(c: LaunchConfig) -> u32 {
    safe_dimension(
        c.desktop_width,
        if c.max_size >= 1920 {
            1920
        } else {
            1280
        },
    )
}

/// Height of the virtual display a desktop launch creates.
pub open spec fn desktop_height(c: LaunchConfig) -> u32 {
    safe_dimension(
        c.desktop_height,
        if desktop_width(c) >= 1920 {
            1080
        } else {
            720
        },
    )
}

pub open spec fn new_display_arg(c: LaunchConfig) -> Seq<char> {
    "--new-display="@ + dec(desktop_width(c) as nat) + "x"@ + dec(desktop_height(c) as nat) + "/"@
        + dec(safe_density(c.desktop_density) as nat)
}

pub open spec fn is_samsung_dex(c: LaunchConfig) -> bool {
    opt_is(c.desktop_environment, "samsung_dex"@)
}

pub open spec fn desktop_args(c: LaunchConfig) -> Seq<Seq<char>> {
    (if is_samsung_dex(c) {
        match c.desktop_display_id {
            Some(d) => seq![num_arg("--display-id="@, d)],
            None => Seq::<Seq<char>>::empty(),
        }
    } else {
        seq![new_display_arg(c)] + arg_if(c.desktop_flex, "--flex-display"@) + arg_if(
            c.desktop_no_decorations,
            "--no-vd-system-decorations"@,
        ) + arg_if(c.desktop_keep_content, "--no-vd-destroy-content"@) + arg_if(
            c.desktop_start_app matches Some(p) && trim(p@).len() > 0,
            "--start-app="@ + trim(c.desktop_start_app->0@),
        ) + seq!["--display-ime-policy=local"@]
    }) + arg_if(c.max_fps > 0, num_arg("--max-fps="@, c.max_fps))
}

pub open spec fn plain_args(c: LaunchConfig) -> Seq<Seq<char>> {
    arg_if(c.max_size > 0, num_arg("--max-size="@, c.max_size)) + arg_if(
        c.max_fps > 0,
        num_arg("--max-fps="@, c.max_fps),
    )
}

pub open spec fn mode_args(c: LaunchConfig) -> Seq<Seq<char>> {
    if c.mode@ == "camera"@ {
        camera_args(c)
    } else if c.mode@ == "desktop"@ {
        desktop_args(c)
    } else {
        plain_args(c)
    }
}

/// The video bit rate in Mbit/s: the configured one from 1 to 200, else 8.
pub open spec fn bit_rate(c: LaunchConfig) -> u32 {
    if 1 <= c.video_bit_rate <= 200 {
        c.video_bit_rate
    } else {
        8
    }
}

pub open spec fn audio_args(c: LaunchConfig) -> Seq<Seq<char>> {
    if !c.audio || opt_is(c.audio_source, "off"@) {
        seq!["--no-audio"@]
    } else if c.audio_source matches Some(a) && (a@ == "output"@ || a@ == "mic"@) {
        seq!["--audio-source="@ + c.audio_source->0@]
    } else {
        Seq::<Seq<char>>::empty()
    }
}

/// Whether scrcpy itself keeps the phone awake (and restores the setting on exit).
pub open spec fn scrcpy_keeps_awake(c: LaunchConfig) -> bool {
    c.stay_awake && !c.turn_screen_off && c.mode@ != "camera"@
}

pub open spec fn power_args(c: LaunchConfig) -> Seq<Seq<char>> {
    arg_if(
        scrcpy_keeps_awake(c),
        if c.mode@ == "desktop"@ {
            "--keep-active"@
        } else {
            "--stay-awake"@
        },
    ) + arg_if(c.turn_screen_off && c.mode@ != "camera"@, "--turn-screen-off"@) + arg_if(
        c.show_touches && c.mode@ != "camera"@,
        "--show-touches"@,
    ) + arg_if(c.fullscreen, "--fullscreen"@)
}

pub open spec fn tail_args(c: LaunchConfig, recording: Option<Seq<char>>) -> Seq<Seq<char>> {
    (match orientation_arg(c.capture_orientation) {
        Some(a) => seq![a],
        None => Seq::<Seq<char>>::empty(),
    }) + (match safe_crop_spec(c.crop) {
        Some(cr) => seq!["--crop="@ + cr],
        None => Seq::<Seq<char>>::empty(),
    }) + (match recording {
        Some(p) => seq!["--record="@ + p],
        None => Seq::<Seq<char>>::empty(),
    }) + seq!["--window-title="@ + window_title(c.serial@)]
}

pub open spec fn video_args(c: LaunchConfig) -> Seq<Seq<char>> {
    seq![
        "--video-codec="@ + safe_codec(c.codec@),
        "--video-bit-rate="@ + dec(bit_rate(c) as nat) + "M"@,
    ] + (match safe_encoder(c.video_encoder) {
        Some(e) => seq!["--video-encoder="@ + e],
        None => Seq::<Seq<char>>::empty(),
    })
}

/// The scrcpy command line (without the program) for a configuration.
pub open spec fn launch_args(c: LaunchConfig, recording: Option<Seq<char>>) -> Seq<Seq<char>> {
    seq!["-s"@, c.serial@] + mode_args(c) + video_args(c) + audio_args(c) + power_args(c)
        + tail_args(c, recording)
}

fn push_if(v: &mut Vec<String>, b: bool, a: &str)
    ensures
        strs(final(v)@) == strs(old(v)@) + arg_if(b, a@),
{
    if b {
        push_str(v, String::from_str(a));
    }
    assert(strs(v@) =~= strs(old(v)@) + arg_if(b, a@));
}

fn num_arg_exec(prefix: &str, n: u32) -> (r: String)
    ensures
        r@ == num_arg(prefix@, n),
{
    lit_plus(prefix, &u32_text(n))
}

fn camera_id_args_exec(c: &LaunchConfig) -> (r: Vec<String>)
    ensures
        strs(r@) == camera_id_args(*c),
{
    let mut r: Vec<String> = Vec::new();
    let id_text: Option<Vec<char>> = match &c.camera_id {
        Some(id) => {
            let t = trimmed(&chars_of(id.as_str()));
            if t.len() > 0 {
                Some(t)
            } else {
                None
            }
        },
        None => None,
    };
    match id_text {
        Some(t) => {
            push_str(&mut r, lit_plus("--camera-id=", &string_of(&t)));
        },
        None => {
            match &c.camera_facing {
                Some(f) => {
                    if valid_camera_facing(f) {
                        push_str(&mut r, lit_plus("--camera-facing=", f));
                    }
                },
                None => {},
            }
        },
    }
    assert(strs(r@) =~= camera_id_args(*c));
    r
}

fn camera_size_args_exec(c: &LaunchConfig) -> (r: Vec<String>)
    ensures
        strs(r@) == camera_size_args(*c),
{
    let mut r: Vec<String> = Vec::new();
    match safe_camera_size(&c.camera_size) {
        Some(sz) => {
            push_str(&mut r, lit_plus("--camera-size=", &sz));
        },
        None => {
            if c.max_size > 0 {
                push_str(&mut r, num_arg_exec("--max-size=", c.max_size));
            }
        },
    }
    assert(strs(r@) =~= camera_size_args(*c));
    r
}

fn camera_ar_args_exec(c: &LaunchConfig) -> (r: Vec<String>)
    ensures
        strs(r@) == camera_ar_args(*c),
{
    let mut r: Vec<String> = Vec::new();
    if safe_camera_size(&c.camera_size).is_none() {
        match &c.camera_aspect_ratio {
            Some(a) => {
                if str_is(a, "sensor") || str_is(a, "16:9") || str_is(a, "4:3") {
                    push_str(&mut r, lit_plus("--camera-ar=", a));
                }
            },
            None => {},
        }
    }
    assert(strs(r@) =~= camera_ar_args(*c));
    r
}

fn camera_extra_args_exec(c: &LaunchConfig) -> (r: Vec<String>)
    ensures
        strs(r@) == camera_extra_args(*c),
{
    let mut r: Vec<String> = Vec::new();
    let has_size = safe_camera_size(&c.camera_size).is_some();
    push_if(&mut r, c.camera_high_speed && has_size, "--camera-high-speed");
    let ghost after_hs = strs(r@);
    match &c.camera_zoom {
        Some(z) => {
            if z.usable {
                push_str(&mut r, lit_plus("--camera-zoom=", &z.text));
            }
        },
        None => {},
    }
    assert(strs(r@) =~= after_hs + arg_if(
        c.camera_zoom matches Some(z) && z.usable,
        "--camera-zoom="@ + c.camera_zoom->0.text@,
    ));
    push_if(&mut r, c.camera_torch, "--camera-torch");
    assert(strs(r@) =~= camera_extra_args(*c));
    r
}

fn camera_args_exec(c: &LaunchConfig) -> (r: Vec<String>)
    ensures
        strs(r@) == camera_args(*c),
{
    let mut r: Vec<String> = Vec::new();
    push_str(&mut r, String::from_str("--video-source=camera"));
    append_strs(&mut r, camera_id_args_exec(c));
    append_strs(&mut r, camera_size_args_exec(c));
    append_strs(&mut r, camera_ar_args_exec(c));
    let ghost before_fps = strs(r@);
    if c.max_fps > 0 {
        push_str(&mut r, num_arg_exec("--camera-fps=", c.max_fps));
    }
    assert(strs(r@) =~= before_fps + arg_if(c.max_fps > 0, num_arg("--camera-fps="@, c.max_fps)));
    append_strs(&mut r, camera_extra_args_exec(c));
    assert(strs(r@) =~= camera_args(*c));
    r
}

fn desktop_args_exec(c: &LaunchConfig) -> (r: Vec<String>)
    ensures
        strs(r@) == desktop_args(*c),
{
    let mut r: Vec<String> = Vec::new();
    if opt_str_is(&c.desktop_environment, "samsung_dex") {
        match c.desktop_display_id {
            Some(d) => {
                push_str(&mut r, num_arg_exec("--display-id=", d));
            },
            None => {},
        }
    } else {
        let width = safe_desktop_dimension(
            c.desktop_width,
            if c.max_size >= 1920 {
                1920
            } else {
                1280
            },
        );
        let height = safe_desktop_dimension(
            c.desktop_height,
            if width >= 1920 {
                1080
            } else {
                720
            },
        );
        let density = safe_desktop_density(c.desktop_density);
        let mut nd = lit_plus("--new-display=", &u32_text(width));
        nd.append("x");
        nd.append(u32_text(height).as_str());
        nd.append("/");
        nd.append(u32_text(density).as_str());
        assert(nd@ == new_display_arg(*c));
        push_str(&mut r, nd);
        push_if(&mut r, c.desktop_flex, "--flex-display");
        push_if(&mut r, c.desktop_no_decorations, "--no-vd-system-decorations");
        push_if(&mut r, c.desktop_keep_content, "--no-vd-destroy-content");
        let ghost before_app = strs(r@);
        match &c.desktop_start_app {
            Some(p) => {
                let t = trimmed(&chars_of(p.as_str()));
                if t.len() > 0 {
                    push_str(&mut r, lit_plus("--start-app=", &string_of(&t)));
                }
            },
            None => {},
        }
        assert(strs(r@) =~= before_app + arg_if(
            c.desktop_start_app matches Some(p) && trim(p@).len() > 0,
            "--start-app="@ + trim(c.desktop_start_app->0@),
        ));
        push_str(&mut r, String::from_str("--display-ime-policy=local"));
    }
    let ghost before_fps = strs(r@);
    if c.max_fps > 0 {
        push_str(&mut r, num_arg_exec("--max-fps=", c.max_fps));
    }
    assert(strs(r@) =~= before_fps + arg_if(c.max_fps > 0, num_arg("--max-fps="@, c.max_fps)));
    assert(strs(r@) =~= desktop_args(*c));
    r
}

fn plain_args_exec(c: &LaunchConfig) -> (r: Vec<String>)
    ensures
        strs(r@) == plain_args(*c),
{
    let mut r: Vec<String> = Vec::new();
    if c.max_size > 0 {
        push_str(&mut r, num_arg_exec("--max-size=", c.max_size));
    }
    let ghost mid = strs(r@);
    assert(mid =~= arg_if(c.max_size > 0, num_arg("--max-size="@, c.max_size)));
    if c.max_fps > 0 {
        push_str(&mut r, num_arg_exec("--max-fps=", c.max_fps));
    }
    assert(strs(r@) =~= plain_args(*c));
    r
}

fn video_args_exec(c: &LaunchConfig) -> (r: Vec<String>)
    ensures
        strs(r@) == video_args(*c),
{
    let mut r: Vec<String> = Vec::new();
    push_str(&mut r, lit_plus("--video-codec=", &safe_video_codec(&c.codec)));
    let rate = if 1 <= c.video_bit_rate && c.video_bit_rate <= 200 {
        c.video_bit_rate
    } else {
        8
    };
    let mut b = lit_plus("--video-bit-rate=", &u32_text(rate));
    b.append("M");
    push_str(&mut r, b);
    match safe_video_encoder(&c.video_encoder) {
        Some(e) => {
            push_str(&mut r, lit_plus("--video-encoder=", &e));
        },
        None => {},
    }
    assert(strs(r@) =~= video_args(*c));
    r
}

fn audio_args_exec(c: &LaunchConfig) -> (r: Vec<String>)
    ensures
        strs(r@) == audio_args(*c),
{
    let mut r: Vec<String> = Vec::new();
    if !c.audio || opt_str_is(&c.audio_source, "off") {
        push_str(&mut r, String::from_str("--no-audio"));
    } else {
        match &c.audio_source {
            Some(a) => {
                if str_is(a, "output") || str_is(a, "mic") {
                    push_str(&mut r, lit_plus("--audio-source=", a));
                }
            },
            None => {},
        }
    }
    assert(strs(r@) =~= audio_args(*c));
    r
}

fn power_args_exec(c: &LaunchConfig) -> (r: Vec<String>)
    ensures
        strs(r@) == power_args(*c),
{
    let mut r: Vec<String> = Vec::new();
    let camera = str_is(&c.mode, "camera");
    let desktop = str_is(&c.mode, "desktop");
    if c.stay_awake && !c.turn_screen_off && !camera {
        if desktop {
            push_str(&mut r, String::from_str("--keep-active"));
        } else {
            push_str(&mut r, String::from_str("--stay-awake"));
        }
    }
    let ghost a = strs(r@);
    assert(a =~= arg_if(
        scrcpy_keeps_awake(*c),
        if c.mode@ == "desktop"@ {
            "--keep-active"@
        } else {
            "--stay-awake"@
        },
    ));
    push_if(&mut r, c.turn_screen_off && !camera, "--turn-screen-off");
    push_if(&mut r, c.show_touches && !camera, "--show-touches");
    push_if(&mut r, c.fullscreen, "--fullscreen");
    assert(strs(r@) =~= power_args(*c));
    r
}

fn tail_args_exec(c: &LaunchConfig, recording: &Option<String>) -> (r: Vec<String>)
    ensures
        strs(r@) == tail_args(*c, crate::text::opt_view(*recording)),
{
    let mut r: Vec<String> = Vec::new();
    match capture_orientation_arg(&c.capture_orientation) {
        Some(a) => {
            push_str(&mut r, a);
        },
        None => {},
    }
    let ghost a = strs(r@);
    match safe_crop(&c.crop) {
        Some(cr) => {
            push_str(&mut r, lit_plus("--crop=", &cr));
        },
        None => {},
    }
    let ghost b = strs(r@);
    match recording {
        Some(p) => {
            push_str(&mut r, lit_plus("--record=", p));
        },
        None => {},
    }
    let ghost d = strs(r@);
    push_str(&mut r, lit_plus("--window-title=", &session_window_title(&c.serial)));
    assert(strs(r@) =~= tail_args(*c, crate::text::opt_view(*recording)));
    r
}

/// The scrcpy command line for a configuration and an optional recording path.
pub fn build_args(config: &LaunchConfig, recording: &Option<String>) -> (args: Vec<String>)
    ensures
        strs(args@) == launch_args(*config, crate::text::opt_view(*recording)),
{
    let mut args: Vec<String> = Vec::new();
    push_str(&mut args, String::from_str("-s"));
    push_str(&mut args, copy_string(&config.serial));
    if str_is(&config.mode, "camera") {
        append_strs(&mut args, camera_args_exec(config));
    } else if str_is(&config.mode, "desktop") {
        append_strs(&mut args, desktop_args_exec(config));
    } else {
        append_strs(&mut args, plain_args_exec(config));
    }
    append_strs(&mut args, video_args_exec(config));
    append_strs(&mut args, audio_args_exec(config));
    append_strs(&mut args, power_args_exec(config));
    append_strs(&mut args, tail_args_exec(config, recording));
    assert(strs(args@) =~= launch_args(*config, crate::text::opt_view(*recording)));
    args
}

// ---------------------------------------------------------------------------
// Fallback configurations
// ---------------------------------------------------------------------------

/// One way of making a configuration safer.
pub enum Step {
    NoHighSpeed,
    NoTorch,
    NoZoom,
    NoAspectRatio,
    NoEncoder,
    H264,
    Fps30,
    Size1280,
    NoCameraId,
    NoDecorations,
    NoFlex,
    SettingsApp,
    SmallDisplay,
}

/// `next` is `prev` with `step` applied.
pub open spec fn step_done(prev: LaunchConfig, next: LaunchConfig, step: Step) -> bool {
    match step {
        Step::NoHighSpeed => next == LaunchConfig {
            camera_high_speed: false,
            camera_size: None,
            max_fps: if prev.max_fps > 60 {
                30
            } else {
                prev.max_fps
            },
            ..prev
        },
        Step::NoTorch => next == LaunchConfig { camera_torch: false, ..prev },
        Step::NoZoom => next == LaunchConfig { camera_zoom: None, ..prev },
        Step::NoAspectRatio => next == LaunchConfig { camera_aspect_ratio: None, ..prev },
        Step::NoEncoder => next == LaunchConfig { video_encoder: None, ..prev },
        Step::H264 => next == LaunchConfig { codec: next.codec, ..prev } && next.codec@ == "h264"@,
        Step::Fps30 => next == LaunchConfig { max_fps: 30, ..prev },
        Step::Size1280 => next == LaunchConfig { max_size: 1280, ..prev },
        Step::NoCameraId => next == LaunchConfig { camera_id: None, ..prev },
        Step::NoDecorations => next == LaunchConfig { desktop_no_decorations: false, ..prev },
        Step::NoFlex => next == LaunchConfig { desktop_flex: false, ..prev },
        Step::SettingsApp => next == LaunchConfig {
            desktop_start_app: next.desktop_start_app,
            ..prev
        } && opt_is(next.desktop_start_app, "com.android.settings"@),
        Step::SmallDisplay => next == LaunchConfig {
            desktop_width: Some(1280),
            desktop_height: Some(720),
            desktop_density: Some(200),
            ..prev
        },
    }
}

pub open spec fn step_if(b: bool, s: Step) -> Seq<Step> {
    if b {
        seq![s]
    } else {
        Seq::<Step>::empty()
    }
}

pub open spec fn zoom_above_unity(z: Option<ZoomLevel>) -> bool {
    z matches Some(v) && v.above_unity
}

pub open spec fn camera_steps(c: LaunchConfig) -> Seq<Step> {
    step_if(c.camera_high_speed, Step::NoHighSpeed) + step_if(c.camera_torch, Step::NoTorch)
        + step_if(zoom_above_unity(c.camera_zoom), Step::NoZoom) + step_if(
        c.camera_aspect_ratio is Some,
        Step::NoAspectRatio,
    ) + step_if(c.video_encoder is Some, Step::NoEncoder) + step_if(c.codec@ != "h264"@, Step::H264)
        + step_if(c.max_fps > 30, Step::Fps30) + step_if(c.max_size > 1280, Step::Size1280)
        + step_if(c.camera_id is Some && c.camera_facing is Some, Step::NoCameraId)
}

pub open spec fn large_display(c: LaunchConfig) -> bool {
    (match c.desktop_width {
        Some(w) => w,
        None => 1920,
    }) > 1280 || (match c.desktop_height {
        Some(h) => h,
        None => 1080,
    }) > 720
}

pub open spec fn desktop_steps(c: LaunchConfig) -> Seq<Step> {
    (if !is_samsung_dex(c) {
        step_if(c.desktop_no_decorations, Step::NoDecorations) + step_if(
            c.desktop_flex,
            Step::NoFlex,
        ) + step_if(
            !opt_is(c.desktop_start_app, "com.android.settings"@),
            Step::SettingsApp,
        ) + step_if(large_display(c), Step::SmallDisplay)
    } else {
        Seq::<Step>::empty()
    }) + step_if(c.video_encoder is Some, Step::NoEncoder) + step_if(c.codec@ != "h264"@, Step::H264)
        + step_if(c.max_fps > 30, Step::Fps30)
}

pub open spec fn mirror_steps(c: LaunchConfig) -> Seq<Step> {
    step_if(c.video_encoder is Some, Step::NoEncoder) + step_if(c.codec@ != "h264"@, Step::H264)
        + step_if(c.max_size > 1280, Step::Size1280) + step_if(c.max_fps > 30, Step::Fps30)
}

/// The safer steps tried, in order, after a configuration fails to stay running.
pub open spec fn fallback_steps(c: LaunchConfig) -> Seq<Step> {
    if c.mode@ == "camera"@ {
        camera_steps(c)
    } else if c.mode@ == "desktop"@ {
        desktop_steps(c)
    } else {
        mirror_steps(c)
    }
}

/// `v` starts with the original and each next variant applies the next step.
pub open spec fn is_fallback_chain(c: LaunchConfig, v: Seq<LaunchConfig>) -> bool {
    let steps = fallback_steps(c);
    &&& v.len() == steps.len() + 1
    &&& v[0] == c
    &&& forall|i: int|
        #![trigger v[i], v[i + 1]]
        0 <= i < steps.len() ==> step_done(v[i], v[i + 1], steps[i])
}

/// A copy of a configuration.
pub fn copy_config(c: &LaunchConfig) -> (r: LaunchConfig)
    ensures
        r == *c,
{
    LaunchConfig {
        serial: copy_string(&c.serial),
        mode: copy_string(&c.mode),
        max_size: c.max_size,
        max_fps: c.max_fps,
        codec: copy_string(&c.codec),
        video_bit_rate: c.video_bit_rate,
        video_encoder: copy_opt_string(&c.video_encoder),
        audio: c.audio,
        audio_source: copy_opt_string(&c.audio_source),
        stay_awake: c.stay_awake,
        turn_screen_off: c.turn_screen_off,
        show_touches: c.show_touches,
        record: c.record,
        fullscreen: c.fullscreen,
        capture_orientation: copy_opt_string(&c.capture_orientation),
        crop: copy_opt_string(&c.crop),
        camera_id: copy_opt_string(&c.camera_id),
        camera_facing: copy_opt_string(&c.camera_facing),
        camera_zoom: match &c.camera_zoom {
            Some(z) => Some(
                ZoomLevel { usable: z.usable, above_unity: z.above_unity, text: copy_string(&z.text) },
            ),
            None => None,
        },
        camera_torch: c.camera_torch,
        camera_size: copy_opt_string(&c.camera_size),
        camera_aspect_ratio: copy_opt_string(&c.camera_aspect_ratio),
        camera_high_speed: c.camera_high_speed,
        desktop_width: c.desktop_width,
        desktop_height: c.desktop_height,
        desktop_density: c.desktop_density,
        desktop_flex: c.desktop_flex,
        desktop_no_decorations: c.desktop_no_decorations,
        desktop_keep_content: c.desktop_keep_content,
        desktop_start_app: copy_opt_string(&c.desktop_start_app),
        desktop_environment: copy_opt_string(&c.desktop_environment),
        desktop_display_id: c.desktop_display_id,
    }
}

#[verifier::spinoff_prover]
#[verifier::rlimit(60)]
fn applied(prev: &LaunchConfig, step: Step) -> (next: LaunchConfig)
    ensures
        step_done(*prev, next, step),
{
    let mut next = copy_config(prev);
    match step {
        Step::NoHighSpeed => {
            next.camera_high_speed = false;
            next.camera_size = None;
            if next.max_fps > 60 {
                next.max_fps = 30;
            }
        },
        Step::NoTorch => {
            next.camera_torch = false;
        },
        Step::NoZoom => {
            next.camera_zoom = None;
        },
        Step::NoAspectRatio => {
            next.camera_aspect_ratio = None;
        },
        Step::NoEncoder => {
            next.video_encoder = None;
        },
        Step::H264 => {
            next.codec = String::from_str("h264");
        },
        Step::Fps30 => {
            next.max_fps = 30;
        },
        Step::Size1280 => {
            next.max_size = 1280;
        },
        Step::NoCameraId => {
            next.camera_id = None;
        },
        Step::NoDecorations => {
            next.desktop_no_decorations = false;
        },
        Step::NoFlex => {
            next.desktop_flex = false;
        },
        Step::SettingsApp => {
            next.desktop_start_app = Some(String::from_str("com.android.settings"));
        },
        Step::SmallDisplay => {
            next.desktop_width = Some(1280);
            next.desktop_height = Some(720);
            next.desktop_density = Some(200);
        },
    }
    next
}

/// Appends a variant made from the last one by a step, when the condition holds.
fn push_variant(
    variants: &mut Vec<LaunchConfig>,
    steps: Ghost<Seq<Step>>,
    cond: bool,
    step: Step,
)
    requires
        old(variants)@.len() == steps@.len() + 1,
        forall|i: int|
            0 <= i < steps@.len() ==> step_done(
                old(variants)@[i],
                #[trigger] old(variants)@[i + 1],
                steps@[i],
            ),
    ensures
        final(variants)@.len() == steps@.len() + step_if(cond, step).len() + 1,
        final(variants)@[0] == old(variants)@[0],
        forall|i: int|
            0 <= i < (steps@ + step_if(cond, step)).len() ==> step_done(
                final(variants)@[i],
                #[trigger] final(variants)@[i + 1],
                (steps@ + step_if(cond, step))[i],
            ),
{
    let ghost all = steps@ + step_if(cond, step);
    if cond {
        let last = variants.len() - 1;
        let next = applied(&variants[last], step);
        variants.push(next);
        assert forall|i: int| 0 <= i < all.len() implies step_done(
            variants@[i],
            #[trigger] variants@[i + 1],
            all[i],
        ) by {
            if i < steps@.len() {
                assert(variants@[i] == old(variants)@[i]);
                assert(variants@[i + 1] == old(variants)@[i + 1]);
                assert(all[i] == steps@[i]);
            }
        }
    } else {
        assert(all =~= steps@);
    }
}

/// The original configuration followed by progressively safer variants.
#[verifier::spinoff_prover]
#[verifier::rlimit(100)]
pub fn fallback_configs(original: &LaunchConfig) -> (variants: Vec<LaunchConfig>)
    ensures
        is_fallback_chain(*original, variants@),
{
    let mut variants: Vec<LaunchConfig> = Vec::new();
    variants.push(copy_config(original));
    let ghost mut steps: Seq<Step> = Seq::empty();
    let c = original;
    if str_is(&c.mode, "camera") {
        let zoom = match &c.camera_zoom {
            Some(z) => z.above_unity,
            None => false,
        };
        push_variant(&mut variants, Ghost(steps), c.camera_high_speed, Step::NoHighSpeed);
        proof { steps = steps + step_if(c.camera_high_speed, Step::NoHighSpeed); }
        push_variant(&mut variants, Ghost(steps), c.camera_torch, Step::NoTorch);
        proof { steps = steps + step_if(c.camera_torch, Step::NoTorch); }
        push_variant(&mut variants, Ghost(steps), zoom, Step::NoZoom);
        proof { steps = steps + step_if(zoom, Step::NoZoom); }
        let ar = c.camera_aspect_ratio.is_some();
        push_variant(&mut variants, Ghost(steps), ar, Step::NoAspectRatio);
        proof { steps = steps + step_if(ar, Step::NoAspectRatio); }
        let enc = c.video_encoder.is_some();
        push_variant(&mut variants, Ghost(steps), enc, Step::NoEncoder);
        proof { steps = steps + step_if(enc, Step::NoEncoder); }
        let h = !str_is(&c.codec, "h264");
        push_variant(&mut variants, Ghost(steps), h, Step::H264);
        proof { steps = steps + step_if(h, Step::H264); }
        push_variant(&mut variants, Ghost(steps), c.max_fps > 30, Step::Fps30);
        proof { steps = steps + step_if(c.max_fps > 30, Step::Fps30); }
        push_variant(&mut variants, Ghost(steps), c.max_size > 1280, Step::Size1280);
        proof { steps = steps + step_if(c.max_size > 1280, Step::Size1280); }
        let both = c.camera_id.is_some() && c.camera_facing.is_some();
        push_variant(&mut variants, Ghost(steps), both, Step::NoCameraId);
        proof {
            steps = steps + step_if(both, Step::NoCameraId);
            assert(steps =~= camera_steps(*c));
        }
        return variants;
    }
    if str_is(&c.mode, "desktop") {
        let dex = opt_str_is(&c.desktop_environment, "samsung_dex");
        let nd = !dex && c.desktop_no_decorations;
        push_variant(&mut variants, Ghost(steps), nd, Step::NoDecorations);
        proof { steps = steps + step_if(nd, Step::NoDecorations); }
        let fl = !dex && c.desktop_flex;
        push_variant(&mut variants, Ghost(steps), fl, Step::NoFlex);
        proof { steps = steps + step_if(fl, Step::NoFlex); }
        let sa = !dex && !opt_str_is(&c.desktop_start_app, "com.android.settings");
        push_variant(&mut variants, Ghost(steps), sa, Step::SettingsApp);
        proof { steps = steps + step_if(sa, Step::SettingsApp); }
        let w = match c.desktop_width {
            Some(w) => w,
            None => 1920,
        };
        let h = match c.desktop_height {
            Some(h) => h,
            None => 1080,
        };
        let sd = !dex && (w > 1280 || h > 720);
        push_variant(&mut variants, Ghost(steps), sd, Step::SmallDisplay);
        proof { steps = steps + step_if(sd, Step::SmallDisplay); }
        let enc = c.video_encoder.is_some();
        push_variant(&mut variants, Ghost(steps), enc, Step::NoEncoder);
        proof { steps = steps + step_if(enc, Step::NoEncoder); }
        let hc = !str_is(&c.codec, "h264");
        push_variant(&mut variants, Ghost(steps), hc, Step::H264);
        proof { steps = steps + step_if(hc, Step::H264); }
        push_variant(&mut variants, Ghost(steps), c.max_fps > 30, Step::Fps30);
        proof {
            steps = steps + step_if(c.max_fps > 30, Step::Fps30);
            assert(steps =~= desktop_steps(*c));
        }
        return variants;
    }
    let enc = c.video_encoder.is_some();
    push_variant(&mut variants, Ghost(steps), enc, Step::NoEncoder);
    proof { steps = steps + step_if(enc, Step::NoEncoder); }
    let hc = !str_is(&c.codec, "h264");
    push_variant(&mut variants, Ghost(steps), hc, Step::H264);
    proof { steps = steps + step_if(hc, Step::H264); }
    push_variant(&mut variants, Ghost(steps), c.max_size > 1280, Step::Size1280);
    proof { steps = steps + step_if(c.max_size > 1280, Step::Size1280); }
    push_variant(&mut variants, Ghost(steps), c.max_fps > 30, Step::Fps30);
    proof {
        steps = steps + step_if(c.max_fps > 30, Step::Fps30);
        assert(steps =~= mirror_steps(*c));
    }
    variants
}

// ---------------------------------------------------------------------------
// What the fallback chain guarantees
// ---------------------------------------------------------------------------

/// `n` takes no risk that `p` did not: the same phone and mode, no higher frame rate or
/// size, no risky option switched on that `p` had off, and H.264 kept once chosen.
#[verifier::opaque]
pub open spec fn no_riskier(p: LaunchConfig, n: LaunchConfig) -> bool {
    &&& n.serial == p.serial
    &&& n.mode == p.mode
    &&& n.max_fps <= p.max_fps
    &&& n.max_size <= p.max_size
    &&& (n.camera_high_speed ==> p.camera_high_speed)
    &&& (n.camera_torch ==> p.camera_torch)
    &&& (zoom_above_unity(n.camera_zoom) ==> zoom_above_unity(p.camera_zoom))
    &&& (n.camera_aspect_ratio is Some ==> p.camera_aspect_ratio is Some)
    &&& (n.video_encoder is Some ==> p.video_encoder is Some)
    &&& (p.codec@ == "h264"@ ==> n.codec@ == "h264"@)
    &&& (n.camera_id is Some ==> p.camera_id is Some)
    &&& (n.desktop_no_decorations ==> p.desktop_no_decorations)
    &&& (n.desktop_flex ==> p.desktop_flex)
}

proof fn lemma_no_riskier_trans(a: LaunchConfig, b: LaunchConfig, c: LaunchConfig)
    requires
        no_riskier(a, b),
        no_riskier(b, c),
    ensures
        no_riskier(a, c),
{
    reveal(no_riskier);
}

proof fn lemma_no_riskier_refl(a: LaunchConfig)
    ensures
        no_riskier(a, a),
{
    reveal(no_riskier);
}

/// A chain keeps at least 30 frames per second while the requested configuration asked for
/// more, and at least 1280 pixels while it asked for more.
pub open spec fn floors_kept(c: LaunchConfig, x: LaunchConfig) -> bool {
    &&& (c.max_fps > 30 ==> x.max_fps >= 30)
    &&& (c.max_size > 1280 ==> x.max_size >= 1280)
}

/// A step that lowers the frame rate or the size to 30 and 1280 is only taken when the
/// requested configuration asked for more.
pub open spec fn guarded(c: LaunchConfig, s: Step) -> bool {
    &&& (s == Step::Fps30 ==> c.max_fps > 30)
    &&& (s == Step::Size1280 ==> c.max_size > 1280)
}

pub open spec fn all_guarded(c: LaunchConfig, st: Seq<Step>) -> bool {
    forall|i: int| 0 <= i < st.len() ==> guarded(c, #[trigger] st[i])
}

proof fn lemma_guarded_add(c: LaunchConfig, a: Seq<Step>, b: Seq<Step>)
    requires
        all_guarded(c, a),
        all_guarded(c, b),
    ensures
        all_guarded(c, a + b),
{
    assert forall|i: int| 0 <= i < (a + b).len() implies guarded(c, #[trigger] (a + b)[i]) by {
        if i < a.len() {
            assert((a + b)[i] == a[i]);
        } else {
            assert((a + b)[i] == b[i - a.len()]);
        }
    }
}

proof fn lemma_guarded_if(c: LaunchConfig, b: bool, s: Step)
    requires
        b ==> guarded(c, s),
    ensures
        all_guarded(c, step_if(b, s)),
{
}

proof fn lemma_steps_guarded(c: LaunchConfig)
    ensures
        all_guarded(c, fallback_steps(c)),
{
    let enc = step_if(c.video_encoder is Some, Step::NoEncoder);
    let h = step_if(c.codec@ != "h264"@, Step::H264);
    let f = step_if(c.max_fps > 30, Step::Fps30);
    let sz = step_if(c.max_size > 1280, Step::Size1280);
    lemma_guarded_if(c, c.video_encoder is Some, Step::NoEncoder);
    lemma_guarded_if(c, c.codec@ != "h264"@, Step::H264);
    lemma_guarded_if(c, c.max_fps > 30, Step::Fps30);
    lemma_guarded_if(c, c.max_size > 1280, Step::Size1280);
    if c.mode@ == "camera"@ {
        let a = step_if(c.camera_high_speed, Step::NoHighSpeed);
        let b = step_if(c.camera_torch, Step::NoTorch);
        let z = step_if(zoom_above_unity(c.camera_zoom), Step::NoZoom);
        let r = step_if(c.camera_aspect_ratio is Some, Step::NoAspectRatio);
        let ci = step_if(c.camera_id is Some && c.camera_facing is Some, Step::NoCameraId);
        lemma_guarded_if(c, c.camera_high_speed, Step::NoHighSpeed);
        lemma_guarded_if(c, c.camera_torch, Step::NoTorch);
        lemma_guarded_if(c, zoom_above_unity(c.camera_zoom), Step::NoZoom);
        lemma_guarded_if(c, c.camera_aspect_ratio is Some, Step::NoAspectRatio);
        lemma_guarded_if(c, c.camera_id is Some && c.camera_facing is Some, Step::NoCameraId);
        lemma_guarded_add(c, a, b);
        lemma_guarded_add(c, a + b, z);
        lemma_guarded_add(c, a + b + z, r);
        lemma_guarded_add(c, a + b + z + r, enc);
        lemma_guarded_add(c, a + b + z + r + enc, h);
        lemma_guarded_add(c, a + b + z + r + enc + h, f);
        lemma_guarded_add(c, a + b + z + r + enc + h + f, sz);
        lemma_guarded_add(c, a + b + z + r + enc + h + f + sz, ci);
    } else if c.mode@ == "desktop"@ {
        let d = if !is_samsung_dex(c) {
            let p1 = step_if(c.desktop_no_decorations, Step::NoDecorations);
            let p2 = step_if(c.desktop_flex, Step::NoFlex);
            let p3 = step_if(
                !opt_is(c.desktop_start_app, "com.android.settings"@),
                Step::SettingsApp,
            );
            let p4 = step_if(large_display(c), Step::SmallDisplay);
            lemma_guarded_if(c, c.desktop_no_decorations, Step::NoDecorations);
            lemma_guarded_if(c, c.desktop_flex, Step::NoFlex);
            lemma_guarded_if(
                c,
                !opt_is(c.desktop_start_app, "com.android.settings"@),
                Step::SettingsApp,
            );
            lemma_guarded_if(c, large_display(c), Step::SmallDisplay);
            lemma_guarded_add(c, p1, p2);
            lemma_guarded_add(c, p1 + p2, p3);
            lemma_guarded_add(c, p1 + p2 + p3, p4);
            p1 + p2 + p3 + p4
        } else {
            Seq::<Step>::empty()
        };
        lemma_guarded_add(c, d, enc);
        lemma_guarded_add(c, d + enc, h);
        lemma_guarded_add(c, d + enc + h, f);
    } else {
        lemma_guarded_add(c, enc, h);
        lemma_guarded_add(c, enc + h, sz);
        lemma_guarded_add(c, enc + h + sz, f);
    }
}

/// One link of the chain: the step at `k` turns variant `k` into variant `k + 1`.
proof fn lemma_link(c: LaunchConfig, v: Seq<LaunchConfig>, k: int)
    requires
        is_fallback_chain(c, v),
        0 <= k < v.len() - 1,
    ensures
        step_done(v[k], v[k + 1], fallback_steps(c)[k]),
{
    assert(v[k] == v[k]);
    assert(v[k + 1] == v[k + 1]);
}

proof fn lemma_link_no_riskier(c: LaunchConfig, p: LaunchConfig, n: LaunchConfig, s: Step)
    requires
        step_done(p, n, s),
        floors_kept(c, p),
        s == Step::Fps30 ==> c.max_fps > 30,
        s == Step::Size1280 ==> c.max_size > 1280,
    ensures
        no_riskier(p, n),
        floors_kept(c, n),
{
    reveal(no_riskier);
}

proof fn lemma_chain_upto(c: LaunchConfig, v: Seq<LaunchConfig>, j: int)
    requires
        is_fallback_chain(c, v),
        0 <= j < v.len(),
    ensures
        floors_kept(c, v[j]),
        forall|i: int| 0 <= i <= j ==> no_riskier(#[trigger] v[i], v[j]),
    decreases j,
{
    lemma_no_riskier_refl(v[j]);
    if j > 0 {
        lemma_chain_upto(c, v, j - 1);
        lemma_link(c, v, j - 1);
        lemma_steps_guarded(c);
        assert(guarded(c, fallback_steps(c)[j - 1]));
        lemma_link_no_riskier(c, v[j - 1], v[j], fallback_steps(c)[j - 1]);
        assert forall|i: int| 0 <= i <= j implies no_riskier(#[trigger] v[i], v[j]) by {
            if i < j {
                lemma_no_riskier_trans(v[i], v[j - 1], v[j]);
            }
        }
    } else {
        assert(v[0] == c);
    }
}

/// Every fallback variant is at least as safe as every variant before it: it targets the
/// same phone and mode, never raises the frame rate or size, and never turns a risky option
/// back on.
pub proof fn lemma_fallbacks_never_riskier(c: LaunchConfig, v: Seq<LaunchConfig>)
    requires
        is_fallback_chain(c, v),
    ensures
        forall|i: int, j: int| 0 <= i <= j < v.len() ==> no_riskier(#[trigger] v[i], #[trigger] v[j]),
{
    assert forall|i: int, j: int| 0 <= i <= j < v.len() implies no_riskier(
        #[trigger] v[i],
        #[trigger] v[j],
    ) by {
        lemma_chain_upto(c, v, j);
    }
}

/// The step at `k` holds for the variant after it, and so for the last variant as far as
/// no step takes it back.
proof fn lemma_after_step(c: LaunchConfig, v: Seq<LaunchConfig>, k: int)
    requires
        is_fallback_chain(c, v),
        0 <= k < fallback_steps(c).len(),
    ensures
        step_done(v[k], v[k + 1], fallback_steps(c)[k]),
        no_riskier(v[k + 1], v[v.len() - 1]),
{
    lemma_link(c, v, k);
    lemma_chain_upto(c, v, v.len() - 1);
    assert(no_riskier(v[k + 1], v[v.len() - 1]));
}

/// The last variant is the safest one tried: H.264, no explicit encoder, at most 30 frames
/// per second; for the camera also no torch, no high-speed capture and no zoom, and for the
/// camera and mirroring at most 1280 pixels.
pub open spec fn safest(c: LaunchConfig, last: LaunchConfig) -> bool {
    &&& last.codec@ == "h264"@
    &&& last.video_encoder is None
    &&& last.max_fps <= 30
    &&& (c.mode@ == "camera"@ ==> !last.camera_torch && !last.camera_high_speed
        && !zoom_above_unity(last.camera_zoom) && last.camera_aspect_ratio is None)
    &&& (c.mode@ != "desktop"@ ==> last.max_size <= 1280)
}

/// What a step at `k` guarantees of the last variant.
proof fn lemma_settles(c: LaunchConfig, v: Seq<LaunchConfig>, k: int, s: Step)
    requires
        is_fallback_chain(c, v),
        0 <= k < fallback_steps(c).len(),
        fallback_steps(c)[k] == s,
    ensures
        s == Step::H264 ==> v.last().codec@ == "h264"@,
        s == Step::NoEncoder ==> v.last().video_encoder is None,
        s == Step::Fps30 ==> v.last().max_fps <= 30,
        s == Step::Size1280 ==> v.last().max_size <= 1280,
        s == Step::NoTorch ==> !v.last().camera_torch,
        s == Step::NoHighSpeed ==> !v.last().camera_high_speed,
        s == Step::NoZoom ==> !zoom_above_unity(v.last().camera_zoom),
        s == Step::NoAspectRatio ==> v.last().camera_aspect_ratio is None,
{
    lemma_after_step(c, v, k);
    reveal(no_riskier);
}

/// What the requested configuration itself guarantees of the last variant.
proof fn lemma_requested_settles(c: LaunchConfig, v: Seq<LaunchConfig>)
    requires
        is_fallback_chain(c, v),
    ensures
        c.codec@ == "h264"@ ==> v.last().codec@ == "h264"@,
        c.video_encoder is None ==> v.last().video_encoder is None,
        c.max_fps <= 30 ==> v.last().max_fps <= 30,
        c.max_size <= 1280 ==> v.last().max_size <= 1280,
        !c.camera_torch ==> !v.last().camera_torch,
        !c.camera_high_speed ==> !v.last().camera_high_speed,
        !zoom_above_unity(c.camera_zoom) ==> !zoom_above_unity(v.last().camera_zoom),
        c.camera_aspect_ratio is None ==> v.last().camera_aspect_ratio is None,
{
    lemma_chain_upto(c, v, v.len() - 1);
    assert(v[0] == c);
    assert(no_riskier(v[0], v[v.len() - 1]));
    reveal(no_riskier);
}

#[verifier::spinoff_prover]
#[verifier::rlimit(50)]
proof fn lemma_camera_safest(c: LaunchConfig, v: Seq<LaunchConfig>)
    requires
        is_fallback_chain(c, v),
        c.mode@ == "camera"@,
    ensures
        safest(c, v.last()),
{
    lemma_requested_settles(c, v);
    let st = fallback_steps(c);
    let a = step_if(c.camera_high_speed, Step::NoHighSpeed);
    let b = step_if(c.camera_torch, Step::NoTorch);
    let z = step_if(zoom_above_unity(c.camera_zoom), Step::NoZoom);
    let r = step_if(c.camera_aspect_ratio is Some, Step::NoAspectRatio);
    let enc = step_if(c.video_encoder is Some, Step::NoEncoder);
    let h = step_if(c.codec@ != "h264"@, Step::H264);
    let f = step_if(c.max_fps > 30, Step::Fps30);
    let sz = step_if(c.max_size > 1280, Step::Size1280);
    let ci = step_if(c.camera_id is Some && c.camera_facing is Some, Step::NoCameraId);
    assert(st == camera_steps(c));
    assert(st == a + b + z + r + enc + h + f + sz + ci);
    if c.camera_high_speed {
        lemma_settles(c, v, 0, Step::NoHighSpeed);
    }
    if c.camera_torch {
        lemma_settles(c, v, a.len() as int, Step::NoTorch);
    }
    if zoom_above_unity(c.camera_zoom) {
        lemma_settles(c, v, (a.len() + b.len()) as int, Step::NoZoom);
    }
    if c.camera_aspect_ratio is Some {
        lemma_settles(c, v, (a.len() + b.len() + z.len()) as int, Step::NoAspectRatio);
    }
    if c.video_encoder is Some {
        lemma_settles(c, v, (a.len() + b.len() + z.len() + r.len()) as int, Step::NoEncoder);
    }
    if c.codec@ != "h264"@ {
        lemma_settles(c, v, (a.len() + b.len() + z.len() + r.len() + enc.len()) as int, Step::H264);
    }
    if c.max_fps > 30 {
        lemma_settles(
            c,
            v,
            (a.len() + b.len() + z.len() + r.len() + enc.len() + h.len()) as int,
            Step::Fps30,
        );
    }
    if c.max_size > 1280 {
        lemma_settles(
            c,
            v,
            (a.len() + b.len() + z.len() + r.len() + enc.len() + h.len() + f.len()) as int,
            Step::Size1280,
        );
    }
}

proof fn lemma_desktop_safest(c: LaunchConfig, v: Seq<LaunchConfig>)
    requires
        is_fallback_chain(c, v),
        c.mode@ == "desktop"@,
    ensures
        safest(c, v.last()),
{
    crate::devices::lemma_modes_distinct();
    assert(c.mode@ != "camera"@);
    lemma_requested_settles(c, v);
    let st = fallback_steps(c);
    assert(st == desktop_steps(c));
    let d = if !is_samsung_dex(c) {
        step_if(c.desktop_no_decorations, Step::NoDecorations) + step_if(
            c.desktop_flex,
            Step::NoFlex,
        ) + step_if(
            !opt_is(c.desktop_start_app, "com.android.settings"@),
            Step::SettingsApp,
        ) + step_if(large_display(c), Step::SmallDisplay)
    } else {
        Seq::<Step>::empty()
    };
    let enc = step_if(c.video_encoder is Some, Step::NoEncoder);
    let h = step_if(c.codec@ != "h264"@, Step::H264);
    let f = step_if(c.max_fps > 30, Step::Fps30);
    assert(st == d + enc + h + f);
    if c.video_encoder is Some {
        lemma_settles(c, v, d.len() as int, Step::NoEncoder);
    }
    if c.codec@ != "h264"@ {
        lemma_settles(c, v, (d.len() + enc.len()) as int, Step::H264);
    }
    if c.max_fps > 30 {
        lemma_settles(c, v, (d.len() + enc.len() + h.len()) as int, Step::Fps30);
    }
}

proof fn lemma_mirror_safest(c: LaunchConfig, v: Seq<LaunchConfig>)
    requires
        is_fallback_chain(c, v),
        c.mode@ != "camera"@,
        c.mode@ != "desktop"@,
    ensures
        safest(c, v.last()),
{
    lemma_requested_settles(c, v);
    let st = fallback_steps(c);
    let enc = step_if(c.video_encoder is Some, Step::NoEncoder);
    let h = step_if(c.codec@ != "h264"@, Step::H264);
    let sz = step_if(c.max_size > 1280, Step::Size1280);
    let f = step_if(c.max_fps > 30, Step::Fps30);
    assert(st == enc + h + sz + f);
    if c.video_encoder is Some {
        lemma_settles(c, v, 0, Step::NoEncoder);
    }
    if c.codec@ != "h264"@ {
        lemma_settles(c, v, enc.len() as int, Step::H264);
    }
    if c.max_size > 1280 {
        lemma_settles(c, v, (enc.len() + h.len()) as int, Step::Size1280);
    }
    if c.max_fps > 30 {
        lemma_settles(c, v, (enc.len() + h.len() + sz.len()) as int, Step::Fps30);
    }
}

/// The last fallback variant is the safest configuration the chain tries: H.264 with no
/// named encoder, at most 30 frames per second, and (but in Desktop Mode) at most 1280
/// pixels; a camera launch also ends without torch, high-speed capture, zoom above 1 and a
/// requested aspect ratio.
pub proof fn lemma_last_fallback_is_safest(c: LaunchConfig, v: Seq<LaunchConfig>)
    requires
        is_fallback_chain(c, v),
    ensures
        safest(c, v.last()),
{
    if c.mode@ == "camera"@ {
        lemma_camera_safest(c, v);
    } else if c.mode@ == "desktop"@ {
        lemma_desktop_safest(c, v);
    } else {
        lemma_mirror_safest(c, v);
    }
}

// ---------------------------------------------------------------------------
// What the arguments guarantee
// ---------------------------------------------------------------------------

/// An argument that cannot be a frame-rate cap: it differs from `--max-fps=` in its third
/// or its seventh character.
pub open spec fn unlike_fps_cap(a: Seq<char>) -> bool {
    (a.len() > 2 && a[2] != 'm') || (a.len() > 6 && a[6] != 'f')
}

pub open spec fn none_like_fps_cap(s: Seq<Seq<char>>) -> bool {
    forall|j: int| 0 <= j < s.len() ==> unlike_fps_cap(#[trigger] s[j])
}

proof fn lemma_unlike_fps_cap(a: Seq<char>)
    requires
        unlike_fps_cap(a),
    ensures
        !crate::text::starts_with(a, "--max-fps="@),
{
    reveal_strlit("--max-fps=");
    let p = "--max-fps="@;
    if crate::text::starts_with(a, p) {
        assert(a.take(p.len() as int)[2] == a[2]);
        assert(a.take(p.len() as int)[6] == a[6]);
    }
}

proof fn lemma_none_like_fps_cap_add(a: Seq<Seq<char>>, b: Seq<Seq<char>>)
    requires
        none_like_fps_cap(a),
        none_like_fps_cap(b),
    ensures
        none_like_fps_cap(a + b),
{
    assert forall|j: int| 0 <= j < (a + b).len() implies unlike_fps_cap(#[trigger] (a + b)[j]) by {
        if j < a.len() {
            assert((a + b)[j] == a[j]);
        } else {
            assert((a + b)[j] == b[j - a.len()]);
        }
    }
}

/// Outside Camera and Desktop Mode, no argument after the serial is a frame-rate cap but the
/// one the configuration asks for.
proof fn lemma_plain_rest_unlike_fps_cap(c: LaunchConfig, recording: Option<Seq<char>>)
    ensures
        none_like_fps_cap(arg_if(c.max_size > 0, num_arg("--max-size="@, c.max_size))),
        none_like_fps_cap(video_args(c)),
        none_like_fps_cap(audio_args(c)),
        none_like_fps_cap(power_args(c)),
        none_like_fps_cap(tail_args(c, recording)),
{
    reveal_strlit("--max-size=");
    reveal_strlit("--video-codec=");
    reveal_strlit("--video-bit-rate=");
    reveal_strlit("--video-encoder=");
    reveal_strlit("--no-audio");
    reveal_strlit("--audio-source=");
    reveal_strlit("--stay-awake");
    reveal_strlit("--keep-active");
    reveal_strlit("--turn-screen-off");
    reveal_strlit("--show-touches");
    reveal_strlit("--fullscreen");
    reveal_strlit("--capture-orientation=@");
    reveal_strlit("--crop=");
    reveal_strlit("--record=");
    reveal_strlit("--window-title=");
    let ms = arg_if(c.max_size > 0, num_arg("--max-size="@, c.max_size));
    assert(none_like_fps_cap(ms));
    let v = video_args(c);
    assert(unlike_fps_cap(v[0]));
    assert(unlike_fps_cap(v[1]));
    assert(none_like_fps_cap(v));
    assert(none_like_fps_cap(audio_args(c)));
    let awake = arg_if(
        scrcpy_keeps_awake(c),
        if c.mode@ == "desktop"@ {
            "--keep-active"@
        } else {
            "--stay-awake"@
        },
    );
    let off = arg_if(c.turn_screen_off && c.mode@ != "camera"@, "--turn-screen-off"@);
    let touches = arg_if(c.show_touches && c.mode@ != "camera"@, "--show-touches"@);
    let full = arg_if(c.fullscreen, "--fullscreen"@);
    assert(none_like_fps_cap(awake));
    assert(none_like_fps_cap(off));
    assert(none_like_fps_cap(touches));
    assert(none_like_fps_cap(full));
    lemma_none_like_fps_cap_add(awake, off);
    lemma_none_like_fps_cap_add(awake + off, touches);
    lemma_none_like_fps_cap_add(awake + off + touches, full);
    let o = match orientation_arg(c.capture_orientation) {
        Some(a) => seq![a],
        None => Seq::<Seq<char>>::empty(),
    };
    let cr = match safe_crop_spec(c.crop) {
        Some(x) => seq!["--crop="@ + x],
        None => Seq::<Seq<char>>::empty(),
    };
    let rec = match recording {
        Some(p) => seq!["--record="@ + p],
        None => Seq::<Seq<char>>::empty(),
    };
    let title = seq!["--window-title="@ + window_title(c.serial@)];
    assert(none_like_fps_cap(o));
    assert(none_like_fps_cap(cr));
    assert(none_like_fps_cap(rec));
    assert(none_like_fps_cap(title));
    lemma_none_like_fps_cap_add(o, cr);
    lemma_none_like_fps_cap_add(o + cr, rec);
    lemma_none_like_fps_cap_add(o + cr + rec, title);
}

/// The arguments after the serial, outside Camera and Desktop Mode.
proof fn lemma_plain_args_after_serial(c: LaunchConfig, recording: Option<Seq<char>>)
    requires
        c.mode@ != "camera"@,
        c.mode@ != "desktop"@,
    ensures
        launch_args(c, recording).skip(2) == plain_args(c) + (video_args(c) + audio_args(c)
            + power_args(c) + tail_args(c, recording)),
{
    let head = seq!["-s"@, c.serial@];
    let va = video_args(c);
    let aa = audio_args(c);
    let pa = power_args(c);
    let ta = tail_args(c, recording);
    let pl = plain_args(c);
    assert(mode_args(c) == pl);
    assert(launch_args(c, recording) == head + pl + va + aa + pa + ta);
    lemma_skip_two(head, pl, va, aa, pa, ta);
}

proof fn lemma_skip_two<A>(h: Seq<A>, p: Seq<A>, a: Seq<A>, b: Seq<A>, c: Seq<A>, d: Seq<A>)
    requires
        h.len() == 2,
    ensures
        (h + p + a + b + c + d).skip(2) == p + (a + b + c + d),
{
    assert((h + p + a + b + c + d).skip(2) =~= p + (a + b + c + d));
}

/// Outside Camera and Desktop Mode the command line caps the frame rate exactly when the
/// configuration asks for a cap: after the serial it holds `--max-fps=N` for the requested
/// `N` when that is above 0, and otherwise no argument starting with `--max-fps=`.
pub proof fn lemma_plain_modes_cap_frame_rate(c: LaunchConfig, recording: Option<Seq<char>>)
    requires
        c.mode@ != "camera"@,
        c.mode@ != "desktop"@,
    ensures
        c.max_fps > 0 ==> launch_args(c, recording).skip(2).contains(
            "--max-fps="@ + dec(c.max_fps as nat),
        ),
        c.max_fps == 0 ==> forall|i: int|
            2 <= i < launch_args(c, recording).len() ==> !crate::text::starts_with(
                #[trigger] launch_args(c, recording)[i],
                "--max-fps="@,
            ),
{
    lemma_plain_args_after_serial(c, recording);
    let args = launch_args(c, recording);
    let ms = arg_if(c.max_size > 0, num_arg("--max-size="@, c.max_size));
    let fps = arg_if(c.max_fps > 0, num_arg("--max-fps="@, c.max_fps));
    let va = video_args(c);
    let aa = audio_args(c);
    let pa = power_args(c);
    let ta = tail_args(c, recording);
    let rest = va + aa + pa + ta;
    assert(plain_args(c) == ms + fps);
    let after = args.skip(2);
    assert(after == (ms + fps) + rest);
    if c.max_fps > 0 {
        assert(after[ms.len() as int] == num_arg("--max-fps="@, c.max_fps));
    } else {
        lemma_plain_rest_unlike_fps_cap(c, recording);
        lemma_none_like_fps_cap_add(va, aa);
        lemma_none_like_fps_cap_add(va + aa, pa);
        lemma_none_like_fps_cap_add(va + aa + pa, ta);
        assert(ms + fps =~= ms);
        lemma_none_like_fps_cap_add(ms, rest);
        assert forall|i: int| 2 <= i < args.len() implies !crate::text::starts_with(
            #[trigger] args[i],
            "--max-fps="@,
        ) by {
            assert(args[i] == after[i - 2]);
            assert(unlike_fps_cap(after[i - 2]));
            lemma_unlike_fps_cap(args[i]);
        }
    }
}

/// Turning the screen off takes precedence over keeping the phone awake: scrcpy is then
/// never asked to keep it awake.
pub proof fn lemma_screen_off_wins(c: LaunchConfig)
    requires
        c.turn_screen_off,
        c.mode@ != "camera"@,
    ensures
        !scrcpy_keeps_awake(c),
        power_args(c) == seq!["--turn-screen-off"@] + arg_if(c.show_touches, "--show-touches"@)
            + arg_if(c.fullscreen, "--fullscreen"@),
{
    assert(arg_if(false, "--stay-awake"@) =~= Seq::<Seq<char>>::empty());
    assert(power_args(c) =~= seq!["--turn-screen-off"@] + arg_if(c.show_touches, "--show-touches"@)
        + arg_if(c.fullscreen, "--fullscreen"@));
}

/// A Samsung DeX launch captures the display DeX already shows and creates no display of
/// its own.
pub proof fn lemma_dex_creates_no_display(c: LaunchConfig)
    requires
        is_samsung_dex(c),
    ensures
        desktop_args(c) == (match c.desktop_display_id {
            Some(d) => seq!["--display-id="@ + dec(d as nat)],
            None => Seq::<Seq<char>>::empty(),
        }) + arg_if(c.max_fps > 0, "--max-fps="@ + dec(c.max_fps as nat)),
{
}

} // verus!
