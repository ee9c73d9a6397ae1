//! What a Desktop Mode probe or launch records while scrcpy runs.
use vstd::prelude::*;
use crate::desktop::{
    copy_diagnostics, density_spec, diag_pairs, display_id_arg_fn, display_id_from_args,
    display_name, display_name_spec, observed_windowing_mode, parse_density, parse_resolution,
    resolution_spec, running_activity, running_activity_spec, windowing_mode_spec,
    PlatformSnapshot,
};
use crate::models::DesktopDiagnostics;
use crate::number::{dec, u128_text, u32_text, u64_text};
use crate::text::{
    chars_of, first_some, is_alnum, is_ascii_alphanumeric, opt_view, str_is, string_of, strs,
    trim, trimmed,
};

verus! {

broadcast use vstd::string::group_string_axioms;

pub open spec fn or_opt(a: Option<Seq<char>>, b: Option<Seq<char>>) -> Option<Seq<char>> {
    match a {
        Some(v) => Some(v),
        None => b,
    }
}

/// The evidence line that a `wm` reading adds.
pub open spec fn wm_evidence(what: Seq<char>, id: u32, output: Seq<char>) -> Seq<char> {
    "wm "@ + what + " -d "@ + dec(id as nat) + ": "@ + trim(output)
}

/// The diagnostics `n` are `o` with what was read about display `id`: its size and density
/// from `wm` (`None` where the command failed), and its activity, windowing mode and name
/// from `dumpsys activity activities`, `dumpsys window displays` and `dumpsys display` (empty
/// where they failed). A reading that says nothing keeps what was known.
pub open spec fn display_collected(
    o: DesktopDiagnostics,
    n: DesktopDiagnostics,
    id: u32,
    size: Option<Seq<char>>,
    density: Option<Seq<char>>,
    activity: Seq<char>,
    window: Seq<char>,
    display: Seq<char>,
) -> bool {
    &&& n.display_id == Some(id)
    &&& opt_view(n.resolution) == match size {
        Some(s) => or_opt(resolution_spec(s), opt_view(o.resolution)),
        None => opt_view(o.resolution),
    }
    &&& n.density == match density {
        Some(t) => match density_spec(t) {
            Some(d) => Some(d),
            None => o.density,
        },
        None => o.density,
    }
    &&& strs(n.platform_evidence@) == strs(o.platform_evidence@) + (match size {
        Some(s) => seq![wm_evidence("size"@, id, s)],
        None => Seq::<Seq<char>>::empty(),
    }) + (match density {
        Some(t) => seq![wm_evidence("density"@, id, t)],
        None => Seq::<Seq<char>>::empty(),
    })
    &&& opt_view(n.launcher_activity) == or_opt(
        running_activity_spec(activity, id),
        running_activity_spec(window, id),
    )
    &&& n.windowing_mode@ == (if windowing_mode_spec(activity, id) == "unknown"@ {
        windowing_mode_spec(window, id)
    } else {
        windowing_mode_spec(activity, id)
    })
    &&& opt_view(n.display_name) == or_opt(
        display_name_spec(display, id),
        display_name_spec(window, id),
    )
    &&& n.command == o.command
    &&& n.exit_result == o.exit_result
    &&& n.relevant_settings == o.relevant_settings
    &&& n.scrcpy_output == o.scrcpy_output
    &&& n.log_path == o.log_path
}

fn wm_evidence_exec(what: &str, id: u32, output: &str) -> (r: String)
    ensures
        r@ == wm_evidence(what@, id, output@),
{
    let mut r = String::from_str("wm ");
    r.append(what);
    r.append(" -d ");
    r.append(u32_text(id).as_str());
    r.append(": ");
    r.append(string_of(&trimmed(&chars_of(output))).as_str());
    r
}

pub fn collect_display_diagnostics(
    diagnostics: &mut DesktopDiagnostics,
    display_id: u32,
    size: Option<&str>,
    density: Option<&str>,
    activity: &str,
    window: &str,
    display: &str,
)
    ensures
        display_collected(
            *old(diagnostics),
            *final(diagnostics),
            display_id,
            match size {
                Some(s) => Some(s@),
                None => None,
            },
            match density {
                Some(t) => Some(t@),
                None => None,
            },
            activity@,
            window@,
            display@,
        ),
{
    let ghost ev0 = strs(diagnostics.platform_evidence@);
    diagnostics.display_id = Some(display_id);
    if let Some(s) = size {
        match parse_resolution(s) {
            Some(r) => {
                diagnostics.resolution = Some(r);
            },
            None => {},
        }
        let e = wm_evidence_exec("size", display_id, s);
        let ghost b = strs(diagnostics.platform_evidence@);
        diagnostics.platform_evidence.push(e);
        assert(strs(diagnostics.platform_evidence@) =~= b.push(e@));
    }
    let ghost ev1 = strs(diagnostics.platform_evidence@);
    if let Some(t) = density {
        match parse_density(t) {
            Some(d) => {
                diagnostics.density = Some(d);
            },
            None => {},
        }
        let e = wm_evidence_exec("density", display_id, t);
        let ghost b = strs(diagnostics.platform_evidence@);
        diagnostics.platform_evidence.push(e);
        assert(strs(diagnostics.platform_evidence@) =~= b.push(e@));
    }
    diagnostics.launcher_activity = match running_activity(activity, display_id) {
        Some(a) => Some(a),
        None => running_activity(window, display_id),
    };
    let mode = observed_windowing_mode(activity, display_id);
    diagnostics.windowing_mode = if str_is(&mode, "unknown") {
        observed_windowing_mode(window, display_id)
    } else {
        mode
    };
    diagnostics.display_name = match display_name(display, display_id) {
        Some(n) => Some(n),
        None => display_name(window, display_id),
    };
    assert(strs(diagnostics.platform_evidence@) =~= ev0 + (match size {
        Some(s) => seq![wm_evidence("size"@, display_id, s@)],
        None => Seq::<Seq<char>>::empty(),
    }) + (match density {
        Some(t) => seq![wm_evidence("density"@, display_id, t@)],
        None => Seq::<Seq<char>>::empty(),
    }));
}

/// The text of an integer as `Display` prints it.
pub open spec fn int_text(i: int) -> Seq<char> {
    if i < 0 {
        "-"@ + dec((-i) as nat)
    } else {
        dec(i as nat)
    }
}

/// How a finished scrcpy run is described: its exit code, or the status text when it has
/// none (killed by a signal).
pub open spec fn exit_text(code: Option<i32>, status: Seq<char>) -> Seq<char> {
    match code {
        Some(c) => "exit code "@ + int_text(c as int),
        None => status,
    }
}

pub fn format_exit(code: Option<i32>, status: &str) -> (r: String)
    ensures
        r@ == exit_text(code, status@),
{
    match code {
        Some(c) => {
            let mut r = String::from_str("exit code ");
            if c < 0 {
                r.append("-");
                let m: i64 = -(c as i64);
                r.append(u64_text(m as u64).as_str());
            } else {
                r.append(u64_text(c as u64).as_str());
            }
            r
        },
        None => String::from_str(status),
    }
}

/// A serial number as it appears in a file name: every character that is not an ASCII
/// letter or digit becomes `-`.
pub open spec fn file_safe(s: Seq<char>) -> Seq<char> {
    s.map_values(|c: char| if is_alnum(c) { c } else { '-' })
}

/// The name of a diagnostics log of kind `kind` for a phone, written at `stamp`
/// (milliseconds since the Unix epoch).
pub open spec fn log_name_spec(kind: Seq<char>, serial: Seq<char>, stamp: u128) -> Seq<char> {
    kind + "-"@ + file_safe(serial) + "-"@ + dec(stamp as nat) + ".json"@
}

pub fn diagnostic_log_name(kind: &str, serial: &str, stamp: u128) -> (r: String)
    ensures
        r@ == log_name_spec(kind@, serial@, stamp),
{
    let s = chars_of(serial);
    let mut safe: Vec<char> = Vec::new();
    let mut i: usize = 0;
    while i < s.len()
        invariant
            i <= s@.len(),
            safe@ == file_safe(s@.take(i as int)),
        decreases s@.len() - i,
    {
        let c = s[i];
        safe.push(
            if is_ascii_alphanumeric(c) {
                c
            } else {
                '-'
            },
        );
        i += 1;
        assert(safe@ =~= file_safe(s@.take(i as int)));
    }
    assert(s@.take(s@.len() as int) =~= s@);
    let mut r = String::from_str(kind);
    r.append("-");
    r.append(string_of(&safe).as_str());
    r.append("-");
    r.append(u128_text(stamp).as_str());
    r.append(".json");
    r
}

/// The argument that makes the probe record to a throw-away file.
pub fn record_arg(path: &str) -> (r: String)
    ensures
        r@ == "--record="@ + path@,
{
    let mut r = String::from_str("--record=");
    r.append(path);
    r
}

/// Diagnostics that only hold the command and the platform's settings and evidence.
pub open spec fn started_with(d: DesktopDiagnostics, command: Seq<char>, platform: PlatformSnapshot) -> bool {
    &&& d.command@ == command
    &&& diag_pairs(d.relevant_settings@) == diag_pairs(platform.settings@)
    &&& strs(d.platform_evidence@) == strs(platform.evidence@)
    &&& d.exit_result@ == "not run"@
    &&& d.display_name is None
    &&& d.resolution is None
    &&& d.density is None
    &&& d.launcher_activity is None
    &&& d.windowing_mode@ == "unknown"@
    &&& d.scrcpy_output@ == Seq::<char>::empty()
    &&& d.log_path is None
}

/// The diagnostics a virtual-display probe starts with.
pub fn probe_diagnostics(command: String, platform: &PlatformSnapshot) -> (d: DesktopDiagnostics)
    ensures
        started_with(d, command@, *platform),
        d.display_id is None,
{
    let mut d = DesktopDiagnostics::default();
    d.command = command;
    d.relevant_settings = copy_diagnostics(&platform.settings);
    d.platform_evidence = crate::text::copy_strings(&platform.evidence);
    d
}

/// The diagnostics a Desktop Mode launch starts with: the display it targets is the one
/// named by `--display-id=` in its arguments.
pub fn launch_diagnostics(command: String, args: &Vec<String>, platform: &PlatformSnapshot) -> (d:
    DesktopDiagnostics)
    ensures
        started_with(d, command@, *platform),
        d.display_id == first_some(strs(args@), display_id_arg_fn()),
{
    let mut d = probe_diagnostics(command, platform);
    d.display_id = display_id_from_args(args);
    d
}

/// Records the display scrcpy reported creating: its size and density, and for a launch its
/// id (a probe learns the id when the display's diagnostics are collected).
pub fn record_created_display(
    diagnostics: &mut DesktopDiagnostics,
    width: u32,
    height: u32,
    density: u32,
    display_id: Option<u32>,
)
    ensures
        opt_view(final(diagnostics).resolution) == Some(dec(width as nat) + "x"@ + dec(height as nat)),
        final(diagnostics).density == Some(density),
        final(diagnostics).display_id == match display_id {
            Some(id) => Some(id),
            None => old(diagnostics).display_id,
        },
        final(diagnostics).command == old(diagnostics).command,
        final(diagnostics).exit_result == old(diagnostics).exit_result,
        final(diagnostics).display_name == old(diagnostics).display_name,
        final(diagnostics).launcher_activity == old(diagnostics).launcher_activity,
        final(diagnostics).windowing_mode == old(diagnostics).windowing_mode,
        final(diagnostics).relevant_settings == old(diagnostics).relevant_settings,
        final(diagnostics).platform_evidence == old(diagnostics).platform_evidence,
        final(diagnostics).scrcpy_output == old(diagnostics).scrcpy_output,
        final(diagnostics).log_path == old(diagnostics).log_path,
{
    let mut r = u32_text(width);
    r.append("x");
    r.append(u32_text(height).as_str());
    diagnostics.resolution = Some(r);
    diagnostics.density = Some(density);
    if let Some(id) = display_id {
        diagnostics.display_id = Some(id);
    }
}

/// Finishes a probe's diagnostics once scrcpy exited (`exited_ok` when it exited
/// successfully): the probe succeeded when scrcpy exited successfully and a display was
/// seen; a failed probe that printed nothing says so.
pub fn finish_probe(
    diagnostics: &mut DesktopDiagnostics,
    exit_result: String,
    output: String,
    exited_ok: bool,
) -> (success: bool)
    ensures
        success == (exited_ok && old(diagnostics).display_id is Some),
        final(diagnostics).exit_result@ == exit_result@,
        final(diagnostics).scrcpy_output@ == (if !success && trim(output@).len() == 0 {
            "scrcpy produced no captured output."@
        } else {
            output@
        }),
        final(diagnostics).command == old(diagnostics).command,
        final(diagnostics).display_id == old(diagnostics).display_id,
        final(diagnostics).display_name == old(diagnostics).display_name,
        final(diagnostics).resolution == old(diagnostics).resolution,
        final(diagnostics).density == old(diagnostics).density,
        final(diagnostics).launcher_activity == old(diagnostics).launcher_activity,
        final(diagnostics).windowing_mode == old(diagnostics).windowing_mode,
        final(diagnostics).relevant_settings == old(diagnostics).relevant_settings,
        final(diagnostics).platform_evidence == old(diagnostics).platform_evidence,
        final(diagnostics).log_path == old(diagnostics).log_path,
{
    let success = exited_ok && diagnostics.display_id.is_some();
    let blank = trimmed(&chars_of(output.as_str())).len() == 0;
    diagnostics.exit_result = exit_result;
    diagnostics.scrcpy_output = if !success && blank {
        String::from_str("scrcpy produced no captured output.")
    } else {
        output
    };
    success
}

/// Finishes a launch's diagnostics after the start-up wait: `exit_result` is how scrcpy
/// exited, `None` while it still runs. The launch started when scrcpy still runs.
pub fn finish_launch(diagnostics: &mut DesktopDiagnostics, exit_result: Option<String>, output: String) -> (started:
    bool)
    ensures
        started == exit_result is None,
        final(diagnostics).exit_result@ == match exit_result {
            Some(e) => e@,
            None => "running (final exit result will be written when scrcpy closes)"@,
        },
        final(diagnostics).scrcpy_output@ == output@,
        final(diagnostics).command == old(diagnostics).command,
        final(diagnostics).display_id == old(diagnostics).display_id,
        final(diagnostics).display_name == old(diagnostics).display_name,
        final(diagnostics).resolution == old(diagnostics).resolution,
        final(diagnostics).density == old(diagnostics).density,
        final(diagnostics).launcher_activity == old(diagnostics).launcher_activity,
        final(diagnostics).windowing_mode == old(diagnostics).windowing_mode,
        final(diagnostics).relevant_settings == old(diagnostics).relevant_settings,
        final(diagnostics).platform_evidence == old(diagnostics).platform_evidence,
        final(diagnostics).log_path == old(diagnostics).log_path,
{
    let started = exit_result.is_none();
    diagnostics.exit_result = match exit_result {
        Some(e) => e,
        None => String::from_str("running (final exit result will be written when scrcpy closes)"),
    };
    diagnostics.scrcpy_output = output;
    started
}

} // verus!
