//! The scrcpy and ADB runtime: how their output is read, and what is reported about them.
use vstd::prelude::*;
use crate::models::RuntimeStatus;
use crate::text::{chars_of, lines, lines_of, opt_view, string_of, trim, trimmed};

verus! {

broadcast use vstd::string::group_string_axioms;

/// The system the application runs on.
#[derive(Clone, Copy)]
pub enum HostOs {
    Windows,
    Linux,
    MacOs,
    Other,
}

/// The file names under which an executable may be found.
pub open spec fn executable_names_spec(base: Seq<char>, os: HostOs) -> Seq<Seq<char>> {
    match os {
        HostOs::Windows => seq![base + ".exe"@, base],
        _ => seq![base],
    }
}

pub fn executable_names(base: &str, os: HostOs) -> (r: Vec<String>)
    ensures
        crate::text::strs(r@) == executable_names_spec(base@, os),
{
    let mut v: Vec<String> = Vec::new();
    if let HostOs::Windows = os {
        let mut e = String::from_str(base);
        e.append(".exe");
        v.push(e);
    }
    v.push(String::from_str(base));
    assert(crate::text::strs(v@) =~= executable_names_spec(base@, os));
    v
}

/// The program that opens a folder in the system's file manager.
pub open spec fn folder_opener_spec(os: HostOs) -> Seq<char> {
    match os {
        HostOs::Windows => "explorer"@,
        HostOs::MacOs => "open"@,
        _ => "xdg-open"@,
    }
}

pub fn folder_opener(os: HostOs) -> (r: &'static str)
    ensures
        r@ == folder_opener_spec(os),
{
    match os {
        HostOs::Windows => "explorer",
        HostOs::MacOs => "open",
        _ => "xdg-open",
    }
}

/// What a finished command produced: its trimmed standard output, else its trimmed error
/// output; an error when it failed, naming its exit status when it printed nothing.
pub open spec fn output_text_spec(stdout: Seq<char>, stderr: Seq<char>, success: bool, status: Seq<char>) -> Result<
    Seq<char>,
    Seq<char>,
> {
    let text = if trim(stdout).len() == 0 {
        trim(stderr)
    } else {
        trim(stdout)
    };
    if success {
        Ok(text)
    } else if text.len() == 0 {
        Err("Command failed with "@ + status)
    } else {
        Err(text)
    }
}

pub open spec fn result_view(r: Result<String, String>) -> Result<Seq<char>, Seq<char>> {
    match r {
        Ok(v) => Ok(v@),
        Err(e) => Err(e@),
    }
}

/// `stdout` and `stderr` are the command's output read as text, `status` the text of its
/// exit status.
pub fn output_text(stdout: &str, stderr: &str, success: bool, status: &str) -> (r: Result<String, String>)
    ensures
        result_view(r) == output_text_spec(stdout@, stderr@, success, status@),
{
    let out = trimmed(&chars_of(stdout));
    let text = if out.len() == 0 {
        trimmed(&chars_of(stderr))
    } else {
        out
    };
    if success {
        Ok(string_of(&text))
    } else if text.len() == 0 {
        let mut e = String::from_str("Command failed with ");
        e.append(status);
        Err(e)
    } else {
        Err(string_of(&text))
    }
}

/// The version a tool reports: the first line of its output, when it ran.
pub open spec fn tool_version_spec(output: Result<Seq<char>, Seq<char>>) -> Option<Seq<char>> {
    match output {
        Ok(t) => if lines(t).len() > 0 {
            Some(lines(t)[0])
        } else {
            None
        },
        Err(_) => None,
    }
}

pub fn tool_version(output: &Result<String, String>) -> (r: Option<String>)
    ensures
        opt_view(r) == tool_version_spec(result_view(*output)),
{
    match output {
        Ok(t) => {
            let ls = lines_of(&chars_of(t.as_str()));
            if ls.len() > 0 {
                assert(crate::text::views(ls@)[0] == ls@[0]@);
                Some(string_of(&ls[0]))
            } else {
                None
            }
        },
        Err(_) => None,
    }
}

pub open spec fn adb_missing_spec(os: HostOs) -> Seq<char> {
    match os {
        HostOs::Windows => "ADB was not found. Use Install official runtime in SCRCPY Studio, install Android Platform Tools, or place adb in the runtime folder."@,
        HostOs::Linux => "ADB was not found. Install your distribution's ADB package (for example 'adb' on Debian/Ubuntu or 'android-tools' on Fedora), then reopen SCRCPY Studio."@,
        _ => "ADB was not found. Install Android Platform Tools or place adb in the runtime folder."@,
    }
}

pub open spec fn found_spec(found: Option<Seq<char>>, missing: Seq<char>) -> Result<Seq<char>, Seq<char>> {
    match found {
        Some(p) => Ok(p),
        None => Err(missing),
    }
}

/// `found` is where ADB was found, if anywhere.
pub fn adb_path(found: Option<String>, os: HostOs) -> (r: Result<String, String>)
    ensures
        result_view(r) == found_spec(opt_view(found), adb_missing_spec(os)),
{
    match found {
        Some(p) => Ok(p),
        None => Err(
            String::from_str(
                match os {
                    HostOs::Windows => "ADB was not found. Use Install official runtime in SCRCPY Studio, install Android Platform Tools, or place adb in the runtime folder.",
                    HostOs::Linux => "ADB was not found. Install your distribution's ADB package (for example 'adb' on Debian/Ubuntu or 'android-tools' on Fedora), then reopen SCRCPY Studio.",
                    _ => "ADB was not found. Install Android Platform Tools or place adb in the runtime folder.",
                },
            ),
        ),
    }
}

pub open spec fn scrcpy_missing_spec() -> Seq<char> {
    "scrcpy was not found. Use Install official runtime in SCRCPY Studio, install official scrcpy, or place it in the runtime folder."@
}

/// `found` is where scrcpy was found, if anywhere.
pub fn scrcpy_path(found: Option<String>) -> (r: Result<String, String>)
    ensures
        result_view(r) == found_spec(opt_view(found), scrcpy_missing_spec()),
{
    match found {
        Some(p) => Ok(p),
        None => Err(
            String::from_str(
                "scrcpy was not found. Use Install official runtime in SCRCPY Studio, install official scrcpy, or place it in the runtime folder.",
            ),
        ),
    }
}

/// The runtime as found: where each tool is and, for a tool that was found, the version it
/// reported.
pub fn runtime_status(
    adb: Option<String>,
    scrcpy: Option<String>,
    adb_version: Option<String>,
    scrcpy_version: Option<String>,
) -> (r: RuntimeStatus)
    ensures
        r.adb_found == adb is Some,
        r.scrcpy_found == scrcpy is Some,
        opt_view(r.adb_path) == opt_view(adb),
        opt_view(r.scrcpy_path) == opt_view(scrcpy),
        opt_view(r.adb_version) == (if adb is Some {
            opt_view(adb_version)
        } else {
            None
        }),
        opt_view(r.scrcpy_version) == (if scrcpy is Some {
            opt_view(scrcpy_version)
        } else {
            None
        }),
{
    let adb_found = adb.is_some();
    let scrcpy_found = scrcpy.is_some();
    RuntimeStatus {
        adb_found,
        scrcpy_found,
        adb_path: adb,
        scrcpy_path: scrcpy,
        adb_version: if adb_found {
            adb_version
        } else {
            None
        },
        scrcpy_version: if scrcpy_found {
            scrcpy_version
        } else {
            None
        },
    }
}

pub open spec fn install_unsupported() -> Seq<char> {
    "Automatic runtime installation is currently available on Windows and Linux x86_64."@
}

/// Whether the official runtime can be installed here; `arch` is the processor architecture.
pub open spec fn install_supported_spec(os: HostOs, arch: Seq<char>) -> Result<(), Seq<char>> {
    match os {
        HostOs::Windows => Ok(()),
        HostOs::Linux => if arch == "x86_64"@ {
            Ok(())
        } else {
            Err(
                "The official prebuilt Linux runtime is available for x86_64 PCs, but this system reports "@
                    + arch + "."@,
            )
        },
        _ => Err(install_unsupported()),
    }
}

pub open spec fn unit_view(r: Result<(), String>) -> Result<(), Seq<char>> {
    match r {
        Ok(()) => Ok(()),
        Err(e) => Err(e@),
    }
}

pub fn install_supported(os: HostOs, arch: &str) -> (r: Result<(), String>)
    ensures
        unit_view(r) == install_supported_spec(os, arch@),
{
    match os {
        HostOs::Windows => Ok(()),
        HostOs::Linux => {
            if crate::text::eq_str(&chars_of(arch), "x86_64") {
                Ok(())
            } else {
                let mut e = String::from_str(
                    "The official prebuilt Linux runtime is available for x86_64 PCs, but this system reports ",
                );
                e.append(arch);
                e.append(".");
                Err(e)
            }
        },
        _ => Err(
            String::from_str(
                "Automatic runtime installation is currently available on Windows and Linux x86_64.",
            ),
        ),
    }
}

/// Whether an installation that completed left the tools in place: on Windows both scrcpy
/// and ADB, on Linux scrcpy.
pub open spec fn install_verified_spec(os: HostOs, scrcpy_found: bool, adb_found: bool) -> Result<(), Seq<char>> {
    match os {
        HostOs::Windows => if !scrcpy_found || !adb_found {
            Err("The runtime download completed, but SCRCPY Studio could not verify scrcpy and ADB."@)
        } else {
            Ok(())
        },
        HostOs::Linux => if !scrcpy_found {
            Err("The runtime download completed, but SCRCPY Studio could not verify scrcpy."@)
        } else {
            Ok(())
        },
        _ => Err(install_unsupported()),
    }
}

pub fn install_verified(os: HostOs, status: &RuntimeStatus) -> (r: Result<(), String>)
    ensures
        unit_view(r) == install_verified_spec(os, status.scrcpy_found, status.adb_found),
{
    match os {
        HostOs::Windows => if !status.scrcpy_found || !status.adb_found {
            Err(
                String::from_str(
                    "The runtime download completed, but SCRCPY Studio could not verify scrcpy and ADB.",
                ),
            )
        } else {
            Ok(())
        },
        HostOs::Linux => if !status.scrcpy_found {
            Err(
                String::from_str(
                    "The runtime download completed, but SCRCPY Studio could not verify scrcpy.",
                ),
            )
        } else {
            Ok(())
        },
        _ => Err(
            String::from_str(
                "Automatic runtime installation is currently available on Windows and Linux x86_64.",
            ),
        ),
    }
}

} // verus!
