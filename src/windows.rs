//! Commands and decisions of the Windows procedures: the installer, the
//! PATH update, the service start, the size probe and a single transfer.

use vstd::prelude::*;
use crate::progress::{EventView, InstallProgress, ProgressEvent};
use crate::text::{contains_text, occurs_in, signed_decimal, signed_decimal_string, trim_text, trimmed};

verus! {

/// The text with every backslash doubled, as PowerShell string literals
/// built by these commands expect.
pub open spec fn escaped(s: Seq<char>) -> Seq<char>
    decreases s.len(),
{
    if s.len() == 0 {
        seq![]
    } else {
        escaped(s.drop_last()) + if s.last() == '\\' { seq!['\\', '\\'] } else { seq![s.last()] }
    }
}

/// Doubles every backslash of `s`.
pub fn escape_backslashes(s: &str) -> (r: String)
    ensures
        r@ == escaped(s@),
{
    let n = s.unicode_len();
    let mut out = String::new();
    let mut i: usize = 0;
    while i < n
        invariant
            n == s@.len(),
            i <= n,
            out@ == escaped(s@.subrange(0, i as int)),
        decreases n - i,
    {
        proof {
            assert(s@.subrange(0, i + 1).drop_last() =~= s@.subrange(0, i as int));
        }
        let c = s.get_char(i);
        proof {
            assert(s@.subrange(0, i + 1).last() == c);
        }
        if c == '\\' {
            out.append("\\\\");
            proof {
                reveal_strlit("\\\\");
                assert("\\\\"@ =~= seq!['\\', '\\']);
            }
        } else {
            let one = s.substring_char(i, i + 1);
            proof {
                assert(one@ =~= seq![c]);
            }
            out.append(one);
        }
        i = i + 1;
    }
    proof {
        assert(s@.subrange(0, n as int) =~= s@);
    }
    out
}

/// The debug form of an exit status: `Some(code)`, or `None` for a signal.
pub open spec fn status_text(code: Option<i32>) -> Seq<char> {
    match code {
        Some(c) => "Some("@ + signed_decimal(c as int) + ")"@,
        None => "None"@,
    }
}

/// The debug form of an exit status.
pub fn status_string(code: Option<i32>) -> (r: String)
    ensures
        r@ == status_text(code),
{
    match code {
        Some(c) => {
            let mut s = String::from_str("Some(");
            let d = signed_decimal_string(c as i64);
            s.append(d.as_str());
            s.append(")");
            s
        },
        None => String::from_str("None"),
    }
}

/// PowerShell command that opens the installer package and waits for it.
pub open spec fn installer_command(installer_path: Seq<char>) -> Seq<char> {
    "Start-Process '"@ + escaped(installer_path) + "' -Wait"@
}

/// PowerShell command that opens the installer package and waits for it.
pub fn installer_command_line(installer_path: &str) -> (r: String)
    ensures
        r@ == installer_command(installer_path@),
{
    let mut s = String::from_str("Start-Process '");
    let p = escape_backslashes(installer_path);
    s.append(p.as_str());
    s.append("' -Wait");
    s
}

/// Whether the installer's process ended well; the reason otherwise.
pub fn installer_outcome(code: Option<i32>) -> (r: Result<(), String>)
    ensures
        code == Some(0i32) ==> r is Ok,
        code != Some(0i32) ==> (r matches Err(m) && m@ == "Installation process terminated with code: "@
            + status_text(code)),
{
    if code == Some(0i32) {
        Ok(())
    } else {
        let mut s = String::from_str("Installation process terminated with code: ");
        let t = status_string(code);
        s.append(t.as_str());
        Err(s)
    }
}

/// The word `true` in any letter case.
pub open spec fn is_true_word(t: Seq<char>) -> bool {
    &&& t.len() == 4
    &&& (t[0] == 't' || t[0] == 'T')
    &&& (t[1] == 'r' || t[1] == 'R')
    &&& (t[2] == 'u' || t[2] == 'U')
    &&& (t[3] == 'e' || t[3] == 'E')
}

/// Whether a line of the installation check says the server directory exists.
pub fn confirms_installation(line: &str) -> (r: bool)
    ensures
        r == is_true_word(trimmed(line@)),
{
    let t = trim_text(line);
    if t.unicode_len() != 4 {
        return false;
    }
    let (a, b, c, d) = (t.get_char(0), t.get_char(1), t.get_char(2), t.get_char(3));
    (a == 't' || a == 'T') && (b == 'r' || b == 'R') && (c == 'u' || c == 'U') && (d == 'e' || d
        == 'E')
}

/// PowerShell command that appends `bin_dir` to the machine's PATH unless it
/// is already there.
pub open spec fn path_command(bin_dir: Seq<char>) -> Seq<char> {
    "$ErrorActionPreference = 'Stop'; try { $path = [Environment]::GetEnvironmentVariable('Path', 'Machine'); if (-not $path.Contains('"@
        + escaped(bin_dir)
        + "')) { [Environment]::SetEnvironmentVariable('Path', \"$path;"@ + escaped(bin_dir)
        + "\", 'Machine'); Write-Output 'MongoDB bin directory added to PATH'; } else { Write-Output 'MongoDB bin directory already in PATH'; } } catch { Write-Error \"Failed to update PATH: $($_.Exception.Message)\"; exit 1; }"@
}

/// PowerShell command that appends `bin_dir` to the machine's PATH unless it
/// is already there.
pub fn path_command_line(bin_dir: &str) -> (r: String)
    ensures
        r@ == path_command(bin_dir@),
{
    let e = escape_backslashes(bin_dir);
    let mut s = String::from_str(
        "$ErrorActionPreference = 'Stop'; try { $path = [Environment]::GetEnvironmentVariable('Path', 'Machine'); if (-not $path.Contains('",
    );
    s.append(e.as_str());
    s.append("')) { [Environment]::SetEnvironmentVariable('Path', \"$path;");
    s.append(e.as_str());
    s.append(
        "\", 'Machine'); Write-Output 'MongoDB bin directory added to PATH'; } else { Write-Output 'MongoDB bin directory already in PATH'; } } catch { Write-Error \"Failed to update PATH: $($_.Exception.Message)\"; exit 1; }",
    );
    s
}

/// Whether a step's helper process ended well; otherwise the reason, made
/// of `what` and its status.
pub fn helper_outcome(what: &str, code: Option<i32>) -> (r: Result<(), String>)
    ensures
        code == Some(0i32) ==> r is Ok,
        code != Some(0i32) ==> (r matches Err(m) && m@ == what@ + " failed with exit code: "@
            + status_text(code)),
{
    if code == Some(0i32) {
        Ok(())
    } else {
        let mut s = String::from_str(what);
        s.append(" failed with exit code: ");
        let t = status_string(code);
        s.append(t.as_str());
        Err(s)
    }
}

/// PowerShell command that starts the registered service, printing whether it did.
pub const SERVICE_START_COMMAND: &'static str =
    "try { Start-Service -Name 'MongoDB' -ErrorAction Stop; 'Service started' } catch { 'Service not found' }";

/// Whether a line of the service start says the service started.
pub fn service_started(line: &str) -> (r: bool)
    ensures
        r == occurs_in(line@, "Service started"@),
{
    contains_text(line, "Service started")
}

/// PowerShell command that starts the server by hand on `data_dir`, when its
/// binary is in `bin_dir`.
pub open spec fn manual_start_command(bin_dir: Seq<char>, data_dir: Seq<char>) -> Seq<char> {
    let exe = escaped(bin_dir + "\\mongod.exe"@);
    "if (Test-Path '"@ + exe + "') { Start-Process '"@ + exe + "' -ArgumentList '--dbpath', '"@
        + escaped(data_dir) + "' -NoNewWindow -PassThru }"@
}

/// PowerShell command that starts the server by hand on `data_dir`.
pub fn manual_start_command_line(bin_dir: &str, data_dir: &str) -> (r: String)
    ensures
        r@ == manual_start_command(bin_dir@, data_dir@),
{
    let mut exe_path = String::from_str(bin_dir);
    exe_path.append("\\mongod.exe");
    let exe = escape_backslashes(exe_path.as_str());
    let dir = escape_backslashes(data_dir);
    let mut s = String::from_str("if (Test-Path '");
    s.append(exe.as_str());
    s.append("') { Start-Process '");
    s.append(exe.as_str());
    s.append("' -ArgumentList '--dbpath', '");
    s.append(dir.as_str());
    s.append("' -NoNewWindow -PassThru }");
    s
}

/// PowerShell command that asks the server for the size of `url`, printing
/// the size, or an error line and `0`.
pub open spec fn size_probe_command(url: Seq<char>) -> Seq<char> {
    "$ProgressPreference = 'SilentlyContinue'; try { $response = Invoke-WebRequest -Uri '"@ + url
        + "' -Method Head -UseBasicParsing; $response.Headers.'Content-Length' } catch { Write-Host \"Error getting file size: $_.Exception.Message\"; '0' }"@
}

/// PowerShell command that asks the server for the size of `url`.
pub fn size_probe_command_line(url: &str) -> (r: String)
    ensures
        r@ == size_probe_command(url@),
{
    let mut s = String::from_str(
        "$ProgressPreference = 'SilentlyContinue'; try { $response = Invoke-WebRequest -Uri '",
    );
    s.append(url);
    s.append(
        "' -Method Head -UseBasicParsing; $response.Headers.'Content-Length' } catch { Write-Host \"Error getting file size: $_.Exception.Message\"; '0' }",
    );
    s
}

/// PowerShell command for one transfer of `url` into `temp_path`, reporting
/// progress as JSON objects after the progress marker and the end after the
/// completion marker. When the first method leaves no file or an empty one,
/// a second, plain download is tried within the same attempt.
pub open spec fn transfer_command(url: Seq<char>, temp_path: Seq<char>, total: Seq<char>) -> Seq<char> {
    "$ErrorActionPreference = 'Stop'; $total = "@ + total + "; $c = New-Object System.Net.WebClient; $c.Headers.Add('User-Agent', 'Mozilla/5.0'); Register-ObjectEvent -InputObject $c -EventName DownloadProgressChanged -Action { $p = @{ 'bytesDownloaded' = $EventArgs.BytesReceived; 'totalBytes' = $total } | ConvertTo-Json -Compress; Write-Host \"PROGRESS: $p\"; [Console]::Out.Flush() } | Out-Null; Write-Host 'METHOD: WebClient download'; $t = '"@ + escaped(temp_path) + "'; try { $c.DownloadFileTaskAsync([Uri]'"@ + url + "', $t).Wait() } catch { Write-Host \"Download attempt failed: $($_.Exception.Message)\" }; if (-not (Test-Path $t) -or ((Get-Item $t).Length -eq 0)) { Write-Host 'Trying alternative download method...'; $a = New-Object System.Net.WebClient; $a.Headers.Add('User-Agent', 'Mozilla/5.0'); $a.DownloadFile('"@ + url + "', $t) }; Write-Host 'COMPLETE: transfer finished'"@
}

/// PowerShell command for one transfer of `url` into `temp_path`.
pub fn transfer_command_line(url: &str, temp_path: &str, total: u64) -> (r: String)
    ensures
        r@ == transfer_command(url@, temp_path@, crate::text::decimal(total as nat)),
{
    let mut s = String::from_str("$ErrorActionPreference = 'Stop'; $total = ");
    let t = crate::text::decimal_string(total);
    s.append(t.as_str());
    s.append("; $c = New-Object System.Net.WebClient; $c.Headers.Add('User-Agent', 'Mozilla/5.0'); Register-ObjectEvent -InputObject $c -EventName DownloadProgressChanged -Action { $p = @{ 'bytesDownloaded' = $EventArgs.BytesReceived; 'totalBytes' = $total } | ConvertTo-Json -Compress; Write-Host \"PROGRESS: $p\"; [Console]::Out.Flush() } | Out-Null; Write-Host 'METHOD: WebClient download'; $t = '");
    let p = escape_backslashes(temp_path);
    s.append(p.as_str());
    s.append("'; try { $c.DownloadFileTaskAsync([Uri]'");
    s.append(url);
    s.append("', $t).Wait() } catch { Write-Host \"Download attempt failed: $($_.Exception.Message)\" }; if (-not (Test-Path $t) -or ((Get-Item $t).Length -eq 0)) { Write-Host 'Trying alternative download method...'; $a = New-Object System.Net.WebClient; $a.Headers.Add('User-Agent', 'Mozilla/5.0'); $a.DownloadFile('");
    s.append(url);
    s.append("', $t) }; Write-Host 'COMPLETE: transfer finished'");
    s
}

/// Where a transfer writes before the file is verified: the destination with
/// a `.tmp` suffix, never the destination itself.
pub open spec fn temp_path_of(destination: Seq<char>) -> Seq<char> {
    destination + ".tmp"@
}

/// Where a transfer writes before the file is verified.
pub fn temp_path_for(destination: &str) -> (r: String)
    ensures
        r@ == temp_path_of(destination@),
        r@ != destination@,
{
    let mut s = String::from_str(destination);
    s.append(".tmp");
    proof {
        reveal_strlit(".tmp");
        assert(s@.len() == destination@.len() + 4);
    }
    s
}

/// Number of steps of the Windows plan.
pub const WINDOWS_STEPS: usize = 5;

/// PowerShell command that checks whether the installer created the server directory.
pub const INSTALL_CHECK_COMMAND: &'static str = "Test-Path 'C:\\Program Files\\MongoDB\\Server'";

/// A notice of step `step` of the Windows plan: `prefix` followed by `detail`.
pub fn step_detail(step: usize, prefix: &str, detail: &str, is_error: bool) -> (r: ProgressEvent)
    requires
        1 <= step <= WINDOWS_STEPS,
    ensures
        r@ == (EventView::Step {
            step: step as nat,
            total_steps: WINDOWS_STEPS as nat,
            message: prefix@ + detail@,
            is_error,
        }),
{
    let mut m = String::from_str(prefix);
    m.append(detail);
    ProgressEvent::Step(InstallProgress::new(step, WINDOWS_STEPS, m.as_str(), is_error))
}

/// The notice for a line of the installer's error output: its trimmed text
/// after `Installation error: `, or nothing for a blank line.
pub fn installer_error_notice(line: &str) -> (r: Option<ProgressEvent>)
    ensures
        trimmed(line@).len() == 0 ==> r is None,
        trimmed(line@).len() > 0 ==> (r matches Some(e) && e@ == (EventView::Step {
            step: 3,
            total_steps: WINDOWS_STEPS as nat,
            message: "Installation error: "@ + trimmed(line@),
            is_error: true,
        })),
{
    let t = trim_text(line);
    if t.unicode_len() == 0 {
        None
    } else {
        Some(step_detail(3, "Installation error: ", t, true))
    }
}

/// The notice for a line printed by the PATH update: its trimmed text, after
/// `PATH update error: ` when it came on the error output.
pub fn path_update_notice(line: &str, is_error: bool) -> (r: ProgressEvent)
    ensures
        r@ == (EventView::Step {
            step: 4,
            total_steps: WINDOWS_STEPS as nat,
            message: if is_error { "PATH update error: "@ + trimmed(line@) } else { trimmed(line@) },
            is_error,
        }),
{
    let t = trim_text(line);
    if is_error {
        step_detail(4, "PATH update error: ", t, true)
    } else {
        proof {
            reveal_strlit("");
            assert(""@ + trimmed(line@) =~= trimmed(line@));
        }
        step_detail(4, "", t, false)
    }
}

/// The notice for a line of a transfer's error output: its trimmed text
/// after `Download error: `.
pub fn download_error_notice(line: &str) -> (r: ProgressEvent)
    ensures
        r@ == (EventView::Step {
            step: 2,
            total_steps: WINDOWS_STEPS as nat,
            message: "Download error: "@ + trimmed(line@),
            is_error: true,
        }),
{
    let t = trim_text(line);
    step_detail(2, "Download error: ", t, true)
}

/// Message when the installation check found the server directory.
pub const VERIFIED_MESSAGE: &'static str = "MongoDB installation verified successfully";

/// Warning when the installation check did not find the server directory.
pub const UNVERIFIED_MESSAGE: &'static str =
    "Warning: Could not verify MongoDB installation. If installation failed, please try again.";

/// The notice closing the installation check: a confirmation, or a warning
/// (published as an error, though the step goes on) when nothing confirmed it.
pub fn verification_notice(confirmed: bool) -> (r: ProgressEvent)
    ensures
        r@ == (EventView::Step {
            step: 3,
            total_steps: WINDOWS_STEPS as nat,
            message: if confirmed { VERIFIED_MESSAGE@ } else { UNVERIFIED_MESSAGE@ },
            is_error: !confirmed,
        }),
{
    if confirmed {
        ProgressEvent::Step(InstallProgress::new(3, WINDOWS_STEPS, VERIFIED_MESSAGE, false))
    } else {
        ProgressEvent::Step(InstallProgress::new(3, WINDOWS_STEPS, UNVERIFIED_MESSAGE, true))
    }
}

/// Message when the server is started by hand.
pub const MANUAL_START_MESSAGE: &'static str = "MongoDB service not found. Starting mongod manually...";

/// After the service start: nothing more when the service started; otherwise
/// the notice that the server is started by hand, which the host then does
/// with `manual_start_command_line`.
pub fn service_fallback(started: bool) -> (r: Option<ProgressEvent>)
    ensures
        started ==> r is None,
        !started ==> (r matches Some(e) && e@ == (EventView::Step {
            step: 5,
            total_steps: WINDOWS_STEPS as nat,
            message: MANUAL_START_MESSAGE@,
            is_error: false,
        })),
{
    if started {
        None
    } else {
        Some(ProgressEvent::Step(InstallProgress::new(5, WINDOWS_STEPS, MANUAL_START_MESSAGE, false)))
    }
}

} // verus!
