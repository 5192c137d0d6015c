use mongo_setup::progress::{InstallProgress, ProgressEvent};
use mongo_setup::text::{contains_text, decimal_string, find_text, signed_decimal_string};
use mongo_setup::windows::{
    confirms_installation, escape_backslashes, helper_outcome, installer_command_line,
    download_error_notice, installer_error_notice, installer_outcome, path_update_notice,
    service_fallback, transfer_command_line, verification_notice, manual_start_command_line, service_started,
    status_string, step_detail, temp_path_for,
};

#[test]
fn numbers_in_decimal() {
    assert_eq!(decimal_string(0), "0");
    assert_eq!(decimal_string(1234567890), "1234567890");
    assert_eq!(signed_decimal_string(-17), "-17");
    assert_eq!(signed_decimal_string(i64::MIN), "-9223372036854775808");
}

#[test]
fn searching_text() {
    assert!(contains_text("abc mongod.service", "mongod.service"));
    assert!(!contains_text("mongod", "mongod.service"));
    assert_eq!(find_text("xxPROGRESS:", "PROGRESS:"), Some(2));
}

#[test]
fn commands_escape_backslashes() {
    assert_eq!(escape_backslashes("C:\\data\\db"), "C:\\\\data\\\\db");
    assert_eq!(installer_command_line("C:\\t\\m.msi"), "Start-Process 'C:\\\\t\\\\m.msi' -Wait");
    assert_eq!(
        manual_start_command_line("C:\\b", "C:\\d"),
        "if (Test-Path 'C:\\\\b\\\\mongod.exe') { Start-Process 'C:\\\\b\\\\mongod.exe' -ArgumentList '--dbpath', 'C:\\\\d' -NoNewWindow -PassThru }"
    );
}

#[test]
fn installer_results() {
    assert_eq!(installer_outcome(Some(0)), Ok(()));
    assert_eq!(
        installer_outcome(Some(1603)),
        Err("Installation process terminated with code: Some(1603)".to_string())
    );
    assert_eq!(status_string(None), "None");
    assert_eq!(
        helper_outcome("PATH update", Some(1)),
        Err("PATH update failed with exit code: Some(1)".to_string())
    );
    assert!(confirms_installation(" TRUE \r\n"));
    assert!(!confirms_installation("False"));
    assert!(service_started("Service started"));
    assert_eq!(temp_path_for("C:\\x.msi"), "C:\\x.msi.tmp");
}

#[test]
fn events_choose_their_channel() {
    let p = InstallProgress::new(2, 5, "m", true);
    assert_eq!(p.channel(), "mongodb-install-error");
    let e = ProgressEvent::Step(InstallProgress::new(2, 5, "m", false));
    assert_eq!(e.channel(), "mongodb-install-log");
    assert!(!e.is_error());
    assert!(ProgressEvent::ErrorLine("x".to_string()).is_error());
}

#[test]
fn windows_step_details() {
    match step_detail(4, "PATH update error: ", "denied", true) {
        ProgressEvent::Step(p) => {
            assert_eq!((p.step, p.total_steps, p.is_error), (4, 5, true));
            assert_eq!(p.message, "PATH update error: denied");
        }
        _ => panic!("expected a step notice"),
    }
    assert!(installer_error_notice("  \r\n").is_none());
    match installer_error_notice(" code 1603 \n") {
        Some(ProgressEvent::Step(p)) => assert_eq!(p.message, "Installation error: code 1603"),
        _ => panic!("expected a step notice"),
    }
}

fn step_of(e: &ProgressEvent) -> (usize, String, bool) {
    match e {
        ProgressEvent::Step(p) => (p.step, p.message.clone(), p.is_error),
        _ => panic!("expected a step notice"),
    }
}

#[test]
fn windows_lines_are_trimmed() {
    assert_eq!(
        step_of(&path_update_notice("  MongoDB bin directory added to PATH \r\n", false)),
        (4, "MongoDB bin directory added to PATH".to_string(), false)
    );
    assert_eq!(
        step_of(&path_update_notice(" Access denied\n", true)),
        (4, "PATH update error: Access denied".to_string(), true)
    );
    assert_eq!(
        step_of(&download_error_notice(" 404 \n")),
        (2, "Download error: 404".to_string(), true)
    );
}

#[test]
fn windows_step_decisions() {
    assert_eq!(
        step_of(&verification_notice(true)),
        (3, "MongoDB installation verified successfully".to_string(), false)
    );
    assert!(step_of(&verification_notice(false)).2);
    assert!(service_fallback(true).is_none());
    assert_eq!(
        step_of(&service_fallback(false).unwrap()).1,
        "MongoDB service not found. Starting mongod manually..."
    );
}

#[test]
fn transfer_has_a_second_method() {
    let c = transfer_command_line("http://h/f.msi", "C:\\t\\f.msi.tmp", 10);
    assert!(c.starts_with("$ErrorActionPreference = 'Stop'; $total = 10;"));
    assert!(c.contains("$t = 'C:\\\\t\\\\f.msi.tmp'"));
    assert!(c.contains("$a.DownloadFile('http://h/f.msi', $t)"));
    assert!(c.contains("DownloadFileTaskAsync([Uri]'http://h/f.msi', $t)"));
    assert!(c.ends_with("Write-Host 'COMPLETE: transfer finished'"));
}
