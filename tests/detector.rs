use mongo_setup::detector::{
    linux_installed, verdict, windows_connection_probe, windows_installed, ProbeOutput,
};

fn out(success: bool, stdout: &str) -> Option<ProbeOutput> {
    Some(ProbeOutput { success, stdout: stdout.to_string() })
}

#[test]
fn majority_of_three() {
    assert!(verdict(&[true, true, false]));
    assert!(!verdict(&[true, false, false]));
    assert!(verdict(&[false, true, true]));
    assert!(!verdict(&[]));
}

#[test]
fn erroring_probe_counts_as_false() {
    let service = None;
    let binary = out(true, "/usr/bin/mongod\n");
    let version = out(true, "db version v8.0.6\n");
    assert!(linux_installed(&service, &binary, &version));
    assert!(!linux_installed(&service, &out(false, ""), &version));
}

#[test]
fn linux_probes_read_their_output() {
    let service = out(true, "mongod.service enabled enabled\n");
    assert!(linux_installed(&service, &None, &out(true, "v8")));
    assert!(!linux_installed(&out(true, "0 unit files listed."), &None, &out(true, "")));
}

#[test]
fn windows_probes_read_their_output() {
    assert!(windows_connection_probe(&out(true, "True\r\n")));
    assert!(!windows_connection_probe(&out(true, "False")));
    let missing = out(false, "[SC] EnumQueryServicesStatus:OpenService FAILED 1060: DOES_NOT_EXIST");
    assert!(!windows_installed(&missing, true, &out(true, "False")));
    assert!(windows_installed(&out(true, "STATE: RUNNING"), true, &None));
}

#[test]
fn verdict_is_repeatable() {
    let probes = [true, false, true];
    assert_eq!(verdict(&probes), verdict(&probes));
}
