use mongo_setup::download::{
    backoff_seconds, classify_transfer_line, exhausted_message, parse_decimal,
    size_from_probe_line, total_or_estimate, AttemptReport, DownloadRetry, TransferAction,
    TransferLine, TransferState, MAX_ATTEMPTS,
};
use mongo_setup::progress::DownloadProgress;

#[test]
fn retries_then_succeeds() {
    let mut d = DownloadRetry::new(MAX_ATTEMPTS);
    assert_eq!(d.on_report(AttemptReport::TransferFailed), TransferAction::RetryAfter(2));
    assert_eq!(d.on_report(AttemptReport::TransferFailed), TransferAction::RetryAfter(4));
    assert_eq!(d.state(), TransferState::Transferring(3));
    assert_eq!(d.on_report(AttemptReport::Transferred(4096)), TransferAction::Promote);
    assert_eq!(d.on_report(AttemptReport::Promoted(4096)), TransferAction::Done);
    assert_eq!(d.state(), TransferState::Succeeded);
}

#[test]
fn gives_up_after_all_attempts() {
    let mut d = DownloadRetry::new(MAX_ATTEMPTS);
    let mut actions = Vec::new();
    for _ in 0..5 {
        actions.push(d.on_report(AttemptReport::TransferFailed));
    }
    assert_eq!(
        actions,
        vec![
            TransferAction::RetryAfter(2),
            TransferAction::RetryAfter(4),
            TransferAction::RetryAfter(8),
            TransferAction::RetryAfter(16),
            TransferAction::GiveUp,
        ]
    );
    assert!(!actions.contains(&TransferAction::Promote));
    assert_eq!(d.state(), TransferState::Failed);
    assert_eq!(d.on_report(AttemptReport::Promoted(10)), TransferAction::Ignore);
    assert_eq!(exhausted_message(5), "All 5 download attempts failed");
}

#[test]
fn empty_file_is_a_failed_attempt() {
    let mut d = DownloadRetry::new(MAX_ATTEMPTS);
    assert_eq!(d.on_report(AttemptReport::Transferred(0)), TransferAction::RetryAfter(2));
    assert_eq!(d.on_report(AttemptReport::Transferred(10)), TransferAction::Promote);
    assert_eq!(d.on_report(AttemptReport::Promoted(0)), TransferAction::RetryAfter(4));
    assert_eq!(d.on_report(AttemptReport::Transferred(10)), TransferAction::Promote);
    assert_eq!(d.on_report(AttemptReport::PromotionFailed), TransferAction::RetryAfter(8));
}

#[test]
fn backoff_doubles_up_to_the_cap() {
    assert_eq!(backoff_seconds(1), 2);
    assert_eq!(backoff_seconds(4), 16);
    assert_eq!(backoff_seconds(5), 30);
    assert_eq!(backoff_seconds(12), 30);
}

#[test]
fn decimal_parsing() {
    assert_eq!(parse_decimal("0"), Some(0));
    assert_eq!(parse_decimal("+42"), Some(42));
    assert_eq!(parse_decimal("18446744073709551615"), Some(u64::MAX));
    assert_eq!(parse_decimal("18446744073709551616"), None);
    assert_eq!(parse_decimal(""), None);
    assert_eq!(parse_decimal("+"), None);
    assert_eq!(parse_decimal("-1"), None);
    assert_eq!(parse_decimal("12a"), None);
}

#[test]
fn size_probe_lines() {
    assert_eq!(size_from_probe_line("  613472256 \r\n"), Some(613472256));
    assert_eq!(size_from_probe_line("Error getting file size: 404"), None);
    assert_eq!(size_from_probe_line("0"), Some(0));
    assert_eq!(total_or_estimate(0), 500 * 1024 * 1024);
    assert_eq!(total_or_estimate(77), 77);
}

#[test]
fn progress_lines_are_read() {
    let line = "PROGRESS: {\"bytesDownloaded\":250,\"percentage\":25.0,\"totalBytes\":1000}";
    match classify_transfer_line(line) {
        TransferLine::Progress(p) => {
            assert_eq!((p.bytes_downloaded, p.total_bytes, p.percent_hundredths), (250, 1000, 2500))
        }
        _ => panic!("expected progress"),
    }
    assert!(matches!(classify_transfer_line("PROGRESS: oops"), TransferLine::Other));
    assert!(matches!(classify_transfer_line("COMPLETE: Download finished"), TransferLine::Complete));
    match classify_transfer_line("METHOD: Using WebClient ") {
        TransferLine::Method(m) => assert_eq!(m, "Download method: Using WebClient"),
        _ => panic!("expected method"),
    }
    assert!(matches!(classify_transfer_line("hello"), TransferLine::Other));
}

#[test]
fn percentage_is_clamped() {
    assert_eq!(DownloadProgress::new(2000, 1000).percent_hundredths, 10000);
    assert_eq!(DownloadProgress::new(1, 3).percent_hundredths, 3333);
    assert_eq!(DownloadProgress::new(5, 0).percent_hundredths, 0);
    assert_eq!(DownloadProgress::new(u64::MAX - 1, u64::MAX).percent_hundredths, 9999);
}
