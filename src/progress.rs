//! Structured progress events published to the user interface.

use vstd::prelude::*;

verus! {

/// Channel of ordinary log lines and step notices.
pub const LOG_CHANNEL: &'static str = "mongodb-install-log";

/// Channel of error lines and failure notices.
pub const ERROR_CHANNEL: &'static str = "mongodb-install-error";

/// Channel of download progress reports.
pub const DOWNLOAD_CHANNEL: &'static str = "mongodb-download-progress";

/// Channel on which the path of the downloaded installer is announced.
pub const INSTALLER_PATH_CHANNEL: &'static str = "mongodb-installer-path";

/// Full scale of a percentage kept in hundredths of a percent.
pub const FULL_SCALE: u64 = 10000;

/// Progress of one installation step.
pub struct InstallProgress {
    pub step: usize,
    pub total_steps: usize,
    pub message: String,
    pub is_error: bool,
}

impl InstallProgress {
    /// A step notice carrying `message`.
    pub fn new(step: usize, total_steps: usize, message: &str, is_error: bool) -> (r: Self)
        ensures
            r.step == step,
            r.total_steps == total_steps,
            r.message@ == message@,
            r.is_error == is_error,
    {
        InstallProgress { step, total_steps, message: String::from_str(message), is_error }
    }

    /// The channel the notice is published on: errors apart from the log.
    pub fn channel(&self) -> (r: &'static str)
        ensures
            r@ == (if self.is_error { ERROR_CHANNEL@ } else { LOG_CHANNEL@ }),
    {
        if self.is_error {
            ERROR_CHANNEL
        } else {
            LOG_CHANNEL
        }
    }
}

/// Share of `done` in `total`, in hundredths of a percent, never above the full scale.
pub open spec fn percent_of(done: nat, total: nat) -> nat {
    if total == 0 {
        0
    } else if done >= total {
        FULL_SCALE as nat
    } else {
        done * (FULL_SCALE as nat) / total
    }
}

/// Progress of a file transfer.
pub struct DownloadProgress {
    pub bytes_downloaded: u64,
    pub total_bytes: u64,
    /// Hundredths of a percent, from 0 to 10000.
    pub percent_hundredths: u64,
}

impl DownloadProgress {
    /// The report for `bytes_downloaded` out of `total_bytes`; the percentage is
    /// derived from the two and clamped to the full scale.
    pub fn new(bytes_downloaded: u64, total_bytes: u64) -> (r: Self)
        ensures
            r.bytes_downloaded == bytes_downloaded,
            r.total_bytes == total_bytes,
            r.percent_hundredths == percent_of(bytes_downloaded as nat, total_bytes as nat),
            r.percent_hundredths <= FULL_SCALE,
    {
        let p: u64 = if total_bytes == 0 {
            0
        } else if bytes_downloaded >= total_bytes {
            FULL_SCALE
        } else {
            proof {
                assert((bytes_downloaded as int) * 10000 <= 0xffff_ffff_ffff_ffffint * 10000)
                    by (nonlinear_arith)
                    requires
                        bytes_downloaded <= 0xffff_ffff_ffff_ffffint,
                ;
            }
            let scaled: u128 = (bytes_downloaded as u128) * (FULL_SCALE as u128);
            proof {
                assert(scaled / (total_bytes as u128) <= FULL_SCALE) by (nonlinear_arith)
                    requires
                        scaled == bytes_downloaded * FULL_SCALE,
                        bytes_downloaded < total_bytes,
                        FULL_SCALE == 10000,
                ;
            }
            (scaled / (total_bytes as u128)) as u64
        };
        DownloadProgress { bytes_downloaded, total_bytes, percent_hundredths: p }
    }
}

/// One event published to the user interface, in order of production.
pub enum ProgressEvent {
    LogLine(String),
    ErrorLine(String),
    Step(InstallProgress),
    Download(DownloadProgress),
    InstallerPath(String),
}

/// What an event says, as plain values.
pub enum EventView {
    Log(Seq<char>),
    Error(Seq<char>),
    Step { step: nat, total_steps: nat, message: Seq<char>, is_error: bool },
    Download { bytes_downloaded: nat, total_bytes: nat, percent_hundredths: nat },
    InstallerPath(Seq<char>),
}

impl View for ProgressEvent {
    type V = EventView;

    open spec fn view(&self) -> EventView {
        match self {
            ProgressEvent::LogLine(l) => EventView::Log(l@),
            ProgressEvent::ErrorLine(l) => EventView::Error(l@),
            ProgressEvent::Step(p) => EventView::Step {
                step: p.step as nat,
                total_steps: p.total_steps as nat,
                message: p.message@,
                is_error: p.is_error,
            },
            ProgressEvent::Download(d) => EventView::Download {
                bytes_downloaded: d.bytes_downloaded as nat,
                total_bytes: d.total_bytes as nat,
                percent_hundredths: d.percent_hundredths as nat,
            },
            ProgressEvent::InstallerPath(p) => EventView::InstallerPath(p@),
        }
    }
}

/// The views of a list of events, in order.
pub open spec fn views_of(events: Seq<ProgressEvent>) -> Seq<EventView> {
    events.map_values(|e: ProgressEvent| e@)
}

/// The channel of an event, by its kind.
pub open spec fn channel_of(e: ProgressEvent) -> Seq<char> {
    match e {
        ProgressEvent::LogLine(_) => LOG_CHANNEL@,
        ProgressEvent::ErrorLine(_) => ERROR_CHANNEL@,
        ProgressEvent::Step(p) => if p.is_error { ERROR_CHANNEL@ } else { LOG_CHANNEL@ },
        ProgressEvent::Download(_) => DOWNLOAD_CHANNEL@,
        ProgressEvent::InstallerPath(_) => INSTALLER_PATH_CHANNEL@,
    }
}

impl ProgressEvent {
    /// The channel this event is published on.
    pub fn channel(&self) -> (r: &'static str)
        ensures
            r@ == channel_of(*self),
    {
        match self {
            ProgressEvent::LogLine(_) => LOG_CHANNEL,
            ProgressEvent::ErrorLine(_) => ERROR_CHANNEL,
            ProgressEvent::Step(p) => p.channel(),
            ProgressEvent::Download(_) => DOWNLOAD_CHANNEL,
            ProgressEvent::InstallerPath(_) => INSTALLER_PATH_CHANNEL,
        }
    }

    /// Whether this event reports an error.
    pub fn is_error(&self) -> (r: bool)
        ensures
            r == (channel_of(*self) == ERROR_CHANNEL@),
    {
        proof {
            reveal_strlit("mongodb-install-log");
            reveal_strlit("mongodb-install-error");
            reveal_strlit("mongodb-download-progress");
            reveal_strlit("mongodb-installer-path");
            assert(LOG_CHANNEL@[16] != ERROR_CHANNEL@[16]);
            assert(DOWNLOAD_CHANNEL@.len() != ERROR_CHANNEL@.len());
            assert(INSTALLER_PATH_CHANNEL@.len() != ERROR_CHANNEL@.len());
        }
        match self {
            ProgressEvent::ErrorLine(_) => true,
            ProgressEvent::Step(p) => p.is_error,
            _ => false,
        }
    }
}

} // verus!
