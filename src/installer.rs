use vstd::prelude::*;
use crate::progress::{estimate, estimate_progress};
use crate::settings::AppSettings;

verus! {

/// Name of the GUI event that carries installer progress.
pub const PROGRESS_EVENT: &'static str = "chromium-progress";

/// Message of the event that opens an installation.
pub const STARTING_MESSAGE: &'static str = "Starting Chromium download...";

/// Message of the event that closes a successful installation.
pub const COMPLETE_MESSAGE: &'static str = "Chromium installed successfully!";

/// Message of the event, and text of the error, that close a failed one.
pub const FAILED_MESSAGE: &'static str = "Chromium installation failed";

/// One progress notification for the GUI.
#[derive(Debug)]
pub struct ChromiumProgress {
    pub progress: u8,
    pub status: String,
    pub message: String,
}

/// Where one installer run stands.
#[derive(Clone, Copy, Debug, PartialEq, Eq, Structural)]
pub enum InstallPhase {
    Idle,
    Starting,
    Downloading,
    Complete,
    Failed,
}

/// The decisions of one installer run: which events to emit for what the
/// installer process does, and how the run ends.
pub struct InstallSupervisor {
    pub phase: InstallPhase,
    pub progress: u8,
}

/// `e` carries exactly these three values.
pub open spec fn is_event(e: ChromiumProgress, progress: u8, status: Seq<char>, message: Seq<char>) -> bool {
    e.progress == progress && e.status@ == status && e.message@ == message
}

impl InstallSupervisor {
    /// The estimate stays within 0 to 100.
    pub open spec fn wf(&self) -> bool {
        self.progress <= 100
    }

    /// A run that has not started.
    pub fn new() -> (r: InstallSupervisor)
        ensures
            r.phase == InstallPhase::Idle,
            r.progress == 0,
            r.wf(),
    {
        InstallSupervisor { phase: InstallPhase::Idle, progress: 0 }
    }

    /// The run begins: the event to emit before the installer is spawned.
    pub fn start(&mut self) -> (r: ChromiumProgress)
        requires
            old(self).phase == InstallPhase::Idle,
        ensures
            final(self).phase == InstallPhase::Starting,
            final(self).progress == 0,
            final(self).wf(),
            is_event(r, 0, "starting"@, STARTING_MESSAGE@),
    {
        self.phase = InstallPhase::Starting;
        self.progress = 0;
        ChromiumProgress {
            progress: 0,
            status: "starting".to_string(),
            message: STARTING_MESSAGE.to_string(),
        }
    }

    /// The installer printed `line` on its error stream: the estimate moves as
    /// `estimate` says and the line is forwarded.
    pub fn on_line(&mut self, line: String) -> (r: ChromiumProgress)
        requires
            old(self).phase == InstallPhase::Starting || old(self).phase
                == InstallPhase::Downloading,
        ensures
            final(self).phase == InstallPhase::Downloading,
            final(self).progress == estimate(line@, old(self).progress),
            old(self).wf() ==> final(self).wf(),
            is_event(r, final(self).progress, "downloading"@, line@),
    {
        let p = estimate_progress(line.as_str(), self.progress);
        self.phase = InstallPhase::Downloading;
        self.progress = p;
        ChromiumProgress { progress: p, status: "downloading".to_string(), message: line }
    }

    /// The installer exited, successfully or not: the closing event.
    pub fn on_exit(&mut self, success: bool) -> (r: ChromiumProgress)
        requires
            old(self).phase == InstallPhase::Starting || old(self).phase
                == InstallPhase::Downloading,
        ensures
            success ==> final(self).phase == InstallPhase::Complete && final(self).progress == 100
                && is_event(r, 100, "complete"@, COMPLETE_MESSAGE@),
            !success ==> final(self).phase == InstallPhase::Failed && final(self).progress == 0
                && is_event(r, 0, "error"@, FAILED_MESSAGE@),
            final(self).wf(),
    {
        if success {
            self.phase = InstallPhase::Complete;
            self.progress = 100;
            ChromiumProgress {
                progress: 100,
                status: "complete".to_string(),
                message: COMPLETE_MESSAGE.to_string(),
            }
        } else {
            self.phase = InstallPhase::Failed;
            self.progress = 0;
            ChromiumProgress {
                progress: 0,
                status: "error".to_string(),
                message: FAILED_MESSAGE.to_string(),
            }
        }
    }

    /// What the install command reports once the run has ended.
    pub fn outcome(&self) -> (r: Result<(), String>)
        requires
            self.phase == InstallPhase::Complete || self.phase == InstallPhase::Failed,
        ensures
            self.phase == InstallPhase::Complete <==> r is Ok,
            r matches Err(m) ==> m@ == FAILED_MESSAGE@,
    {
        if self.phase == InstallPhase::Complete {
            Ok(())
        } else {
            Err(FAILED_MESSAGE.to_string())
        }
    }
}

/// Whether the browsers count as installed: the saved flag alone is not
/// trusted, the directory must exist and hold at least one entry.
pub fn chromium_ready(settings: &AppSettings, dir_exists: bool, dir_has_entries: bool) -> (r: bool)
    ensures
        r == (settings.chromium_installed && dir_exists && dir_has_entries),
{
    settings.chromium_installed && dir_exists && dir_has_entries
}

} // verus!
