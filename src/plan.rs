//! Installation plans: the ordered steps of each supported platform.

use vstd::prelude::*;
use crate::text::{decimal, decimal_string};

verus! {

/// Where the Windows installer package is fetched from.
pub const WINDOWS_DOWNLOAD_URL: &'static str =
    "https://fastdl.mongodb.org/windows/mongodb-windows-x86_64-8.0.6-signed.msi";

/// Data directory created on Windows.
pub const WINDOWS_DATA_DIR: &'static str = "C:\\data\\db";

/// Directory of the server binaries after a Windows installation.
pub const WINDOWS_BIN_DIR: &'static str = "C:\\Program Files\\MongoDB\\Server\\8.0.6\\bin";

/// Directory whose presence shows that the Windows installer ran.
pub const WINDOWS_SERVER_DIR: &'static str = "C:\\Program Files\\MongoDB\\Server";

/// Last message of a successful Linux run.
pub const LINUX_DONE_MESSAGE: &'static str = "MongoDB 8.0 installation completed successfully";

/// Last message of a successful Windows run.
pub const WINDOWS_DONE_MESSAGE: &'static str = "MongoDB installation completed successfully";

/// Operating systems with a known installation procedure.
#[derive(PartialEq, Eq, Structural, Clone, Copy, Debug)]
pub enum Platform {
    Linux,
    Windows,
}

/// What a step does. Shell steps run one command line; the others are
/// procedures of their own, carried out by the host one process at a time.
pub enum Procedure {
    Shell(String),
    CreateDataDirectory,
    DownloadInstaller,
    RunInstaller,
    AddToPath,
    StartService,
}

/// A procedure as plain values.
pub enum ProcedureView {
    Shell(Seq<char>),
    CreateDataDirectory,
    DownloadInstaller,
    RunInstaller,
    AddToPath,
    StartService,
}

impl View for Procedure {
    type V = ProcedureView;

    open spec fn view(&self) -> ProcedureView {
        match self {
            Procedure::Shell(c) => ProcedureView::Shell(c@),
            Procedure::CreateDataDirectory => ProcedureView::CreateDataDirectory,
            Procedure::DownloadInstaller => ProcedureView::DownloadInstaller,
            Procedure::RunInstaller => ProcedureView::RunInstaller,
            Procedure::AddToPath => ProcedureView::AddToPath,
            Procedure::StartService => ProcedureView::StartService,
        }
    }
}

/// One step of an installation plan.
pub struct InstallationStep {
    pub description: String,
    pub procedure: Procedure,
    /// The step runs with the privileged secret interpolated into its command.
    pub needs_secret: bool,
    /// Text put before the reason when the step cannot be carried out.
    pub failure_prefix: String,
}

/// A step as plain values.
pub struct StepView {
    pub description: Seq<char>,
    pub procedure: ProcedureView,
    pub needs_secret: bool,
    pub failure_prefix: Seq<char>,
}

impl View for InstallationStep {
    type V = StepView;

    open spec fn view(&self) -> StepView {
        StepView {
            description: self.description@,
            procedure: self.procedure@,
            needs_secret: self.needs_secret,
            failure_prefix: self.failure_prefix@,
        }
    }
}

/// The ordered steps of one platform.
pub struct InstallPlan {
    pub platform: Platform,
    pub steps: Vec<InstallationStep>,
}

/// The steps of a plan as plain values.
pub open spec fn steps_view(steps: Seq<InstallationStep>) -> Seq<StepView> {
    steps.map_values(|s: InstallationStep| s@)
}

/// Reason given when a Linux step's process cannot be started.
pub open spec fn spawn_failure_prefix(step_number: nat) -> Seq<char> {
    "Failed to spawn command at step "@ + decimal(step_number)
}

/// Descriptions of the Linux steps, in order.
pub open spec fn linux_descriptions() -> Seq<Seq<char>> {
    seq![
        "Updating package database"@,
        "Installing dependencies"@,
        "Importing MongoDB GPG key"@,
        "Adding MongoDB repository"@,
        "Updating MongoDB package database"@,
        "Installing MongoDB packages"@,
        "Starting MongoDB service"@,
    ]
}

/// Commands of the Linux steps, in order.
pub open spec fn linux_commands() -> Seq<Seq<char>> {
    seq![
        "apt-get update"@,
        "apt-get install -y gnupg curl"@,
        "curl -fsSL https://www.mongodb.org/static/pgp/server-8.0.asc | gpg --yes -o /usr/share/keyrings/mongodb-server-8.0.gpg --dearmor"@,
        "echo \"deb [ arch=amd64,arm64 signed-by=/usr/share/keyrings/mongodb-server-8.0.gpg ] https://repo.mongodb.org/apt/ubuntu noble/mongodb-org/8.0 multiverse\" | tee /etc/apt/sources.list.d/mongodb-org-8.0.list"@,
        "apt-get update -o Dir::Etc::sourcelist=\"sources.list.d/mongodb-org-8.0.list\" -o Dir::Etc::sourceparts=\"-\" -o APT::Get::List-Cleanup=\"0\""@,
        "DEBIAN_FRONTEND=noninteractive apt-get install -y mongodb-org"@,
        "systemctl daemon-reload && systemctl enable mongod && systemctl start mongod"@,
    ]
}

/// The Linux plan: seven privileged shell commands.
pub open spec fn is_linux_plan(p: InstallPlan) -> bool {
    &&& p.platform == Platform::Linux
    &&& p.steps@.len() == 7
    &&& forall|i: int|
        0 <= i < 7 ==> {
            let s = #[trigger] p.steps@[i]@;
            &&& s.description == linux_descriptions()[i]
            &&& s.procedure == ProcedureView::Shell(linux_commands()[i])
            &&& s.needs_secret
            &&& s.failure_prefix == spawn_failure_prefix((i + 1) as nat)
        }
}

/// The Windows plan: five procedures without a privileged secret.
pub open spec fn is_windows_plan(p: InstallPlan) -> bool {
    &&& p.platform == Platform::Windows
    &&& p.steps@.len() == 5
    &&& steps_view(p.steps@) == seq![
        StepView {
            description: "Creating MongoDB data directory"@,
            procedure: ProcedureView::CreateDataDirectory,
            needs_secret: false,
            failure_prefix: "Failed to create data directory"@,
        },
        StepView {
            description: "Downloading MongoDB installer"@,
            procedure: ProcedureView::DownloadInstaller,
            needs_secret: false,
            failure_prefix: "Failed to download MongoDB installer"@,
        },
        StepView {
            description: "Installing MongoDB"@,
            procedure: ProcedureView::RunInstaller,
            needs_secret: false,
            failure_prefix: "Failed to install MongoDB"@,
        },
        StepView {
            description: "Adding MongoDB to system PATH"@,
            procedure: ProcedureView::AddToPath,
            needs_secret: false,
            failure_prefix: "Failed to add MongoDB to PATH"@,
        },
        StepView {
            description: "Starting MongoDB service"@,
            procedure: ProcedureView::StartService,
            needs_secret: false,
            failure_prefix: "Failed to start MongoDB service"@,
        },
    ]
}

fn linux_step(number: u64, description: &str, command: &str) -> (r: InstallationStep)
    ensures
        r@ == (StepView {
            description: description@,
            procedure: ProcedureView::Shell(command@),
            needs_secret: true,
            failure_prefix: spawn_failure_prefix(number as nat),
        }),
{
    let mut prefix = String::from_str("Failed to spawn command at step ");
    let digits = decimal_string(number);
    prefix.append(digits.as_str());
    InstallationStep {
        description: String::from_str(description),
        procedure: Procedure::Shell(String::from_str(command)),
        needs_secret: true,
        failure_prefix: prefix,
    }
}

fn plain_step(description: &str, procedure: Procedure, failure_prefix: &str) -> (r:
    InstallationStep)
    ensures
        r@ == (StepView {
            description: description@,
            procedure: procedure@,
            needs_secret: false,
            failure_prefix: failure_prefix@,
        }),
{
    InstallationStep {
        description: String::from_str(description),
        procedure,
        needs_secret: false,
        failure_prefix: String::from_str(failure_prefix),
    }
}

impl InstallPlan {
    /// Installation from the vendor's package repository on Ubuntu 24.04.
    pub fn linux() -> (r: Self)
        ensures
            is_linux_plan(r),
    {
        let mut steps: Vec<InstallationStep> = Vec::new();
        steps.push(linux_step(1, "Updating package database", "apt-get update"));
        steps.push(linux_step(2, "Installing dependencies", "apt-get install -y gnupg curl"));
        steps.push(linux_step(3, "Importing MongoDB GPG key",
            "curl -fsSL https://www.mongodb.org/static/pgp/server-8.0.asc | gpg --yes -o /usr/share/keyrings/mongodb-server-8.0.gpg --dearmor"));
        steps.push(linux_step(4, "Adding MongoDB repository",
            "echo \"deb [ arch=amd64,arm64 signed-by=/usr/share/keyrings/mongodb-server-8.0.gpg ] https://repo.mongodb.org/apt/ubuntu noble/mongodb-org/8.0 multiverse\" | tee /etc/apt/sources.list.d/mongodb-org-8.0.list"));
        steps.push(linux_step(5, "Updating MongoDB package database",
            "apt-get update -o Dir::Etc::sourcelist=\"sources.list.d/mongodb-org-8.0.list\" -o Dir::Etc::sourceparts=\"-\" -o APT::Get::List-Cleanup=\"0\""));
        steps.push(linux_step(6, "Installing MongoDB packages",
            "DEBIAN_FRONTEND=noninteractive apt-get install -y mongodb-org"));
        steps.push(linux_step(7, "Starting MongoDB service",
            "systemctl daemon-reload && systemctl enable mongod && systemctl start mongod"));
        InstallPlan { platform: Platform::Linux, steps }
    }

    /// Installation from the vendor's installer package on Windows.
    pub fn windows() -> (r: Self)
        ensures
            is_windows_plan(r),
    {
        let mut steps: Vec<InstallationStep> = Vec::new();
        steps.push(plain_step("Creating MongoDB data directory", Procedure::CreateDataDirectory,
            "Failed to create data directory"));
        steps.push(plain_step("Downloading MongoDB installer", Procedure::DownloadInstaller,
            "Failed to download MongoDB installer"));
        steps.push(plain_step("Installing MongoDB", Procedure::RunInstaller,
            "Failed to install MongoDB"));
        steps.push(plain_step("Adding MongoDB to system PATH", Procedure::AddToPath,
            "Failed to add MongoDB to PATH"));
        steps.push(plain_step("Starting MongoDB service", Procedure::StartService,
            "Failed to start MongoDB service"));
        let r = InstallPlan { platform: Platform::Windows, steps };
        assert(steps_view(r.steps@) =~= seq![r.steps@[0]@, r.steps@[1]@, r.steps@[2]@,
            r.steps@[3]@, r.steps@[4]@]);
        r
    }
}

/// The plan of the operating system named `os` (in Rust's naming of
/// operating systems); an unknown one is rejected before any step runs.
pub fn plan_for_os(os: &str) -> (r: Result<InstallPlan, String>)
    ensures
        os@ == "linux"@ ==> (r matches Ok(p) && is_linux_plan(p)),
        os@ == "windows"@ ==> (r matches Ok(p) && is_windows_plan(p)),
        !(os@ == "linux"@ || os@ == "windows"@) ==> (r matches Err(m) && m@
            == "Unsupported operating system: "@ + os@),
{
    proof {
        reveal_strlit("linux");
        reveal_strlit("windows");
        assert("linux"@.len() != "windows"@.len());
    }
    let name = String::from_str(os);
    if name == String::from_str("linux") {
        Ok(InstallPlan::linux())
    } else if name == String::from_str("windows") {
        Ok(InstallPlan::windows())
    } else {
        let mut m = String::from_str("Unsupported operating system: ");
        m.append(os);
        Err(m)
    }
}

} // verus!
