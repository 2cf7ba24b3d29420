//! The server process: how it is launched, and how it is stopped.

use vstd::prelude::*;
use vstd::string::StringExecFns;

verus! {

/// The prefix of the names of the directories that servers work in.
pub const DIRECTORY_PREFIX: &'static str = "zingo_darkside_test";

/// A running server: its process, the port that it listens at, and its directory.
#[derive(Debug)]
pub struct DarksideHandler<P, D> {
    pub lightwalletd_handle: P,
    pub grpc_port: String,
    pub darkside_dir: D,
}

/// How a server is launched.
#[derive(Debug, PartialEq, Eq)]
pub struct LaunchPlan {
    /// The directory of the logs, in that of the server.
    pub logs: String,
    /// The directory of the configuration, in that of the server.
    pub conf: String,
    /// The directory of the data, in that of the server.
    pub data: String,
    /// The directory of the program, in that of the package.
    pub binary: String,
    /// How long to wait between two looks at whether the server is up.
    pub check_interval_millis: u64,
    /// The address that the server listens at.
    pub grpc_bind_addr: Option<String>,
}

/// The address at which a server listens to this machine alone.
pub open spec fn bind_address(grpc_port: Seq<char>) -> Seq<char> {
    "127.0.0.1:"@ + grpc_port
}

/// Plans the launch of a server that listens at a port of this machine.
pub fn launch_plan(grpc_port: &str) -> (r: LaunchPlan)
    ensures
        r.logs@ == "logs"@,
        r.conf@ == "conf"@,
        r.data@ == "data"@,
        r.binary@ == "lightwalletd_bin"@,
        r.check_interval_millis == 300,
        r.grpc_bind_addr matches Some(address) && address@ == bind_address(grpc_port@)
            && address@ == "127.0.0.1:"@ + grpc_port@,
{
    LaunchPlan {
        logs: "logs".to_owned(),
        conf: "conf".to_owned(),
        data: "data".to_owned(),
        binary: "lightwalletd_bin".to_owned(),
        check_interval_millis: 300,
        grpc_bind_addr: Some("127.0.0.1:".to_owned().concat(grpc_port)),
    }
}

impl<P, D> DarksideHandler<P, D> {
    /// The handler of a server that was launched.
    pub fn new(lightwalletd_handle: P, grpc_port: String, darkside_dir: D) -> (r: Self)
        ensures
            r == (DarksideHandler { lightwalletd_handle, grpc_port, darkside_dir }),
    {
        DarksideHandler { lightwalletd_handle, grpc_port, darkside_dir }
    }
}

/// What is left to do to stop a server.
#[derive(Clone, Copy, Debug, PartialEq, Eq)]
pub enum Shutdown {
    /// Run the `kill` command on the process.
    RunKill { process: u32 },
    /// Kill the process without the command.
    KillChild,
    /// Nothing.
    Finished,
}

/// The first thing to do to stop the server with the given process number.
pub fn shutdown(process: u32) -> (r: Shutdown)
    ensures
        r == (Shutdown::RunKill { process }),
{
    Shutdown::RunKill { process }
}

/// What came of the `kill` command.
#[derive(Clone, Copy, Debug, PartialEq, Eq)]
pub enum KillOutcome {
    /// It could not be run.
    NotRun,
    /// It was run, and exited with a failure.
    Failed,
    /// It was run, and exited with success.
    Worked,
}

/// What to do after the `kill` command: if it did not work, kill the process harder.
pub fn after_kill(outcome: KillOutcome) -> (r: Shutdown)
    ensures
        r == (if outcome == KillOutcome::Worked {
            Shutdown::Finished
        } else {
            Shutdown::KillChild
        }),
{
    match outcome {
        KillOutcome::Worked => Shutdown::Finished,
        KillOutcome::NotRun | KillOutcome::Failed => Shutdown::KillChild,
    }
}

} // verus!
