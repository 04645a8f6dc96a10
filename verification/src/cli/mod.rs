//! The command line: what each subcommand asks of the running daemon, and
//! setting up the editor hooks (`init`).

pub mod init;

use vstd::prelude::*;

verus! {

/// The subcommands that talk to the daemon over HTTP.
#[derive(Debug)]
pub enum DaemonCommand {
    /// `streambreak show [--reason R]`
    Show { reason: Option<String> },
    /// `streambreak hide [--reason R]`
    Hide { reason: Option<String> },
    /// `streambreak timer start`
    TimerStart,
    /// `streambreak timer status`
    TimerStatus,
}

/// The HTTP method of a request.
#[derive(Debug, Clone, Copy, PartialEq, Eq, Structural)]
pub enum HttpMethod {
    Get,
    Post,
}

/// What to print when the daemon answered.
#[derive(Debug)]
pub enum OnSuccess {
    /// Print this line.
    Print(String),
    /// Print the body of the answer.
    PrintBody,
    /// Print nothing.
    Nothing,
}

/// The request for a subcommand.
#[derive(Debug)]
pub struct DaemonRequest {
    pub method: HttpMethod,
    pub url: String,
    pub on_success: OnSuccess,
}

/// Where the daemon listens.
pub open spec fn daemon_base() -> Seq<char> {
    "http://127.0.0.1:19840"@
}

/// The address of an endpoint, with the reason as a query when one is given
/// (passed on as written).
pub open spec fn endpoint_url(path: Seq<char>, reason: Option<String>) -> Seq<char> {
    match reason {
        Some(r) => daemon_base() + path + "?reason="@ + r@,
        None => daemon_base() + path,
    }
}

/// The request that a subcommand sends.
pub open spec fn request_for(cmd: DaemonCommand, r: DaemonRequest) -> bool {
    match cmd {
        DaemonCommand::Show { reason } => {
            &&& r.method == HttpMethod::Post
            &&& r.url@ == endpoint_url("/api/show"@, reason)
            &&& r.on_success matches OnSuccess::Print(m) && m@ == "Popup shown"@
        },
        DaemonCommand::Hide { reason } => {
            &&& r.method == HttpMethod::Post
            &&& r.url@ == endpoint_url("/api/hide"@, reason)
            &&& r.on_success matches OnSuccess::Print(m) && m@ == "Popup hidden"@
        },
        DaemonCommand::TimerStart => {
            &&& r.method == HttpMethod::Post
            &&& r.url@ == daemon_base() + "/api/timer/start"@
            &&& r.on_success is Nothing
        },
        DaemonCommand::TimerStatus => {
            &&& r.method == HttpMethod::Get
            &&& r.url@ == daemon_base() + "/api/status"@
            &&& r.on_success is PrintBody
        },
    }
}

fn url_for(path: &str, reason: &Option<String>) -> (r: String)
    ensures
        r@ == endpoint_url(path@, *reason),
{
    let url = String::from_str("http://127.0.0.1:19840").concat(path);
    match reason {
        Some(r) => url.concat("?reason=").concat(r.as_str()),
        None => url,
    }
}

/// The request that a subcommand sends to the daemon, and what to print
/// when it answers.
pub fn daemon_request(cmd: &DaemonCommand) -> (r: DaemonRequest)
    ensures
        request_for(*cmd, r),
{
    match cmd {
        DaemonCommand::Show { reason } => DaemonRequest {
            method: HttpMethod::Post,
            url: url_for("/api/show", reason),
            on_success: OnSuccess::Print(String::from_str("Popup shown")),
        },
        DaemonCommand::Hide { reason } => DaemonRequest {
            method: HttpMethod::Post,
            url: url_for("/api/hide", reason),
            on_success: OnSuccess::Print(String::from_str("Popup hidden")),
        },
        DaemonCommand::TimerStart => DaemonRequest {
            method: HttpMethod::Post,
            url: url_for("/api/timer/start", &None),
            on_success: OnSuccess::Nothing,
        },
        DaemonCommand::TimerStatus => DaemonRequest {
            method: HttpMethod::Get,
            url: url_for("/api/status", &None),
            on_success: OnSuccess::PrintBody,
        },
    }
}

/// The line printed when the daemon cannot be reached.
pub fn connect_failure_message(error: &str) -> (r: String)
    ensures
        r@ == "Failed to connect to daemon: "@ + error@,
{
    String::from_str("Failed to connect to daemon: ").concat(error)
}

} // verus!
