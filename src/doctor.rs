//! Health checks: the records a check reports, the remediations a failed check may offer,
//! and the lines that the doctor command prints for them.

use vstd::prelude::*;

use crate::text::concat_str;

verus! {

/// The doctor command's options.
pub struct DoctorCommand {
    pub apply_fixes: bool,
}

/// A check that passed.
pub struct DoctorSuccess {
    pub message: String,
    pub plugin: String,
}

/// A remediation that the caller knows how to run.
#[derive(Clone, Copy, Debug, PartialEq, Eq, Structural)]
pub enum RemediationKind {
    /// Write an empty kubeconfig, backing up the old one.
    CreateEmptyKubeconfig,
    /// Ask for a Rancher API token and store it.
    AddRancherToken,
    /// Tell the user to install a missing tool; it cannot be done automatically.
    InstallTool,
}

/// A check that failed, with the remediation it offers, if any.
pub struct DoctorFailure {
    pub message: String,
    pub plugin: String,
    pub fix: Option<RemediationKind>,
}

/// The command-line tools that the network helpers need.
#[derive(Clone, Copy, Debug, PartialEq, Eq, Structural)]
pub enum Tools {
    Nslookup,
    Nmap,
    Ping,
}

pub open spec fn tool_name(t: Tools) -> Seq<char> {
    match t {
        Tools::Nslookup => "nslookup"@,
        Tools::Nmap => "nmap"@,
        Tools::Ping => "ping"@,
    }
}

impl Tools {
    /// The tool's command name.
    pub fn name(&self) -> (r: &'static str)
        ensures
            r@ == tool_name(*self),
    {
        match self {
            Tools::Nslookup => "nslookup",
            Tools::Nmap => "nmap",
            Tools::Ping => "ping",
        }
    }
}

/// The result of looking for `command` on the PATH, given whether it was found.
pub fn command_check(command: &str, found: bool) -> (r: Result<DoctorSuccess, DoctorFailure>)
    ensures
        found ==> (r matches Ok(s) && s.plugin@ == command@ && s.message@ == "is installed"@),
        !found ==> (r matches Err(f) && f.plugin@ == command@ && f.message@ == "tool "@ + command@
            + " is not available. Make sure it is in the PATH"@ && f.fix == Some(
            RemediationKind::InstallTool,
        )),
{
    if found {
        Ok(DoctorSuccess { message: String::from_str("is installed"), plugin: String::from_str(command) })
    } else {
        let message = concat_str("tool ", command).concat(
            " is not available. Make sure it is in the PATH",
        );
        Err(
            DoctorFailure {
                message,
                plugin: String::from_str(command),
                fix: Some(RemediationKind::InstallTool),
            },
        )
    }
}

/// The remediation to run for a failed check: its own, when fixes were asked for.
pub fn fix_to_apply(apply_fixes: bool, failure: &DoctorFailure) -> (r: Option<RemediationKind>)
    ensures
        r == if apply_fixes {
            failure.fix
        } else {
            None
        },
{
    if apply_fixes {
        failure.fix
    } else {
        None
    }
}

/// The line that the doctor prints for a check, given the outcome of its remediation if one
/// was run.
pub open spec fn report_line(
    result: Result<DoctorSuccess, DoctorFailure>,
    fix_outcome: Option<Result<(), String>>,
) -> Seq<char> {
    match result {
        Ok(s) => "\u{2705} "@ + s.plugin@ + ": "@ + s.message@,
        Err(f) => match fix_outcome {
            Some(Ok(())) => "\u{2705} Fixed "@ + f.plugin@ + ": "@ + f.message@,
            Some(Err(y)) => "\u{274c} Could not fix "@ + f.plugin@ + ": "@ + f.message@ + " : "@
                + y@,
            None => "\u{274c} "@ + f.plugin@ + ": "@ + f.message@,
        },
    }
}

/// The line that the doctor prints for a check.
pub fn doctor_report_line(
    result: &Result<DoctorSuccess, DoctorFailure>,
    fix_outcome: &Option<Result<(), String>>,
) -> (r: String)
    ensures
        r@ == report_line(*result, *fix_outcome),
{
    let mut line;
    match result {
        Ok(s) => {
            line = String::from_str("\u{2705} ");
            line.append(s.plugin.as_str());
            line.append(": ");
            line.append(s.message.as_str());
        },
        Err(f) => match fix_outcome {
            Some(Ok(())) => {
                line = String::from_str("\u{2705} Fixed ");
                line.append(f.plugin.as_str());
                line.append(": ");
                line.append(f.message.as_str());
            },
            Some(Err(y)) => {
                line = String::from_str("\u{274c} Could not fix ");
                line.append(f.plugin.as_str());
                line.append(": ");
                line.append(f.message.as_str());
                line.append(" : ");
                line.append(y.as_str());
            },
            None => {
                line = String::from_str("\u{274c} ");
                line.append(f.plugin.as_str());
                line.append(": ");
                line.append(f.message.as_str());
            },
        },
    }
    assert(line@ =~= report_line(*result, *fix_outcome));
    line
}

} // verus!
