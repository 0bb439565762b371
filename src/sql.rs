//! The local SQL Server container: what to do with it for each command, given the state the
//! container is in, and how it is configured. Talking to the Docker engine happens elsewhere.

use vstd::prelude::*;

use crate::doctor::{DoctorFailure, DoctorSuccess};
use crate::text::{concat_str, decimal};

verus! {

/// The container's name.
pub const CONTAINER_NAME: &'static str = "mssql-local";

/// The port that SQL Server listens on, in the container and on the host.
pub const PORT: u16 = 1433;

/// The SQL Server helper.
pub struct SqlPlugin;

/// The SQL Server command.
pub struct SqlCommand {
    pub command: SqlSubcommands,
}

#[derive(Clone, Copy, Debug, PartialEq, Eq, Structural)]
pub enum SqlSubcommands {
    Start,
    Stop,
    Remove,
    Status,
}

/// The state of the container as the Docker engine reports it; `Empty` when there is none.
#[derive(Clone, Copy, Debug, PartialEq, Eq, Structural)]
pub enum ContainerStatus {
    Empty,
    Created,
    Running,
    Paused,
    Restarting,
    Removing,
    Exited,
    Dead,
}

/// One operation on the container.
#[derive(Clone, Copy, Debug, PartialEq, Eq, Structural)]
pub enum ContainerOp {
    /// Pull the image, create the container and start it.
    CreateAndStart,
    Restart,
    Stop,
    Remove,
    /// Report the container's state.
    ReportStatus,
}

/// The operations for a command, in order; none when the container is already where the
/// command would bring it.
pub open spec fn sql_ops(command: SqlSubcommands, status: ContainerStatus) -> Seq<ContainerOp> {
    match command {
        SqlSubcommands::Start => if status == ContainerStatus::Running {
            seq![]
        } else if status == ContainerStatus::Empty {
            seq![ContainerOp::CreateAndStart]
        } else {
            seq![ContainerOp::Restart]
        },
        SqlSubcommands::Stop => if status == ContainerStatus::Exited {
            seq![]
        } else {
            seq![ContainerOp::Stop]
        },
        SqlSubcommands::Remove => if status == ContainerStatus::Empty {
            seq![]
        } else if status == ContainerStatus::Running {
            seq![ContainerOp::Stop, ContainerOp::Remove]
        } else {
            seq![ContainerOp::Remove]
        },
        SqlSubcommands::Status => seq![ContainerOp::ReportStatus],
    }
}

impl SqlPlugin {
    /// The operations that a command takes on a container in the given state.
    pub fn plan(command: SqlSubcommands, status: ContainerStatus) -> (r: Vec<ContainerOp>)
        ensures
            r@ == sql_ops(command, status),
    {
        let mut ops: Vec<ContainerOp> = Vec::new();
        match command {
            SqlSubcommands::Start => {
                if status == ContainerStatus::Running {
                } else if status == ContainerStatus::Empty {
                    ops.push(ContainerOp::CreateAndStart);
                } else {
                    ops.push(ContainerOp::Restart);
                }
            },
            SqlSubcommands::Stop => {
                if status != ContainerStatus::Exited {
                    ops.push(ContainerOp::Stop);
                }
            },
            SqlSubcommands::Remove => {
                if status == ContainerStatus::Empty {
                } else if status == ContainerStatus::Running {
                    ops.push(ContainerOp::Stop);
                    ops.push(ContainerOp::Remove);
                } else {
                    ops.push(ContainerOp::Remove);
                }
            },
            SqlSubcommands::Status => {
                ops.push(ContainerOp::ReportStatus);
            },
        }
        assert(ops@ =~= sql_ops(command, status));
        ops
    }

    /// The environment of a new container: the SA password, and the accepted licence.
    pub fn container_env(sql_password: &str) -> (r: Vec<String>)
        ensures
            r@.len() == 2,
            r@[0]@ == "MSSQL_SA_PASSWORD="@ + sql_password@,
            r@[1]@ == "ACCEPT_EULA=Y"@,
    {
        let mut env: Vec<String> = Vec::new();
        env.push(concat_str("MSSQL_SA_PASSWORD=", sql_password));
        env.push(String::from_str("ACCEPT_EULA=Y"));
        env
    }

    /// The container port key under which the host port is bound.
    pub fn port_key() -> (r: String)
        ensures
            r@ == decimal(PORT as nat) + "/tcp"@,
    {
        crate::text::decimal_string(PORT as u64).concat("/tcp")
    }

    /// The check of the Docker daemon, given whether it answers.
    pub fn docker_check(running: bool) -> (r: Result<DoctorSuccess, DoctorFailure>)
        ensures
            running ==> (r matches Ok(s) && s.plugin@ == "Sql"@ && s.message@
                == "Docker daemon is running"@),
            !running ==> (r matches Err(f) && f.plugin@ == "Sql"@ && f.message@
                == "Docker daemon is not running or might not be installed"@ && f.fix is None),
    {
        if running {
            Ok(
                DoctorSuccess {
                    message: String::from_str("Docker daemon is running"),
                    plugin: String::from_str("Sql"),
                },
            )
        } else {
            Err(
                DoctorFailure {
                    message: String::from_str(
                        "Docker daemon is not running or might not be installed",
                    ),
                    plugin: String::from_str("Sql"),
                    fix: None,
                },
            )
        }
    }
}

} // verus!
