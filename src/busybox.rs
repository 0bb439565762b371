//! A throwaway busybox container: its compose definition. Starting and stopping it happens
//! elsewhere.

use vstd::prelude::*;

use crate::common_docker::DockerComposeBuilder;

verus! {

/// The busybox helper.
pub struct Busybox;

/// The busybox command.
pub struct BusyboxCommand {
    pub command: BusyboxSubcommands,
}

#[derive(Clone, Copy, Debug, PartialEq, Eq, Structural)]
pub enum BusyboxSubcommands {
    Start,
    Stop,
}

impl Busybox {
    /// The compose definition: one `busybox` service running `busybox:latest` that sleeps
    /// forever.
    pub fn compose() -> (r: DockerComposeBuilder)
        ensures
            r.services@.len() == 1,
            r.services@[0].name@ == "busybox"@,
            r.services@[0].image@ == "busybox:latest"@,
            r.services@[0].command matches Some(c) && c@ == "[\"sleep\", \"infinity\"]"@,
            r.services@[0].environment is None,
            r.services@[0].port_mapping is None,
            r.services@[0].volumes is None,
    {
        let r = DockerComposeBuilder::new().add_service(
            "busybox",
            "busybox:latest",
            Some("[\"sleep\", \"infinity\"]"),
            None,
            None,
            None,
        );
        assert(r.services@[0] == r.services@.last());
        r
    }
}

} // verus!
