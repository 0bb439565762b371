//! The local MongoDB service: its compose definition and its health check. Starting and
//! stopping the containers happens elsewhere.

use vstd::prelude::*;

use crate::common_docker::{DockerComposeBuilder, Volume};
use crate::doctor::{DoctorFailure, DoctorSuccess};

verus! {

/// The MongoDB command.
pub struct MongoDbCommand {
    pub command: MongoDbSubCommands,
}

#[derive(Clone, Copy, Debug, PartialEq, Eq, Structural)]
pub enum MongoDbSubCommands {
    Start,
    Stop,
}

/// The local MongoDB helper.
pub struct MongoDbPlugin;

impl MongoDbPlugin {
    /// The compose definition of the local MongoDB: one `mongodb-local` service running
    /// `mongo:latest` with an `admin`/`admin` root user, port 27017 published, and its data
    /// in the `mongodb-data` volume at `/data/db`.
    pub fn compose() -> (r: DockerComposeBuilder)
        ensures
            r.services@.len() == 1,
            r.services@[0].name@ == "mongodb-local"@,
            r.services@[0].image@ == "mongo:latest"@,
            r.services@[0].command is None,
            r.services@[0].environment matches Some(e) && e@.len() == 2
                && e@[0].0@ == "MONGO_INITDB_ROOT_USERNAME"@ && e@[0].1@ == "admin"@
                && e@[1].0@ == "MONGO_INITDB_ROOT_PASSWORD"@ && e@[1].1@ == "admin"@,
            r.services@[0].port_mapping matches Some(p) && p@ == seq![(27017u32, 27017u32)],
            r.services@[0].volumes matches Some(v) && v@.len() == 1 && v@[0].volume_name@
                == "mongodb-data"@ && v@[0].volume_type@ == "volume"@ && v@[0].bind@
                == "/data/db"@ && v@[0].mode@ == "rw"@,
    {
        let mut environment: Vec<(String, String)> = Vec::new();
        environment.push(
            (String::from_str("MONGO_INITDB_ROOT_USERNAME"), String::from_str("admin")),
        );
        environment.push(
            (String::from_str("MONGO_INITDB_ROOT_PASSWORD"), String::from_str("admin")),
        );
        let mut port_mapping: Vec<(u32, u32)> = Vec::new();
        port_mapping.push((27017, 27017));
        assert(port_mapping@ =~= seq![(27017u32, 27017u32)]);
        let mut volumes: Vec<Volume> = Vec::new();
        volumes.push(
            Volume {
                volume_name: String::from_str("mongodb-data"),
                volume_type: String::from_str("volume"),
                bind: String::from_str("/data/db"),
                mode: String::from_str("rw"),
            },
        );
        let r = DockerComposeBuilder::new().add_service(
            "mongodb-local",
            "mongo:latest",
            None,
            Some(environment),
            Some(port_mapping),
            Some(volumes),
        );
        assert(r.services@[0] == r.services@.last());
        r
    }

    /// The check of the Docker daemon, given whether it answers.
    pub fn docker_check(running: bool) -> (r: Result<DoctorSuccess, DoctorFailure>)
        ensures
            running ==> (r matches Ok(s) && s.plugin@ == "MongoDB"@ && s.message@
                == "Docker daemon is running"@),
            !running ==> (r matches Err(f) && f.plugin@ == "MongoDB"@ && f.message@
                == "Docker daemon is not running"@ && f.fix is None),
    {
        if running {
            Ok(
                DoctorSuccess {
                    message: String::from_str("Docker daemon is running"),
                    plugin: String::from_str("MongoDB"),
                },
            )
        } else {
            Err(
                DoctorFailure {
                    message: String::from_str("Docker daemon is not running"),
                    plugin: String::from_str("MongoDB"),
                    fix: None,
                },
            )
        }
    }
}

} // verus!
