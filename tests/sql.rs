use og_cli::sql::{ContainerOp, ContainerStatus, SqlPlugin, SqlSubcommands, CONTAINER_NAME};

#[test]
fn start_plans() {
    assert_eq!(SqlPlugin::plan(SqlSubcommands::Start, ContainerStatus::Running), vec![]);
    assert_eq!(
        SqlPlugin::plan(SqlSubcommands::Start, ContainerStatus::Empty),
        vec![ContainerOp::CreateAndStart]
    );
    assert_eq!(
        SqlPlugin::plan(SqlSubcommands::Start, ContainerStatus::Exited),
        vec![ContainerOp::Restart]
    );
}

#[test]
fn stop_and_remove_plans() {
    assert_eq!(SqlPlugin::plan(SqlSubcommands::Stop, ContainerStatus::Exited), vec![]);
    assert_eq!(
        SqlPlugin::plan(SqlSubcommands::Stop, ContainerStatus::Running),
        vec![ContainerOp::Stop]
    );
    assert_eq!(SqlPlugin::plan(SqlSubcommands::Remove, ContainerStatus::Empty), vec![]);
    assert_eq!(
        SqlPlugin::plan(SqlSubcommands::Remove, ContainerStatus::Running),
        vec![ContainerOp::Stop, ContainerOp::Remove]
    );
    assert_eq!(
        SqlPlugin::plan(SqlSubcommands::Remove, ContainerStatus::Exited),
        vec![ContainerOp::Remove]
    );
    assert_eq!(
        SqlPlugin::plan(SqlSubcommands::Status, ContainerStatus::Dead),
        vec![ContainerOp::ReportStatus]
    );
}

#[test]
fn container_settings() {
    assert_eq!(CONTAINER_NAME, "mssql-local");
    assert_eq!(SqlPlugin::container_env("s3cret"), vec!["MSSQL_SA_PASSWORD=s3cret", "ACCEPT_EULA=Y"]);
    assert_eq!(SqlPlugin::port_key(), "1433/tcp");
    let f = SqlPlugin::docker_check(false).err().unwrap();
    assert_eq!(f.message, "Docker daemon is not running or might not be installed");
    assert_eq!(SqlPlugin::docker_check(true).ok().unwrap().plugin, "Sql");
}
