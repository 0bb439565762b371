use og_cli::common_docker::{daemon_running_from_info, indent, DockerComposeBuilder, Volume};

#[test]
fn build_simple_service() {
    let dockerbuilder =
        DockerComposeBuilder::new().add_service("test", "testimage", None, None, None, None);
    assert_eq!(
        dockerbuilder.build_string(),
        "service:\n  test:\n    image: testimage\n"
    )
}

#[test]
fn build_multiple_service() {
    let dockerbuilder = DockerComposeBuilder::new()
        .add_service("test", "testimage", None, None, None, None)
        .add_service("test2", "testimage3", None, None, None, None);
    assert_eq!(
        dockerbuilder.build_string(),
        "service:\n  test:\n    image: testimage\n  test2:\n    image: testimage3\n"
    )
}

#[test]
fn empty_builder_renders_only_the_key() {
    assert_eq!(DockerComposeBuilder::new().build_string(), "service:\n");
}

#[test]
fn indent_adds_two_spaces() {
    assert_eq!(indent("a: b".to_string()), "  a: b");
}

#[test]
fn service_with_every_section() {
    let volume = Volume {
        volume_name: "data".to_string(),
        volume_type: "volume".to_string(),
        bind: "/data/db".to_string(),
        mode: "rw".to_string(),
    };
    let builder = DockerComposeBuilder::new().add_service(
        "mongodb",
        "mongo:7",
        Some("mongod --replSet rs0"),
        Some(vec![
            ("USER".to_string(), "root".to_string()),
            ("PASS".to_string(), "secret".to_string()),
        ]),
        Some(vec![(27017, 27018)]),
        Some(vec![volume]),
    );
    let lines = builder.services[0].build();
    assert_eq!(
        lines,
        vec![
            "mongodb:",
            "  image: mongo:7",
            "  command: mongod --replSet rs0",
            "  environment:",
            "    - USER=root",
            "    - PASS=secret",
            "  ports:",
            "    - \"27017:27018\"",
            "  volumes:",
            "  - data:/data/db",
        ]
    );
    assert_eq!(
        builder.build_string(),
        "service:\n  mongodb:\n    image: mongo:7\n    command: mongod --replSet rs0\n    environment:\n      - USER=root\n      - PASS=secret\n    ports:\n      - \"27017:27018\"\n    volumes:\n    - data:/data/db\n"
    );
}

#[test]
fn compose_file_lists_volume_names() {
    let v1 = Volume {
        volume_name: "data".to_string(),
        volume_type: "volume".to_string(),
        bind: "/data".to_string(),
        mode: "rw".to_string(),
    };
    let v2 = Volume {
        volume_name: "logs".to_string(),
        volume_type: "volume".to_string(),
        bind: "/logs".to_string(),
        mode: "rw".to_string(),
    };
    let builder = DockerComposeBuilder::new()
        .add_service("a", "img", None, None, None, Some(vec![v1]))
        .add_service("b", "img2", None, None, None, Some(vec![v2]));
    assert_eq!(
        builder.build_file(),
        "services:\n  a:\n    image: img\n    volumes:\n    - data:/data\n  b:\n    image: img2\n    volumes:\n    - logs:/logs\nvolumes:\n  data:  logs:"
    );
}

#[test]
fn daemon_state_from_docker_info() {
    assert!(daemon_running_from_info(""));
    assert!(!daemon_running_from_info(
        "Cannot connect to the Docker daemon at unix:///var/run/docker.sock. Is the docker daemon running?"
    ));
}
