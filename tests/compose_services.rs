use og_cli::busybox::Busybox;
use og_cli::mongo_db::MongoDbPlugin;

#[test]
fn mongodb_compose_file() {
    assert_eq!(
        MongoDbPlugin::compose().build_file(),
        "services:\n  mongodb-local:\n    image: mongo:latest\n    environment:\n      - MONGO_INITDB_ROOT_USERNAME=admin\n      - MONGO_INITDB_ROOT_PASSWORD=admin\n    ports:\n      - \"27017:27017\"\n    volumes:\n    - mongodb-data:/data/db\nvolumes:\n  mongodb-data:"
    );
}

#[test]
fn busybox_compose_file() {
    assert_eq!(
        Busybox::compose().build_file(),
        "services:\n  busybox:\n    image: busybox:latest\n    command: [\"sleep\", \"infinity\"]\nvolumes:\n"
    );
}

#[test]
fn docker_daemon_check() {
    assert_eq!(MongoDbPlugin::docker_check(true).ok().unwrap().message, "Docker daemon is running");
    let f = MongoDbPlugin::docker_check(false).err().unwrap();
    assert_eq!(f.message, "Docker daemon is not running");
    assert_eq!(f.plugin, "MongoDB");
}
