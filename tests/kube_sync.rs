use og_cli::kube_config::{
    create_empty_kubeconfig, Cluster as ClusterSpec, Context1, KubeConfig, KubeconfigPath,
    NamedCluster, NamedContext, NamedUser, User,
};
use og_cli::kubernetes::{
    apply_sync_action, apply_sync_actions, cleanup_kubeconfig, create_kubeconfig_entry,
    credentials_from_kubeconfig, delete_kubeconfig_entry, get_cluster_fullname,
    get_cluster_sync_actions, get_local_clusters, select_actions, split_cluster_name,
    update_kubeconfig_entry, Cluster, ClusterSyncAction, CredentialBundle, KubeError,
    KubernetesSubcommands, SyncAction,
};
use og_cli::rancher::{
    cluster_from_rancher, decode_kubeconfig_response, find_value, get_rancher_clusters,
    kubeconfig_from_envelope, RancherCluster,
};

fn entry_kubeconfig(entries: &[(&str, &str, &str)]) -> KubeConfig {
    let mut kc = create_empty_kubeconfig();
    for (name, server, token) in entries {
        kc.clusters.push(NamedCluster {
            name: name.to_string(),
            cluster: ClusterSpec { certificate_authority_data: None, server: server.to_string() },
        });
        kc.contexts.push(NamedContext {
            name: name.to_string(),
            context: Context1 {
                cluster: name.to_string(),
                namespace: None,
                user: name.to_string(),
            },
        });
        kc.users.push(NamedUser {
            name: name.to_string(),
            user: User {
                client_certificate_data: None,
                client_key_data: None,
                token: Some(token.to_string()),
            },
        });
    }
    kc
}

fn local(base: &str, suffix: &str, server: &str) -> Cluster {
    Cluster {
        id: format!("{}{}", base, suffix),
        name: base.to_string(),
        name_suffix: suffix.to_string(),
        server: server.to_string(),
        token_url: None,
    }
}

fn remote(id: &str, base: &str, suffix: &str, server: &str) -> Cluster {
    Cluster {
        id: id.to_string(),
        name: base.to_string(),
        name_suffix: suffix.to_string(),
        server: server.to_string(),
        token_url: Some(format!("https://mgmt/v3/clusters/{}?action=generateKubeconfig", id)),
    }
}

fn record(id: &str, name: &str, self_link: Option<&str>, action: Option<&str>) -> RancherCluster {
    RancherCluster {
        id: id.to_string(),
        name: name.to_string(),
        links: self_link
            .map(|l| vec![("self".to_string(), l.to_string())])
            .unwrap_or_default(),
        actions: action
            .map(|a| vec![("generateKubeconfig".to_string(), a.to_string())])
            .unwrap_or_default(),
    }
}

fn kinds(plan: &[ClusterSyncAction]) -> Vec<SyncAction> {
    plan.iter().map(|a| a.action).collect()
}

fn bundle(server: &str, token: &str) -> CredentialBundle {
    CredentialBundle { server: server.to_string(), token: token.to_string() }
}

#[test]
fn converged_pair_plans_nothing() {
    let l = vec![local("dg-cluster", "001", "https://a")];
    let r = vec![remote("r1", "dg-cluster", "001", "https://a")];
    assert!(get_cluster_sync_actions(&l, &r).is_empty());
}

#[test]
fn newer_remote_suffix_plans_one_update() {
    let l = vec![local("dg-cluster", "001", "https://a")];
    let r = vec![remote("r1", "dg-cluster", "002", "https://a")];
    let plan = get_cluster_sync_actions(&l, &r);
    assert_eq!(kinds(&plan), vec![SyncAction::Update]);
    assert_eq!(plan[0].local_cluster.as_ref().unwrap().id, "dg-cluster001");
    assert_eq!(plan[0].rancher_cluster.as_ref().unwrap().id, "r1");
}

#[test]
fn server_drift_plans_one_update() {
    let l = vec![local("dg-cluster", "002", "https://a")];
    let r = vec![remote("r1", "dg-cluster", "001", "https://b")];
    assert_eq!(kinds(&get_cluster_sync_actions(&l, &r)), vec![SyncAction::Update]);
}

#[test]
fn older_remote_suffix_same_server_plans_nothing() {
    let l = vec![local("dg-cluster", "002", "https://a")];
    let r = vec![remote("r1", "dg-cluster", "001", "https://a")];
    assert!(get_cluster_sync_actions(&l, &r).is_empty());
}

#[test]
fn plan_orders_creates_updates_deletes() {
    let l = vec![
        local("dg-gone", "001", "https://g"),
        local("dg-app", "001", "https://a"),
        local("manual", "001", "https://m"),
    ];
    let r = vec![
        remote("r2", "dg-new-b", "001", "https://nb"),
        remote("r1", "dg-app", "002", "https://a"),
        remote("r3", "dg-new-a", "001", "https://na"),
    ];
    let plan = get_cluster_sync_actions(&l, &r);
    assert_eq!(
        kinds(&plan),
        vec![SyncAction::Create, SyncAction::Create, SyncAction::Update, SyncAction::Delete]
    );
    assert_eq!(plan[0].rancher_cluster.as_ref().unwrap().id, "r2");
    assert_eq!(plan[1].rancher_cluster.as_ref().unwrap().id, "r3");
    assert!(plan[0].local_cluster.is_none());
    assert_eq!(plan[3].local_cluster.as_ref().unwrap().id, "dg-gone001");
    assert!(plan[3].rancher_cluster.is_none());
}

#[test]
fn empty_local_plans_only_creates() {
    let r = vec![
        remote("r1", "dg-a", "001", "https://a"),
        remote("r2", "other", "001", "https://o"),
    ];
    let plan = get_cluster_sync_actions(&Vec::new(), &r);
    assert_eq!(kinds(&plan), vec![SyncAction::Create, SyncAction::Create]);
}

#[test]
fn empty_remote_deletes_only_managed_entries() {
    let l = vec![local("dg-a", "001", "https://a"), local("mine", "001", "https://m")];
    let plan = get_cluster_sync_actions(&l, &Vec::new());
    assert_eq!(kinds(&plan), vec![SyncAction::Delete]);
    assert_eq!(plan[0].local_cluster.as_ref().unwrap().id, "dg-a001");
}

#[test]
fn unmanaged_entry_is_never_deleted() {
    let l = vec![local("team-x", "001", "https://x")];
    let r = vec![remote("r1", "dg-other", "001", "https://o")];
    let plan = get_cluster_sync_actions(&l, &r);
    assert!(plan.iter().all(|a| a.action != SyncAction::Delete));
}

#[test]
fn update_pairs_first_local_of_the_name() {
    let l = vec![
        local("dg-app", "003", "https://a"),
        local("dg-app", "001", "https://a"),
    ];
    let r = vec![remote("r1", "dg-app", "002", "https://a")];
    let plan = get_cluster_sync_actions(&l, &r);
    assert_eq!(kinds(&plan), vec![SyncAction::Update]);
    assert_eq!(plan[0].local_cluster.as_ref().unwrap().id, "dg-app003");
}

#[test]
fn planning_twice_gives_the_same_plan() {
    let kc = entry_kubeconfig(&[("dg-foo001", "https://old", "t"), ("dg-bar001", "https://b", "t")]);
    let r = vec![remote("r1", "dg-foo", "002", "https://old")];
    let first: Vec<String> = get_cluster_sync_actions(&get_local_clusters(&kc).unwrap(), &r)
        .iter()
        .map(|a| a.label())
        .collect();
    let mut kc = kc;
    apply_sync_actions(&mut kc, &Vec::new(), &Vec::new()).unwrap();
    let second: Vec<String> = get_cluster_sync_actions(&get_local_clusters(&kc).unwrap(), &r)
        .iter()
        .map(|a| a.label())
        .collect();
    assert_eq!(first, second);
    assert_eq!(first, vec!["[Update] dg-foo001 -> dg-foo002", "[Delete] dg-bar001 -> DELETE"]);
}

#[test]
fn labels_show_new_and_delete() {
    let create = ClusterSyncAction {
        local_cluster: None,
        rancher_cluster: Some(remote("r1", "dg-x", "001", "https://x")),
        action: SyncAction::Create,
    };
    assert_eq!(create.label(), "[Create] NEW -> dg-x001");
    let delete = ClusterSyncAction {
        local_cluster: Some(local("dg-y", "002", "https://y")),
        rancher_cluster: None,
        action: SyncAction::Delete,
    };
    assert_eq!(delete.label(), "[Delete] dg-y002 -> DELETE");
}

#[test]
fn local_clusters_split_names() {
    let kc = entry_kubeconfig(&[("dg-foo001", "https://old", "t")]);
    let clusters = get_local_clusters(&kc).unwrap();
    assert_eq!(clusters.len(), 1);
    assert_eq!(clusters[0].id, "dg-foo001");
    assert_eq!(clusters[0].name, "dg-foo");
    assert_eq!(clusters[0].name_suffix, "001");
    assert_eq!(clusters[0].server, "https://old");
    assert!(clusters[0].token_url.is_none());
    assert_eq!(get_cluster_fullname(&clusters[0]), "dg-foo001");
}

#[test]
fn short_local_name_is_rejected() {
    let kc = entry_kubeconfig(&[("dg-foo001", "https://a", "t"), ("ab", "https://b", "t")]);
    match get_local_clusters(&kc) {
        Err(KubeError::InvalidClusterName { name }) => assert_eq!(name, "ab"),
        _ => panic!("expected an invalid name"),
    }
}

#[test]
fn split_name_of_exactly_three_characters() {
    let (base, suffix) = split_cluster_name("001").unwrap();
    assert_eq!(base, "");
    assert_eq!(suffix, "001");
    assert!(split_cluster_name("01").is_none());
}

#[test]
fn rancher_record_becomes_cluster() {
    let rec = record(
        "r1",
        "dg-foo002",
        Some("https://mgmt/v3/clusters/r1"),
        Some("https://mgmt/v3/x"),
    );
    let c = cluster_from_rancher(&rec).unwrap();
    assert_eq!(c.id, "r1");
    assert_eq!(c.name, "dg-foo");
    assert_eq!(c.name_suffix, "002");
    assert_eq!(c.server, "https://mgmt/k8s/clusters/r1");
    assert_eq!(c.token_url.as_deref(), Some("https://mgmt/v3/x"));
}

#[test]
fn only_first_v3_marker_is_rewritten() {
    let rec = record("r1", "dg-foo002", Some("https://h/v3/clusters/v3"), Some("a"));
    assert_eq!(cluster_from_rancher(&rec).unwrap().server, "https://h/k8s/clusters/v3");
}

#[test]
fn rancher_record_errors() {
    assert!(matches!(
        cluster_from_rancher(&record("r1", "ab", Some("s"), Some("a"))),
        Err(KubeError::InvalidClusterName { .. })
    ));
    assert!(matches!(
        cluster_from_rancher(&record("r1", "dg-a001", None, Some("a"))),
        Err(KubeError::MissingSelfLink { .. })
    ));
    assert!(matches!(
        cluster_from_rancher(&record("r1", "dg-a001", Some("s"), None)),
        Err(KubeError::MissingKubeconfigAction { .. })
    ));
}

#[test]
fn broken_records_are_left_out_of_the_list() {
    let records = vec![
        record("r1", "dg-a001", Some("https://m/v3/a"), Some("x")),
        record("r2", "dg-b001", None, Some("y")),
        record("r3", "dg-c001", Some("https://m/v3/c"), Some("z")),
    ];
    let clusters = get_rancher_clusters(&records);
    let ids: Vec<&str> = clusters.iter().map(|c| c.id.as_str()).collect();
    assert_eq!(ids, vec!["r1", "r3"]);
}

#[test]
fn find_value_takes_the_first_match() {
    let pairs = vec![
        ("a".to_string(), "1".to_string()),
        ("b".to_string(), "2".to_string()),
        ("a".to_string(), "3".to_string()),
    ];
    assert_eq!(find_value(&pairs, "a").as_deref(), Some("1"));
    assert_eq!(find_value(&pairs, "c"), None);
}

#[test]
fn credential_response_is_decoded() {
    let body = r#"{"baseType":"generateKubeConfigOutput","config":"apiVersion: v1\nkind: Config\n","type":"generateKubeConfigOutput"}"#;
    assert_eq!(decode_kubeconfig_response(200, body).unwrap(), "apiVersion: v1\nkind: Config\n");
}

#[test]
fn credential_response_errors() {
    match decode_kubeconfig_response(401, "denied") {
        Err(KubeError::CredentialFetch { status, body }) => {
            assert_eq!(status, 401);
            assert_eq!(body, "denied");
        }
        _ => panic!("expected a fetch error"),
    }
    assert!(matches!(
        decode_kubeconfig_response(200, "not json"),
        Err(KubeError::CredentialDecode)
    ));
    assert!(matches!(
        decode_kubeconfig_response(200, r#"{"config": 5}"#),
        Err(KubeError::CredentialDecode)
    ));
    assert!(matches!(kubeconfig_from_envelope(None), Err(KubeError::CredentialDecode)));
}

#[test]
fn minted_credentials_are_read() {
    let minted = entry_kubeconfig(&[("c-1", "https://new", "tok"), ("c-2", "https://other", "t2")]);
    let b = credentials_from_kubeconfig(&minted).unwrap();
    assert_eq!(b.server, "https://new");
    assert_eq!(b.token, "tok");
    assert!(matches!(
        credentials_from_kubeconfig(&create_empty_kubeconfig()),
        Err(KubeError::IncompleteCredentials)
    ));
    let mut no_token = entry_kubeconfig(&[("c-1", "https://new", "tok")]);
    no_token.users[0].user.token = None;
    assert!(matches!(
        credentials_from_kubeconfig(&no_token),
        Err(KubeError::IncompleteCredentials)
    ));
}

#[test]
fn end_to_end_update() {
    let mut kc = entry_kubeconfig(&[("dg-foo001", "https://old", "old-token")]);
    let locals = get_local_clusters(&kc).unwrap();
    let remotes = get_rancher_clusters(&vec![record(
        "r1",
        "dg-foo002",
        Some("https://mgmt/v3/clusters/r1"),
        Some("https://mgmt/v3/x"),
    )]);
    let plan = get_cluster_sync_actions(&locals, &remotes);
    assert_eq!(kinds(&plan), vec![SyncAction::Update]);
    let minted = entry_kubeconfig(&[("dg-foo002", "https://new", "tok")]);
    let creds = vec![Some(credentials_from_kubeconfig(&minted).unwrap())];
    apply_sync_actions(&mut kc, &plan, &creds).unwrap();
    assert_eq!(kc.clusters.len(), 1);
    assert_eq!(kc.clusters[0].name, "dg-foo001");
    assert_eq!(kc.clusters[0].cluster.server, "https://new");
    assert_eq!(kc.users[0].name, "dg-foo001");
    assert_eq!(kc.users[0].user.token.as_deref(), Some("tok"));
    assert_eq!(kc.contexts[0].name, "dg-foo001");
}

#[test]
fn create_adds_a_named_triple() {
    let mut kc = create_empty_kubeconfig();
    create_kubeconfig_entry(&mut kc, &remote("r1", "dg-new", "004", "https://x"), &bundle("https://s", "t"));
    assert_eq!(kc.clusters[0].name, "dg-new004");
    assert_eq!(kc.clusters[0].cluster.server, "https://s");
    assert_eq!(kc.contexts[0].context.cluster, "dg-new004");
    assert_eq!(kc.contexts[0].context.user, "dg-new004");
    assert_eq!(kc.users[0].user.token.as_deref(), Some("t"));
}

#[test]
fn update_without_entry_fails() {
    let mut kc = entry_kubeconfig(&[("dg-a001", "https://a", "t")]);
    let r = update_kubeconfig_entry(&mut kc, &local("dg-b", "001", "https://b"), &bundle("s", "t"));
    assert!(matches!(r, Err(KubeError::EntryNotFound { .. })));
    assert_eq!(kc.clusters[0].cluster.server, "https://a");
}

#[test]
fn delete_removes_the_triple_only() {
    let mut kc = entry_kubeconfig(&[("dg-a001", "https://a", "t"), ("dg-b001", "https://b", "t")]);
    delete_kubeconfig_entry(&mut kc, &local("dg-a", "001", "https://a"));
    assert_eq!(kc.clusters.len(), 1);
    assert_eq!(kc.contexts.len(), 1);
    assert_eq!(kc.users.len(), 1);
    assert_eq!(kc.clusters[0].name, "dg-b001");
}

#[test]
fn create_without_credentials_is_incomplete() {
    let mut kc = create_empty_kubeconfig();
    let create = ClusterSyncAction {
        local_cluster: None,
        rancher_cluster: Some(remote("r1", "dg-x", "001", "https://x")),
        action: SyncAction::Create,
    };
    assert!(matches!(
        apply_sync_action(&mut kc, &create, &None),
        Err(KubeError::IncompleteAction)
    ));
}

#[test]
fn failing_batch_reports_the_error() {
    let mut kc = entry_kubeconfig(&[("dg-a001", "https://a", "t")]);
    let actions = vec![
        ClusterSyncAction {
            local_cluster: None,
            rancher_cluster: Some(remote("r1", "dg-x", "001", "https://x")),
            action: SyncAction::Create,
        },
        ClusterSyncAction {
            local_cluster: Some(local("dg-missing", "001", "https://m")),
            rancher_cluster: Some(remote("r2", "dg-missing", "002", "https://m")),
            action: SyncAction::Update,
        },
    ];
    let creds = vec![Some(bundle("https://s", "t")), Some(bundle("https://s2", "t2"))];
    assert!(matches!(
        apply_sync_actions(&mut kc, &actions, &creds),
        Err(KubeError::EntryNotFound { .. })
    ));
    assert!(matches!(
        apply_sync_actions(&mut kc, &actions, &Vec::new()),
        Err(KubeError::IncompleteAction)
    ));
}

#[test]
fn selection_keeps_the_order_chosen() {
    let r = vec![
        remote("r1", "dg-a", "001", "https://a"),
        remote("r2", "dg-b", "001", "https://b"),
    ];
    let plan = get_cluster_sync_actions(&Vec::new(), &r);
    let chosen = select_actions(&plan, &vec![1, 0]).unwrap();
    assert_eq!(chosen[0].rancher_cluster.as_ref().unwrap().id, "r2");
    assert_eq!(chosen[1].rancher_cluster.as_ref().unwrap().id, "r1");
    assert!(matches!(
        select_actions(&plan, &vec![2]),
        Err(KubeError::SelectionOutOfRange { index: 2 })
    ));
}

#[test]
fn cleanup_removes_selected_entries() {
    let mut kc = entry_kubeconfig(&[
        ("dg-a001", "https://a", "t"),
        ("dg-b001", "https://b", "t"),
        ("dg-c001", "https://c", "t"),
    ]);
    assert!(cleanup_kubeconfig(&mut kc, &vec![2, 0]).unwrap());
    let names: Vec<&str> = kc.clusters.iter().map(|c| c.name.as_str()).collect();
    assert_eq!(names, vec!["dg-b001"]);
    assert_eq!(kc.users.len(), 1);
    assert_eq!(kc.contexts.len(), 1);
    assert!(!cleanup_kubeconfig(&mut kc, &Vec::new()).unwrap());
    assert!(matches!(
        cleanup_kubeconfig(&mut kc, &vec![5]),
        Err(KubeError::SelectionOutOfRange { index: 5 })
    ));
    assert_eq!(kc.clusters.len(), 1);
}

#[test]
fn empty_kubeconfig_has_markers() {
    let kc = create_empty_kubeconfig();
    assert_eq!(kc.api_version, "v1");
    assert_eq!(kc.kind, "Config");
    assert_eq!(kc.current_context, "");
    assert!(kc.clusters.is_empty() && kc.contexts.is_empty() && kc.users.is_empty());
}

#[test]
fn kubeconfig_paths_carry_the_timestamp() {
    let p = KubeconfigPath::new("/home/me", 1700000000);
    assert_eq!(p.path, "/home/me/.kube/config");
    assert_eq!(p.backup_path, "/home/me/.kube/config.bak-1700000000");
    assert_eq!(KubeconfigPath::new("/h", 0).backup_path, "/h/.kube/config.bak-0");
}

#[test]
fn backup_flag_follows_subcommand() {
    assert!(KubernetesSubcommands::Sync { no_backup: false }.kubeconfig_backup());
    assert!(!KubernetesSubcommands::Cleanup { no_backup: true }.kubeconfig_backup());
    assert!(!KubernetesSubcommands::Init {
        no_kubeconfig: false,
        no_rancher_token: false,
        no_backup: true
    }
    .kubeconfig_backup());
}
