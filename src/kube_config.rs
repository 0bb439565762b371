//! The kubeconfig document: clusters, contexts and users, each keyed by name, and the
//! edits that the synchroniser makes to it. Reading and writing the file happen elsewhere.

use vstd::prelude::*;
use vstd::seq_lib::lemma_filter_view_commute;

use crate::text::{concat_str, decimal, decimal_string, str_eq};

verus! {

#[verifier::external_type_specification]
#[verifier::external_body]
pub struct ExYamlValue(serde_yaml::Value);

/// The whole kubeconfig file.
pub struct KubeConfig {
    pub api_version: String,
    pub clusters: Vec<NamedCluster>,
    pub contexts: Vec<NamedContext>,
    pub current_context: String,
    pub kind: String,
    /// Carried through unread.
    pub preferences: Option<serde_yaml::Value>,
    pub users: Vec<NamedUser>,
}

pub struct NamedCluster {
    pub cluster: Cluster,
    pub name: String,
}

pub struct Cluster {
    pub certificate_authority_data: Option<String>,
    pub server: String,
}

pub struct NamedContext {
    pub context: Context1,
    pub name: String,
}

pub struct Context1 {
    pub cluster: String,
    pub namespace: Option<String>,
    pub user: String,
}

pub struct NamedUser {
    pub name: String,
    pub user: User,
}

pub struct User {
    pub client_certificate_data: Option<String>,
    pub client_key_data: Option<String>,
    pub token: Option<String>,
}

/// Where the kubeconfig lives, and where a backup of it goes.
pub struct KubeconfigPath {
    pub path: String,
    pub backup_path: String,
}

/// A cluster entry as plain values.
pub struct ClusterEntry {
    pub name: Seq<char>,
    pub server: Seq<char>,
    pub certificate_authority_data: Option<Seq<char>>,
}

/// A context entry as plain values.
pub struct ContextEntry {
    pub name: Seq<char>,
    pub cluster: Seq<char>,
    pub user: Seq<char>,
    pub namespace: Option<Seq<char>>,
}

/// A user entry as plain values.
pub struct UserEntry {
    pub name: Seq<char>,
    pub token: Option<Seq<char>>,
    pub client_certificate_data: Option<Seq<char>>,
    pub client_key_data: Option<Seq<char>>,
}

/// The kubeconfig as plain values.
pub struct KubeConfigView {
    pub api_version: Seq<char>,
    pub clusters: Seq<ClusterEntry>,
    pub contexts: Seq<ContextEntry>,
    pub current_context: Seq<char>,
    pub kind: Seq<char>,
    pub preferences: Option<serde_yaml::Value>,
    pub users: Seq<UserEntry>,
}

pub open spec fn opt_view(o: Option<String>) -> Option<Seq<char>> {
    match o {
        Some(s) => Some(s@),
        None => None,
    }
}

impl View for NamedCluster {
    type V = ClusterEntry;

    open spec fn view(&self) -> ClusterEntry {
        ClusterEntry {
            name: self.name@,
            server: self.cluster.server@,
            certificate_authority_data: opt_view(self.cluster.certificate_authority_data),
        }
    }
}

impl View for NamedContext {
    type V = ContextEntry;

    open spec fn view(&self) -> ContextEntry {
        ContextEntry {
            name: self.name@,
            cluster: self.context.cluster@,
            user: self.context.user@,
            namespace: opt_view(self.context.namespace),
        }
    }
}

impl View for NamedUser {
    type V = UserEntry;

    open spec fn view(&self) -> UserEntry {
        UserEntry {
            name: self.name@,
            token: opt_view(self.user.token),
            client_certificate_data: opt_view(self.user.client_certificate_data),
            client_key_data: opt_view(self.user.client_key_data),
        }
    }
}

impl View for KubeConfig {
    type V = KubeConfigView;

    open spec fn view(&self) -> KubeConfigView {
        KubeConfigView {
            api_version: self.api_version@,
            clusters: self.clusters@.map_values(|c: NamedCluster| c@),
            contexts: self.contexts@.map_values(|c: NamedContext| c@),
            current_context: self.current_context@,
            kind: self.kind@,
            preferences: self.preferences,
            users: self.users@.map_values(|u: NamedUser| u@),
        }
    }
}

/// Some cluster entry is named `name`.
pub open spec fn has_cluster(kc: KubeConfigView, name: Seq<char>) -> bool {
    exists|i: int| 0 <= i < kc.clusters.len() && #[trigger] kc.clusters[i].name == name
}

/// Some user entry is named `name`.
pub open spec fn has_user(kc: KubeConfigView, name: Seq<char>) -> bool {
    exists|i: int| 0 <= i < kc.users.len() && #[trigger] kc.users[i].name == name
}

/// Every context names a cluster entry and a user entry that exist.
pub open spec fn refs_resolve(kc: KubeConfigView) -> bool {
    forall|i: int|
        0 <= i < kc.contexts.len() ==> has_cluster(kc, #[trigger] kc.contexts[i].cluster)
            && has_user(kc, kc.contexts[i].user)
}

/// The first index in `clusters` of an entry named `name`.
pub open spec fn first_cluster_index(clusters: Seq<ClusterEntry>, name: Seq<char>) -> Option<int>
    decreases clusters.len(),
{
    if clusters.len() == 0 {
        None
    } else if clusters[0].name == name {
        Some(0)
    } else {
        match first_cluster_index(clusters.drop_first(), name) {
            Some(i) => Some(i + 1),
            None => None,
        }
    }
}

/// The first index in `users` of an entry named `name`.
pub open spec fn first_user_index(users: Seq<UserEntry>, name: Seq<char>) -> Option<int>
    decreases users.len(),
{
    if users.len() == 0 {
        None
    } else if users[0].name == name {
        Some(0)
    } else {
        match first_user_index(users.drop_first(), name) {
            Some(i) => Some(i + 1),
            None => None,
        }
    }
}

/// `kc` with a cluster, a context and a user entry named `name` appended; the context binds
/// the cluster and the user of that name.
pub open spec fn with_entry(
    kc: KubeConfigView,
    name: Seq<char>,
    server: Seq<char>,
    token: Seq<char>,
) -> KubeConfigView {
    KubeConfigView {
        clusters: kc.clusters.push(
            ClusterEntry { name, server, certificate_authority_data: None },
        ),
        contexts: kc.contexts.push(
            ContextEntry { name, cluster: name, user: name, namespace: None },
        ),
        users: kc.users.push(
            UserEntry {
                name,
                token: Some(token),
                client_certificate_data: None,
                client_key_data: None,
            },
        ),
        ..kc
    }
}

/// `kc` without any cluster, context or user entry named `name`.
pub open spec fn without_entry(kc: KubeConfigView, name: Seq<char>) -> KubeConfigView {
    KubeConfigView {
        clusters: kc.clusters.filter(|c: ClusterEntry| c.name != name),
        contexts: kc.contexts.filter(|c: ContextEntry| c.name != name),
        users: kc.users.filter(|u: UserEntry| u.name != name),
        ..kc
    }
}

/// `kc` with the server of the first cluster entry named `name` and the token of the first
/// user entry named `name` replaced; `None` when either entry is missing.
pub open spec fn with_credentials(
    kc: KubeConfigView,
    name: Seq<char>,
    server: Seq<char>,
    token: Seq<char>,
) -> Option<KubeConfigView> {
    match (first_cluster_index(kc.clusters, name), first_user_index(kc.users, name)) {
        (Some(ci), Some(ui)) => Some(
            KubeConfigView {
                clusters: kc.clusters.update(ci, ClusterEntry { server, ..kc.clusters[ci] }),
                users: kc.users.update(ui, UserEntry { token: Some(token), ..kc.users[ui] }),
                ..kc
            },
        ),
        _ => None,
    }
}

proof fn lemma_first_cluster_index_bounds(clusters: Seq<ClusterEntry>, name: Seq<char>)
    ensures
        first_cluster_index(clusters, name) matches Some(i) ==> 0 <= i < clusters.len()
            && clusters[i].name == name,
    decreases clusters.len(),
{
    if clusters.len() > 0 && clusters[0].name != name {
        lemma_first_cluster_index_bounds(clusters.drop_first(), name);
    }
}

proof fn lemma_first_user_index_bounds(users: Seq<UserEntry>, name: Seq<char>)
    ensures
        first_user_index(users, name) matches Some(i) ==> 0 <= i < users.len() && users[i].name
            == name,
    decreases users.len(),
{
    if users.len() > 0 && users[0].name != name {
        lemma_first_user_index_bounds(users.drop_first(), name);
    }
}

/// A kubeconfig with no clusters, contexts or users.
pub fn create_empty_kubeconfig() -> (r: KubeConfig)
    ensures
        r@.api_version == "v1"@,
        r@.kind == "Config"@,
        r@.current_context == Seq::<char>::empty(),
        r@.clusters.len() == 0,
        r@.contexts.len() == 0,
        r@.users.len() == 0,
        r@.preferences is None,
        refs_resolve(r@),
{
    KubeConfig {
        api_version: String::from_str("v1"),
        clusters: Vec::new(),
        contexts: Vec::new(),
        current_context: String::new(),
        kind: String::from_str("Config"),
        preferences: None,
        users: Vec::new(),
    }
}

impl KubeconfigPath {
    /// The kubeconfig under the home directory `home`, and its backup path stamped with
    /// `timestamp` (seconds since the Unix epoch).
    pub fn new(home: &str, timestamp: u64) -> (r: KubeconfigPath)
        ensures
            r.path@ == home@ + "/.kube/config"@,
            r.backup_path@ == home@ + "/.kube/config.bak-"@ + decimal(timestamp as nat),
    {
        let path = concat_str(home, "/.kube/config");
        let stamp = decimal_string(timestamp);
        let backup_path = concat_str(home, "/.kube/config.bak-").concat(stamp.as_str());
        KubeconfigPath { path, backup_path }
    }
}

/// Adding an entry keeps every context's references resolved.
pub proof fn lemma_with_entry_keeps_refs(
    kc: KubeConfigView,
    name: Seq<char>,
    server: Seq<char>,
    token: Seq<char>,
)
    requires
        refs_resolve(kc),
    ensures
        refs_resolve(with_entry(kc, name, server, token)),
{
    let after = with_entry(kc, name, server, token);
    assert forall|i: int| 0 <= i < after.contexts.len() implies has_cluster(
        after,
        #[trigger] after.contexts[i].cluster,
    ) && has_user(after, after.contexts[i].user) by {
        if i < kc.contexts.len() {
            let j = choose|j: int|
                0 <= j < kc.clusters.len() && #[trigger] kc.clusters[j].name
                    == kc.contexts[i].cluster;
            assert(after.clusters[j] == kc.clusters[j]);
            let k = choose|k: int|
                0 <= k < kc.users.len() && #[trigger] kc.users[k].name == kc.contexts[i].user;
            assert(after.users[k] == kc.users[k]);
        } else {
            assert(after.clusters[kc.clusters.len() as int].name == name);
            assert(after.users[kc.users.len() as int].name == name);
        }
    }
}

/// Replacing a server and a token keeps every context's references resolved: no entry is
/// renamed.
pub proof fn lemma_with_credentials_keeps_refs(
    kc: KubeConfigView,
    name: Seq<char>,
    server: Seq<char>,
    token: Seq<char>,
)
    requires
        refs_resolve(kc),
        with_credentials(kc, name, server, token) is Some,
    ensures
        refs_resolve(with_credentials(kc, name, server, token).unwrap()),
{
    let after = with_credentials(kc, name, server, token).unwrap();
    lemma_first_cluster_index_bounds(kc.clusters, name);
    lemma_first_user_index_bounds(kc.users, name);
    assert forall|i: int| 0 <= i < after.contexts.len() implies has_cluster(
        after,
        #[trigger] after.contexts[i].cluster,
    ) && has_user(after, after.contexts[i].user) by {
        let j = choose|j: int|
            0 <= j < kc.clusters.len() && #[trigger] kc.clusters[j].name == kc.contexts[i].cluster;
        assert(after.clusters[j].name == kc.clusters[j].name);
        let k = choose|k: int|
            0 <= k < kc.users.len() && #[trigger] kc.users[k].name == kc.contexts[i].user;
        assert(after.users[k].name == kc.users[k].name);
    }
}

/// Removing the entries of a name keeps every context's references resolved, provided the
/// only contexts that refer to that name carry it themselves, as the synchroniser's entries
/// do.
pub proof fn lemma_without_entry_keeps_refs(kc: KubeConfigView, name: Seq<char>)
    requires
        refs_resolve(kc),
        forall|i: int|
            0 <= i < kc.contexts.len() && (#[trigger] kc.contexts[i].cluster == name
                || kc.contexts[i].user == name) ==> kc.contexts[i].name == name,
    ensures
        refs_resolve(without_entry(kc, name)),
{
    let after = without_entry(kc, name);
    let pc = |c: ClusterEntry| c.name != name;
    let px = |c: ContextEntry| c.name != name;
    let pu = |u: UserEntry| u.name != name;
    assert(after.clusters == kc.clusters.filter(pc));
    assert(after.contexts == kc.contexts.filter(px));
    assert(after.users == kc.users.filter(pu));
    assert forall|i: int| 0 <= i < after.contexts.len() implies has_cluster(
        after,
        #[trigger] after.contexts[i].cluster,
    ) && has_user(after, after.contexts[i].user) by {
        let ctx = after.contexts[i];
        kc.contexts.lemma_filter_pred(px, i);
        assert(after.contexts.contains(ctx));
        kc.contexts.lemma_filter_contains_rev(px, ctx);
        let j = choose|j: int| 0 <= j < kc.contexts.len() && kc.contexts[j] == ctx;
        assert(has_cluster(kc, kc.contexts[j].cluster));
        assert(ctx.cluster != name);
        assert(ctx.user != name);
        let k = choose|k: int|
            0 <= k < kc.clusters.len() && #[trigger] kc.clusters[k].name == ctx.cluster;
        kc.clusters.lemma_filter_contains(pc, k);
        let k2 = choose|k2: int| 0 <= k2 < after.clusters.len() && after.clusters[k2] == kc.clusters[k];
        assert(after.clusters[k2].name == ctx.cluster);
        let m = choose|m: int| 0 <= m < kc.users.len() && #[trigger] kc.users[m].name == ctx.user;
        kc.users.lemma_filter_contains(pu, m);
        let m2 = choose|m2: int| 0 <= m2 < after.users.len() && after.users[m2] == kc.users[m];
        assert(after.users[m2].name == ctx.user);
    }
}

/// Appends the cluster, context and user entries named `name`, with the given server and
/// bearer token.
pub fn add_entry(kc: &mut KubeConfig, name: &str, server: &str, token: &str)
    ensures
        final(kc)@ == with_entry(old(kc)@, name@, server@, token@),
{
    let c = NamedCluster {
        name: String::from_str(name),
        cluster: Cluster { certificate_authority_data: None, server: String::from_str(server) },
    };
    let x = NamedContext {
        name: String::from_str(name),
        context: Context1 {
            cluster: String::from_str(name),
            user: String::from_str(name),
            namespace: None,
        },
    };
    let u = NamedUser {
        name: String::from_str(name),
        user: User {
            token: Some(String::from_str(token)),
            client_certificate_data: None,
            client_key_data: None,
        },
    };
    let ghost before = kc@;
    kc.clusters.push(c);
    kc.contexts.push(x);
    kc.users.push(u);
    proof {
        let want = with_entry(before, name@, server@, token@);
        assert(kc@.clusters =~= want.clusters);
        assert(kc@.contexts =~= want.contexts);
        assert(kc@.users =~= want.users);
    }
}

/// Removes every cluster, context and user entry named `name`; the rest keep their order.
pub fn remove_entry(kc: &mut KubeConfig, name: &str)
    ensures
        final(kc)@ == without_entry(old(kc)@, name@),
{
    let ghost before = kc@;
    let mut clusters: Vec<NamedCluster> = Vec::new();
    std::mem::swap(&mut clusters, &mut kc.clusters);
    let ghost all_clusters = clusters@;
    let mut kept_clusters: Vec<NamedCluster> = Vec::new();
    let ghost pc = |c: NamedCluster| c.name@ != name@;
    let n = clusters.len();
    let mut i: usize = 0;
    while i < n
        invariant
            n == all_clusters.len(),
            i <= n,
            clusters@ == all_clusters.subrange(i as int, n as int),
            kept_clusters@ == all_clusters.subrange(0, i as int).filter(pc),
            forall|x: NamedCluster| #[trigger] pc(x) == (x.name@ != name@),
        decreases n - i,
    {
        let c = clusters.remove(0);
        proof {
            assert(all_clusters.subrange(0, i + 1) =~= all_clusters.subrange(0, i as int).push(all_clusters[i as int]));
            all_clusters.subrange(0, i as int).lemma_filter_push(all_clusters[i as int], pc);
            assert(clusters@ =~= all_clusters.subrange(i + 1, n as int));
            assert(c == all_clusters[i as int]);
        }
        if !str_eq(c.name.as_str(), name) {
            kept_clusters.push(c);
        }
        i = i + 1;
    }
    assert(all_clusters.subrange(0, n as int) =~= all_clusters);
    proof {
        lemma_filter_view_commute(all_clusters, pc, |c: ClusterEntry| c.name != name@);
    }
    kc.clusters = kept_clusters;

    let mut contexts: Vec<NamedContext> = Vec::new();
    std::mem::swap(&mut contexts, &mut kc.contexts);
    let ghost all_contexts = contexts@;
    let mut kept_contexts: Vec<NamedContext> = Vec::new();
    let ghost px = |c: NamedContext| c.name@ != name@;
    let n = contexts.len();
    let mut i: usize = 0;
    while i < n
        invariant
            n == all_contexts.len(),
            i <= n,
            contexts@ == all_contexts.subrange(i as int, n as int),
            kept_contexts@ == all_contexts.subrange(0, i as int).filter(px),
            forall|x: NamedContext| #[trigger] px(x) == (x.name@ != name@),
        decreases n - i,
    {
        let c = contexts.remove(0);
        proof {
            assert(all_contexts.subrange(0, i + 1) =~= all_contexts.subrange(0, i as int).push(all_contexts[i as int]));
            all_contexts.subrange(0, i as int).lemma_filter_push(all_contexts[i as int], px);
            assert(contexts@ =~= all_contexts.subrange(i + 1, n as int));
            assert(c == all_contexts[i as int]);
        }
        if !str_eq(c.name.as_str(), name) {
            kept_contexts.push(c);
        }
        i = i + 1;
    }
    assert(all_contexts.subrange(0, n as int) =~= all_contexts);
    proof {
        lemma_filter_view_commute(all_contexts, px, |c: ContextEntry| c.name != name@);
    }
    kc.contexts = kept_contexts;

    let mut users: Vec<NamedUser> = Vec::new();
    std::mem::swap(&mut users, &mut kc.users);
    let ghost all_users = users@;
    let mut kept_users: Vec<NamedUser> = Vec::new();
    let ghost pu = |u: NamedUser| u.name@ != name@;
    let n = users.len();
    let mut i: usize = 0;
    while i < n
        invariant
            n == all_users.len(),
            i <= n,
            users@ == all_users.subrange(i as int, n as int),
            kept_users@ == all_users.subrange(0, i as int).filter(pu),
            forall|x: NamedUser| #[trigger] pu(x) == (x.name@ != name@),
        decreases n - i,
    {
        let u = users.remove(0);
        proof {
            assert(all_users.subrange(0, i + 1) =~= all_users.subrange(0, i as int).push(all_users[i as int]));
            all_users.subrange(0, i as int).lemma_filter_push(all_users[i as int], pu);
            assert(users@ =~= all_users.subrange(i + 1, n as int));
            assert(u == all_users[i as int]);
        }
        if !str_eq(u.name.as_str(), name) {
            kept_users.push(u);
        }
        i = i + 1;
    }
    assert(all_users.subrange(0, n as int) =~= all_users);
    proof {
        lemma_filter_view_commute(all_users, pu, |u: UserEntry| u.name != name@);
    }
    kc.users = kept_users;
    proof {
        let want = without_entry(before, name@);
        assert(kc@.clusters =~= want.clusters);
        assert(kc@.contexts =~= want.contexts);
        assert(kc@.users =~= want.users);
    }
}

/// The index of the first cluster entry named `name`.
pub fn cluster_position(clusters: &Vec<NamedCluster>, name: &str) -> (r: Option<usize>)
    ensures
        r matches Some(i) ==> i < clusters@.len() && first_cluster_index(
            clusters@.map_values(|c: NamedCluster| c@),
            name@,
        ) == Some(i as int),
        r is None ==> first_cluster_index(clusters@.map_values(|c: NamedCluster| c@), name@) is None,
{
    let ghost entries = clusters@.map_values(|c: NamedCluster| c@);
    let n = clusters.len();
    let mut i: usize = 0;
    assert(entries.skip(0) =~= entries);
    while i < n
        invariant
            n == clusters@.len(),
            i <= n,
            entries == clusters@.map_values(|c: NamedCluster| c@),
            first_cluster_index(entries, name@) == match first_cluster_index(
                entries.skip(i as int),
                name@,
            ) {
                Some(k) => Some(k + i),
                None => None,
            },
        decreases n - i,
    {
        if str_eq(clusters[i].name.as_str(), name) {
            return Some(i);
        }
        assert(entries.skip(i as int).drop_first() =~= entries.skip(i + 1));
        i = i + 1;
    }
    None
}

/// The index of the first user entry named `name`.
pub fn user_position(users: &Vec<NamedUser>, name: &str) -> (r: Option<usize>)
    ensures
        r matches Some(i) ==> i < users@.len() && first_user_index(
            users@.map_values(|u: NamedUser| u@),
            name@,
        ) == Some(i as int),
        r is None ==> first_user_index(users@.map_values(|u: NamedUser| u@), name@) is None,
{
    let ghost entries = users@.map_values(|u: NamedUser| u@);
    let n = users.len();
    let mut i: usize = 0;
    assert(entries.skip(0) =~= entries);
    while i < n
        invariant
            n == users@.len(),
            i <= n,
            entries == users@.map_values(|u: NamedUser| u@),
            first_user_index(entries, name@) == match first_user_index(
                entries.skip(i as int),
                name@,
            ) {
                Some(k) => Some(k + i),
                None => None,
            },
        decreases n - i,
    {
        if str_eq(users[i].name.as_str(), name) {
            return Some(i);
        }
        assert(entries.skip(i as int).drop_first() =~= entries.skip(i + 1));
        i = i + 1;
    }
    None
}

/// Replaces the server of the first cluster entry named `name` and the token of the first
/// user entry named `name`. Returns false, changing nothing, when either entry is missing.
pub fn set_credentials(kc: &mut KubeConfig, name: &str, server: &str, token: &str) -> (r: bool)
    ensures
        with_credentials(old(kc)@, name@, server@, token@) matches Some(v) ==> r && final(kc)@
            == v,
        with_credentials(old(kc)@, name@, server@, token@) is None ==> !r && final(kc)@ == old(
            kc,
        )@,
{
    let ghost before = kc@;
    let ci = cluster_position(&kc.clusters, name);
    let ui = user_position(&kc.users, name);
    match (ci, ui) {
        (Some(ci), Some(ui)) => {
            let mut c = kc.clusters.remove(ci);
            c.cluster.server = String::from_str(server);
            kc.clusters.insert(ci, c);
            let mut u = kc.users.remove(ui);
            u.user.token = Some(String::from_str(token));
            kc.users.insert(ui, u);
            proof {
                let want = with_credentials(before, name@, server@, token@).unwrap();
                assert(kc@.clusters =~= want.clusters);
                assert(kc@.users =~= want.users);
                assert(kc@.contexts =~= want.contexts);
            }
            true
        },
        _ => false,
    }
}

} // verus!
