//! Synchronising the local kubeconfig with the clusters that Rancher reports: the cluster
//! model, the planner that classifies each difference as a create, update or delete, and the
//! executor that applies a selection of planned actions to the kubeconfig in memory.

use vstd::prelude::*;

use crate::kube_config::{
    add_entry, remove_entry, set_credentials, with_credentials, with_entry, without_entry,
    ClusterEntry, KubeConfig, KubeConfigView, NamedCluster,
};
use crate::doctor::{DoctorFailure, DoctorSuccess, RemediationKind};
use crate::text::{concat_str, has_prefix, lex_lt, str_eq, str_has_prefix, str_lt};

verus! {

/// The length of the trailing part of a cluster name that tells its versions apart.
pub const RANCHER_CLUSTER_SUFFIX_LENGTH: usize = 3;

/// The errors of synchronisation.
#[derive(Debug)]
pub enum KubeError {
    /// No kubeconfig file exists.
    ConfigNotFound,
    /// The kubeconfig file does not match the expected schema.
    ConfigParse,
    /// The kubeconfig or its backup could not be written.
    ConfigWrite,
    /// A cluster name is shorter than the version suffix.
    InvalidClusterName { name: String },
    /// A remote cluster has no `self` link.
    MissingSelfLink { id: String },
    /// A remote cluster has no `generateKubeconfig` action.
    MissingKubeconfigAction { id: String },
    /// The credential endpoint answered with a status outside 2xx.
    CredentialFetch { status: u16, body: String },
    /// The credential response is not the expected envelope.
    CredentialDecode,
    /// The minted kubeconfig lacks a cluster, a user or a token.
    IncompleteCredentials,
    /// No cluster or user entry has the name of the local cluster to update.
    EntryNotFound { name: String },
    /// A planned action lacks the cluster or the credentials that it needs.
    IncompleteAction,
    /// A selected index lies outside the list offered.
    SelectionOutOfRange { index: usize },
    /// The credential store could not be read or written.
    CredentialStore,
    /// The home directory could not be determined.
    HomeDirectoryUnavailable,
}

/// A cluster, known locally or reported by Rancher. `name` is the full name without its
/// version suffix, `name_suffix` that suffix.
pub struct Cluster {
    pub id: String,
    pub name: String,
    pub name_suffix: String,
    pub server: String,
    /// The action URL that mints credentials; remote clusters only.
    pub token_url: Option<String>,
}

/// A cluster as plain values.
pub struct ClusterInfo {
    pub id: Seq<char>,
    pub name: Seq<char>,
    pub name_suffix: Seq<char>,
    pub server: Seq<char>,
    pub token_url: Option<Seq<char>>,
}

impl View for Cluster {
    type V = ClusterInfo;

    open spec fn view(&self) -> ClusterInfo {
        ClusterInfo {
            id: self.id@,
            name: self.name@,
            name_suffix: self.name_suffix@,
            server: self.server@,
            token_url: match self.token_url {
                Some(t) => Some(t@),
                None => None,
            },
        }
    }
}

#[derive(Debug, Clone, Copy, PartialEq, Eq, Structural)]
pub enum SyncAction {
    Create,
    Update,
    Delete,
}

/// One planned change, with the clusters it was derived from.
pub struct ClusterSyncAction {
    pub local_cluster: Option<Cluster>,
    pub rancher_cluster: Option<Cluster>,
    pub action: SyncAction,
}

/// A planned change as plain values.
pub struct SyncStep {
    pub local: Option<ClusterInfo>,
    pub remote: Option<ClusterInfo>,
    pub action: SyncAction,
}

pub open spec fn cluster_opt_view(c: Option<Cluster>) -> Option<ClusterInfo> {
    match c {
        Some(c) => Some(c@),
        None => None,
    }
}

impl View for ClusterSyncAction {
    type V = SyncStep;

    open spec fn view(&self) -> SyncStep {
        SyncStep {
            local: cluster_opt_view(self.local_cluster),
            remote: cluster_opt_view(self.rancher_cluster),
            action: self.action,
        }
    }
}

pub open spec fn clusters_view(s: Seq<Cluster>) -> Seq<ClusterInfo> {
    s.map_values(|c: Cluster| c@)
}

pub open spec fn actions_view(s: Seq<ClusterSyncAction>) -> Seq<SyncStep> {
    s.map_values(|a: ClusterSyncAction| a@)
}

/// A full cluster name without its version suffix.
pub open spec fn base_of(full: Seq<char>) -> Seq<char> {
    full.subrange(0, full.len() - RANCHER_CLUSTER_SUFFIX_LENGTH)
}

/// The version suffix of a full cluster name.
pub open spec fn suffix_of(full: Seq<char>) -> Seq<char> {
    full.subrange(full.len() - RANCHER_CLUSTER_SUFFIX_LENGTH, full.len() as int)
}

/// The full name of a cluster: its name followed by its suffix.
pub open spec fn full_name(c: ClusterInfo) -> Seq<char> {
    c.name + c.name_suffix
}

/// The prefix that marks the kubeconfig entries that this tool owns.
pub open spec fn managed_prefix() -> Seq<char> {
    seq!['d', 'g', '-']
}

/// The local cluster that a kubeconfig cluster entry stands for.
pub open spec fn local_cluster_of(e: ClusterEntry) -> ClusterInfo {
    ClusterInfo {
        id: e.name,
        name: base_of(e.name),
        name_suffix: suffix_of(e.name),
        server: e.server,
        token_url: None,
    }
}

/// The local clusters that kubeconfig cluster entries stand for, in order.
pub open spec fn local_clusters(entries: Seq<ClusterEntry>) -> Seq<ClusterInfo> {
    entries.map_values(|e: ClusterEntry| local_cluster_of(e))
}

/// Every entry's name is long enough to hold a version suffix.
pub open spec fn names_splittable(entries: Seq<ClusterEntry>) -> bool {
    forall|i: int|
        0 <= i < entries.len() ==> #[trigger] entries[i].name.len() >= RANCHER_CLUSTER_SUFFIX_LENGTH
}

/// Some cluster of `cs` has the name `base`.
pub open spec fn has_base(cs: Seq<ClusterInfo>, base: Seq<char>) -> bool {
    exists|i: int| 0 <= i < cs.len() && #[trigger] cs[i].name == base
}

/// The local cluster `lc` is the same cluster as the remote `rc`, and is behind it: its
/// suffix sorts before the remote one or its server differs.
pub open spec fn is_stale(lc: ClusterInfo, rc: ClusterInfo) -> bool {
    lc.name == rc.name && (lex_lt(lc.name_suffix, rc.name_suffix) || lc.server != rc.server)
}

/// Some local cluster is behind the remote `rc`.
pub open spec fn needs_update(local: Seq<ClusterInfo>, rc: ClusterInfo) -> bool {
    exists|i: int| 0 <= i < local.len() && is_stale(#[trigger] local[i], rc)
}

/// The first cluster of `cs` named `base`.
pub open spec fn first_with_base(cs: Seq<ClusterInfo>, base: Seq<char>) -> Option<ClusterInfo>
    decreases cs.len(),
{
    if cs.len() == 0 {
        None
    } else if cs[0].name == base {
        Some(cs[0])
    } else {
        first_with_base(cs.drop_first(), base)
    }
}

pub open spec fn create_of(rc: ClusterInfo) -> SyncStep {
    SyncStep { local: None, remote: Some(rc), action: SyncAction::Create }
}

pub open spec fn update_of(lc: ClusterInfo, rc: ClusterInfo) -> SyncStep {
    SyncStep { local: Some(lc), remote: Some(rc), action: SyncAction::Update }
}

pub open spec fn delete_of(lc: ClusterInfo) -> SyncStep {
    SyncStep { local: Some(lc), remote: None, action: SyncAction::Delete }
}

/// A remote cluster with no local cluster of its name is created.
pub open spec fn create_step(local: Seq<ClusterInfo>) -> spec_fn(ClusterInfo) -> Option<SyncStep> {
    |rc: ClusterInfo|
        if !has_base(local, rc.name) {
            Some(create_of(rc))
        } else {
            None
        }
}

/// A remote cluster that some local cluster is behind updates the first local cluster of its
/// name.
pub open spec fn update_step(local: Seq<ClusterInfo>) -> spec_fn(ClusterInfo) -> Option<SyncStep> {
    |rc: ClusterInfo|
        if needs_update(local, rc) {
            match first_with_base(local, rc.name) {
                Some(lc) => Some(update_of(lc, rc)),
                None => None,
            }
        } else {
            None
        }
}

/// A managed local cluster with no remote cluster of its name is deleted.
pub open spec fn delete_step(remote: Seq<ClusterInfo>) -> spec_fn(ClusterInfo) -> Option<SyncStep> {
    |lc: ClusterInfo|
        if !has_base(remote, lc.name) && has_prefix(lc.id, managed_prefix()) {
            Some(delete_of(lc))
        } else {
            None
        }
}

/// The plan: the creates in remote order, then the updates in remote order, then the deletes
/// in local order.
pub open spec fn sync_plan(local: Seq<ClusterInfo>, remote: Seq<ClusterInfo>) -> Seq<SyncStep> {
    remote.filter_map(create_step(local)) + remote.filter_map(update_step(local))
        + local.filter_map(delete_step(remote))
}

/// A copy of `c`.
pub fn copy_cluster(c: &Cluster) -> (r: Cluster)
    ensures
        r@ == c@,
{
    Cluster {
        id: c.id.clone(),
        name: c.name.clone(),
        name_suffix: c.name_suffix.clone(),
        server: c.server.clone(),
        token_url: match &c.token_url {
            Some(t) => Some(t.clone()),
            None => None,
        },
    }
}

/// The full name of a cluster.
pub fn get_cluster_fullname(cluster: &Cluster) -> (r: String)
    ensures
        r@ == full_name(cluster@),
{
    concat_str(cluster.name.as_str(), cluster.name_suffix.as_str())
}

/// Splits a full cluster name into its name and its version suffix; `None` when it is shorter
/// than the suffix.
pub fn split_cluster_name(full: &str) -> (r: Option<(String, String)>)
    ensures
        r is Some <==> full@.len() >= RANCHER_CLUSTER_SUFFIX_LENGTH,
        r matches Some(p) ==> p.0@ == base_of(full@) && p.1@ == suffix_of(full@),
{
    let n = full.unicode_len();
    if n < RANCHER_CLUSTER_SUFFIX_LENGTH {
        return None;
    }
    let cut = n - RANCHER_CLUSTER_SUFFIX_LENGTH;
    let base = String::from_str(full.substring_char(0, cut));
    let suffix = String::from_str(full.substring_char(cut, n));
    Some((base, suffix))
}

/// The local clusters of a kubeconfig, one for each cluster entry, in order.
pub fn get_local_clusters(kubeconfig: &KubeConfig) -> (r: Result<Vec<Cluster>, KubeError>)
    ensures
        r is Ok <==> names_splittable(kubeconfig@.clusters),
        r matches Ok(v) ==> clusters_view(v@) == local_clusters(kubeconfig@.clusters),
        r matches Err(e) ==> e is InvalidClusterName,
{
    let ghost entries = kubeconfig@.clusters;
    let n = kubeconfig.clusters.len();
    let mut out: Vec<Cluster> = Vec::new();
    let mut i: usize = 0;
    while i < n
        invariant
            n == kubeconfig.clusters@.len(),
            entries == kubeconfig@.clusters,
            i <= n,
            names_splittable(entries.take(i as int)),
            out@.len() == i,
            clusters_view(out@) == local_clusters(entries.take(i as int)),
        decreases n - i,
    {
        let entry: &NamedCluster = &kubeconfig.clusters[i];
        assert(entries[i as int] == entry@);
        match split_cluster_name(entry.name.as_str()) {
            Some((base, suffix)) => {
                let c = Cluster {
                    id: entry.name.clone(),
                    name: base,
                    name_suffix: suffix,
                    server: entry.cluster.server.clone(),
                    token_url: None,
                };
                assert(c@ == local_cluster_of(entries[i as int]));
                let ghost prev = out@;
                out.push(c);
                proof {
                    assert forall|j: int| 0 <= j < i + 1 implies #[trigger] clusters_view(out@)[j]
                        == local_clusters(entries.take(i + 1))[j] by {
                        if j < i {
                            assert(out@[j] == prev[j]);
                            assert(clusters_view(prev)[j] == local_clusters(entries.take(i as int))[j]);
                        }
                    }
                    assert(clusters_view(out@) =~= local_clusters(entries.take(i + 1)));
                }
            },
            None => {
                assert(entries[i as int].name.len() < RANCHER_CLUSTER_SUFFIX_LENGTH);
                assert(!names_splittable(entries));
                return Err(KubeError::InvalidClusterName { name: entry.name.clone() });
            },
        }
        i = i + 1;
    }
    assert(entries.take(n as int) =~= entries);
    Ok(out)
}

proof fn lemma_actions_view_push(s: Seq<ClusterSyncAction>, a: ClusterSyncAction)
    ensures
        actions_view(s.push(a)) == actions_view(s).push(a@),
{
    assert(actions_view(s.push(a)) =~= actions_view(s).push(a@));
}

/// Whether some cluster of `cs` is named `base`.
fn any_with_base(cs: &Vec<Cluster>, base: &str) -> (r: bool)
    ensures
        r == has_base(clusters_view(cs@), base@),
{
    let ghost v = clusters_view(cs@);
    let n = cs.len();
    let mut i: usize = 0;
    while i < n
        invariant
            n == cs@.len(),
            v == clusters_view(cs@),
            i <= n,
            forall|k: int| 0 <= k < i ==> #[trigger] v[k].name != base@,
        decreases n - i,
    {
        if str_eq(cs[i].name.as_str(), base) {
            assert(v[i as int].name == base@);
            return true;
        }
        i = i + 1;
    }
    false
}

/// Whether the local cluster `lc` is behind the remote cluster `rc`.
fn cluster_is_stale(lc: &Cluster, rc: &Cluster) -> (r: bool)
    ensures
        r == is_stale(lc@, rc@),
{
    str_eq(lc.name.as_str(), rc.name.as_str()) && (str_lt(
        lc.name_suffix.as_str(),
        rc.name_suffix.as_str(),
    ) || !str_eq(lc.server.as_str(), rc.server.as_str()))
}

/// Whether some local cluster is behind the remote cluster `rc`.
fn any_stale(local: &Vec<Cluster>, rc: &Cluster) -> (r: bool)
    ensures
        r == needs_update(clusters_view(local@), rc@),
{
    let ghost v = clusters_view(local@);
    let n = local.len();
    let mut i: usize = 0;
    while i < n
        invariant
            n == local@.len(),
            v == clusters_view(local@),
            i <= n,
            forall|k: int| 0 <= k < i ==> !is_stale(#[trigger] v[k], rc@),
        decreases n - i,
    {
        if cluster_is_stale(&local[i], rc) {
            assert(is_stale(v[i as int], rc@));
            return true;
        }
        i = i + 1;
    }
    false
}

/// The index of the first cluster of `cs` named `base`.
fn first_with_base_index(cs: &Vec<Cluster>, base: &str) -> (r: Option<usize>)
    ensures
        r matches Some(j) ==> j < cs@.len() && first_with_base(clusters_view(cs@), base@) == Some(
            cs@[j as int]@,
        ),
        r is None ==> first_with_base(clusters_view(cs@), base@) is None,
{
    let ghost v = clusters_view(cs@);
    let n = cs.len();
    let mut i: usize = 0;
    assert(v.skip(0) =~= v);
    while i < n
        invariant
            n == cs@.len(),
            v == clusters_view(cs@),
            i <= n,
            first_with_base(v, base@) == first_with_base(v.skip(i as int), base@),
        decreases n - i,
    {
        assert(v.skip(i as int)[0] == v[i as int]);
        if str_eq(cs[i].name.as_str(), base) {
            return Some(i);
        }
        assert(v.skip(i as int).drop_first() =~= v.skip(i + 1));
        i = i + 1;
    }
    None
}

/// Plans the synchronisation of the local clusters with the remote ones: one create for each
/// remote cluster whose name no local cluster has, one update for each remote cluster that
/// some local cluster of its name is behind (paired with the first local cluster of that
/// name), and one delete for each managed local cluster whose name no remote cluster has.
pub fn get_cluster_sync_actions(
    local_clusters: &Vec<Cluster>,
    rancher_clusters: &Vec<Cluster>,
) -> (r: Vec<ClusterSyncAction>)
    ensures
        actions_view(r@) == sync_plan(clusters_view(local_clusters@), clusters_view(rancher_clusters@)),
{
    let ghost lv = clusters_view(local_clusters@);
    let ghost rv = clusters_view(rancher_clusters@);
    let mut out: Vec<ClusterSyncAction> = Vec::new();
    let nr = rancher_clusters.len();
    let nl = local_clusters.len();

    let mut i: usize = 0;
    while i < nr
        invariant
            nr == rancher_clusters@.len(),
            lv == clusters_view(local_clusters@),
            rv == clusters_view(rancher_clusters@),
            i <= nr,
            actions_view(out@) == rv.take(i as int).filter_map(create_step(lv)),
        decreases nr - i,
    {
        let rc = &rancher_clusters[i];
        proof {
            rv.lemma_filter_map_take_succ(create_step(lv), i as int);
        }
        if !any_with_base(local_clusters, rc.name.as_str()) {
            let a = ClusterSyncAction {
                local_cluster: None,
                rancher_cluster: Some(copy_cluster(rc)),
                action: SyncAction::Create,
            };
            proof {
                lemma_actions_view_push(out@, a);
                assert(a@ == create_of(rv[i as int]));
            }
            out.push(a);
        }
        i = i + 1;
    }
    assert(rv.take(nr as int) =~= rv);
    let ghost creates = rv.filter_map(create_step(lv));

    let mut i: usize = 0;
    assert(rv.take(0).filter_map(update_step(lv)) =~= Seq::<SyncStep>::empty());
    assert(creates + Seq::<SyncStep>::empty() =~= creates);
    while i < nr
        invariant
            nr == rancher_clusters@.len(),
            lv == clusters_view(local_clusters@),
            rv == clusters_view(rancher_clusters@),
            creates == rv.filter_map(create_step(lv)),
            i <= nr,
            actions_view(out@) == creates + rv.take(i as int).filter_map(update_step(lv)),
        decreases nr - i,
    {
        let rc = &rancher_clusters[i];
        proof {
            rv.lemma_filter_map_take_succ(update_step(lv), i as int);
        }
        if any_stale(local_clusters, rc) {
            if let Some(j) = first_with_base_index(local_clusters, rc.name.as_str()) {
                let a = ClusterSyncAction {
                    local_cluster: Some(copy_cluster(&local_clusters[j])),
                    rancher_cluster: Some(copy_cluster(rc)),
                    action: SyncAction::Update,
                };
                proof {
                    lemma_actions_view_push(out@, a);
                    assert(a@ == update_of(lv[j as int], rv[i as int]));
                    assert(creates + rv.take(i + 1).filter_map(update_step(lv)) =~= (creates
                        + rv.take(i as int).filter_map(update_step(lv))).push(a@));
                }
                out.push(a);
            } else {
                assert(rv.take(i + 1).filter_map(update_step(lv)) =~= rv.take(i as int).filter_map(
                    update_step(lv),
                ));
            }
        } else {
            assert(rv.take(i + 1).filter_map(update_step(lv)) =~= rv.take(i as int).filter_map(
                update_step(lv),
            ));
        }
        i = i + 1;
    }
    assert(rv.take(nr as int) =~= rv);
    let ghost changes = creates + rv.filter_map(update_step(lv));

    let mut i: usize = 0;
    assert(lv.take(0).filter_map(delete_step(rv)) =~= Seq::<SyncStep>::empty());
    assert(changes + Seq::<SyncStep>::empty() =~= changes);
    proof {
        reveal_strlit("dg-");
        assert("dg-"@ =~= managed_prefix());
    }
    while i < nl
        invariant
            nl == local_clusters@.len(),
            lv == clusters_view(local_clusters@),
            rv == clusters_view(rancher_clusters@),
            changes == creates + rv.filter_map(update_step(lv)),
            "dg-"@ == managed_prefix(),
            i <= nl,
            actions_view(out@) == changes + lv.take(i as int).filter_map(delete_step(rv)),
        decreases nl - i,
    {
        let lc = &local_clusters[i];
        proof {
            lv.lemma_filter_map_take_succ(delete_step(rv), i as int);
        }
        if !any_with_base(rancher_clusters, lc.name.as_str()) && str_has_prefix(
            lc.id.as_str(),
            "dg-",
        ) {
            let a = ClusterSyncAction {
                local_cluster: Some(copy_cluster(lc)),
                rancher_cluster: None,
                action: SyncAction::Delete,
            };
            proof {
                lemma_actions_view_push(out@, a);
                assert(a@ == delete_of(lv[i as int]));
                assert(changes + lv.take(i + 1).filter_map(delete_step(rv)) =~= (changes
                    + lv.take(i as int).filter_map(delete_step(rv))).push(a@));
            }
            out.push(a);
        } else {
            assert(lv.take(i + 1).filter_map(delete_step(rv)) =~= lv.take(i as int).filter_map(
                delete_step(rv),
            ));
        }
        i = i + 1;
    }
    assert(lv.take(nl as int) =~= lv);
    out
}

/// The name of an action kind, as shown to the user.
pub open spec fn action_name(a: SyncAction) -> Seq<char> {
    match a {
        SyncAction::Create => "Create"@,
        SyncAction::Update => "Update"@,
        SyncAction::Delete => "Delete"@,
    }
}

/// How a planned change is offered to the user: `[Kind] local -> remote`, with `NEW` for a
/// missing local cluster and `DELETE` for a missing remote one.
pub open spec fn step_label(s: SyncStep) -> Seq<char> {
    "["@ + action_name(s.action) + "] "@ + match s.local {
        Some(c) => full_name(c),
        None => "NEW"@,
    } + " -> "@ + match s.remote {
        Some(c) => full_name(c),
        None => "DELETE"@,
    }
}

impl SyncAction {
    /// The name of this kind of action.
    pub fn name(&self) -> (r: &'static str)
        ensures
            r@ == action_name(*self),
    {
        match self {
            SyncAction::Create => "Create",
            SyncAction::Update => "Update",
            SyncAction::Delete => "Delete",
        }
    }
}

impl ClusterSyncAction {
    /// The line that offers this action to the user.
    pub fn label(&self) -> (r: String)
        ensures
            r@ == step_label(self@),
    {
        let mut r = String::from_str("[");
        r.append(self.action.name());
        r.append("] ");
        match &self.local_cluster {
            Some(c) => {
                let n = get_cluster_fullname(c);
                r.append(n.as_str());
            },
            None => r.append("NEW"),
        }
        r.append(" -> ");
        match &self.rancher_cluster {
            Some(c) => {
                let n = get_cluster_fullname(c);
                r.append(n.as_str());
            },
            None => r.append("DELETE"),
        }
        assert(r@ =~= step_label(self@));
        r
    }
}

/// The server and bearer token that Rancher minted for one cluster.
pub struct CredentialBundle {
    pub server: String,
    pub token: String,
}

impl View for CredentialBundle {
    type V = (Seq<char>, Seq<char>);

    open spec fn view(&self) -> (Seq<char>, Seq<char>) {
        (self.server@, self.token@)
    }
}

/// The credentials in a kubeconfig minted by Rancher: the server of its first cluster entry
/// and the token of its first user entry.
pub open spec fn minted_credentials(kc: KubeConfigView) -> Option<(Seq<char>, Seq<char>)> {
    if kc.clusters.len() > 0 && kc.users.len() > 0 && kc.users[0].token is Some {
        Some((kc.clusters[0].server, kc.users[0].token.unwrap()))
    } else {
        None
    }
}

/// Takes the credentials out of a kubeconfig minted by Rancher.
pub fn credentials_from_kubeconfig(kubeconfig: &KubeConfig) -> (r: Result<
    CredentialBundle,
    KubeError,
>)
    ensures
        minted_credentials(kubeconfig@) matches Some(c) ==> (r matches Ok(b) && b@ == c),
        minted_credentials(kubeconfig@) is None ==> (r matches Err(e) && e is IncompleteCredentials),
{
    if kubeconfig.clusters.len() == 0 || kubeconfig.users.len() == 0 {
        return Err(KubeError::IncompleteCredentials);
    }
    let ghost v = kubeconfig@;
    assert(v.clusters[0] == kubeconfig.clusters@[0]@);
    assert(v.users[0] == kubeconfig.users@[0]@);
    match &kubeconfig.users[0].user.token {
        Some(t) => Ok(
            CredentialBundle { server: kubeconfig.clusters[0].cluster.server.clone(), token: t.clone() },
        ),
        None => Err(KubeError::IncompleteCredentials),
    }
}

/// Adds the cluster, context and user entries for a cluster that Rancher reports and the
/// local kubeconfig lacks, named by its full name.
pub fn create_kubeconfig_entry(
    kubeconfig: &mut KubeConfig,
    rancher_cluster: &Cluster,
    credentials: &CredentialBundle,
)
    ensures
        final(kubeconfig)@ == with_entry(
            old(kubeconfig)@,
            full_name(rancher_cluster@),
            credentials.server@,
            credentials.token@,
        ),
{
    let name = get_cluster_fullname(rancher_cluster);
    add_entry(kubeconfig, name.as_str(), credentials.server.as_str(), credentials.token.as_str());
}

/// Points the cluster entry of a local cluster at the server that Rancher minted and gives
/// its user entry the minted token; names and order stay as they are.
pub fn update_kubeconfig_entry(
    kubeconfig: &mut KubeConfig,
    local_cluster: &Cluster,
    credentials: &CredentialBundle,
) -> (r: Result<(), KubeError>)
    ensures
        with_credentials(
            old(kubeconfig)@,
            local_cluster.id@,
            credentials.server@,
            credentials.token@,
        ) matches Some(v) ==> r is Ok && final(kubeconfig)@ == v,
        with_credentials(
            old(kubeconfig)@,
            local_cluster.id@,
            credentials.server@,
            credentials.token@,
        ) is None ==> (r matches Err(e) && e is EntryNotFound) && final(kubeconfig)@ == old(
            kubeconfig,
        )@,
{
    if set_credentials(
        kubeconfig,
        local_cluster.id.as_str(),
        credentials.server.as_str(),
        credentials.token.as_str(),
    ) {
        Ok(())
    } else {
        Err(KubeError::EntryNotFound { name: local_cluster.id.clone() })
    }
}

/// Removes the cluster, context and user entries of a local cluster, by its full name.
pub fn delete_kubeconfig_entry(kubeconfig: &mut KubeConfig, local_cluster: &Cluster)
    ensures
        final(kubeconfig)@ == without_entry(old(kubeconfig)@, full_name(local_cluster@)),
{
    let name = get_cluster_fullname(local_cluster);
    remove_entry(kubeconfig, name.as_str());
}

pub open spec fn credentials_view(c: Option<CredentialBundle>) -> Option<(Seq<char>, Seq<char>)> {
    match c {
        Some(b) => Some(b@),
        None => None,
    }
}

/// The kubeconfig after one planned change, given the credentials minted for it; `None` when
/// the change fails.
pub open spec fn apply_step(
    kc: KubeConfigView,
    step: SyncStep,
    credentials: Option<(Seq<char>, Seq<char>)>,
) -> Option<KubeConfigView> {
    match step.action {
        SyncAction::Create => match (step.remote, credentials) {
            (Some(rc), Some(c)) => Some(with_entry(kc, full_name(rc), c.0, c.1)),
            _ => None,
        },
        SyncAction::Update => match (step.local, step.remote, credentials) {
            (Some(lc), Some(_), Some(c)) => with_credentials(kc, lc.id, c.0, c.1),
            _ => None,
        },
        SyncAction::Delete => match step.local {
            Some(lc) => Some(without_entry(kc, full_name(lc))),
            None => None,
        },
    }
}

/// The kubeconfig after the planned changes, applied in order, each with the credentials
/// minted for it; `None` when one of them fails.
pub open spec fn apply_steps(
    kc: KubeConfigView,
    steps: Seq<SyncStep>,
    credentials: Seq<Option<(Seq<char>, Seq<char>)>>,
) -> Option<KubeConfigView>
    decreases steps.len(),
{
    if steps.len() != credentials.len() {
        None
    } else if steps.len() == 0 {
        Some(kc)
    } else {
        match apply_steps(kc, steps.drop_last(), credentials.drop_last()) {
            Some(before) => apply_step(before, steps.last(), credentials.last()),
            None => None,
        }
    }
}

/// Applies one planned change, with the credentials minted for it when it creates or updates.
pub fn apply_sync_action(
    kubeconfig: &mut KubeConfig,
    action: &ClusterSyncAction,
    credentials: &Option<CredentialBundle>,
) -> (r: Result<(), KubeError>)
    ensures
        apply_step(old(kubeconfig)@, action@, credentials_view(*credentials)) matches Some(v) ==> r
            is Ok && final(kubeconfig)@ == v,
        apply_step(old(kubeconfig)@, action@, credentials_view(*credentials)) is None ==> r is Err,
{
    match action.action {
        SyncAction::Create => match (&action.rancher_cluster, credentials) {
            (Some(rc), Some(c)) => {
                create_kubeconfig_entry(kubeconfig, rc, c);
                Ok(())
            },
            _ => Err(KubeError::IncompleteAction),
        },
        SyncAction::Update => match (&action.local_cluster, &action.rancher_cluster, credentials) {
            (Some(lc), Some(_), Some(c)) => update_kubeconfig_entry(kubeconfig, lc, c),
            _ => Err(KubeError::IncompleteAction),
        },
        SyncAction::Delete => match &action.local_cluster {
            Some(lc) => {
                delete_kubeconfig_entry(kubeconfig, lc);
                Ok(())
            },
            None => Err(KubeError::IncompleteAction),
        },
    }
}

pub open spec fn all_credentials_view(s: Seq<Option<CredentialBundle>>) -> Seq<
    Option<(Seq<char>, Seq<char>)>,
> {
    s.map_values(|c: Option<CredentialBundle>| credentials_view(c))
}

/// Applies the selected changes in the order given, each with the credentials minted for it
/// (`credentials[i]` for `actions[i]`). Stops at the first change that fails; the caller then
/// discards the kubeconfig, so that nothing of the batch is persisted.
pub fn apply_sync_actions(
    kubeconfig: &mut KubeConfig,
    actions: &Vec<ClusterSyncAction>,
    credentials: &Vec<Option<CredentialBundle>>,
) -> (r: Result<(), KubeError>)
    ensures
        apply_steps(old(kubeconfig)@, actions_view(actions@), all_credentials_view(credentials@))
            matches Some(v) ==> r is Ok && final(kubeconfig)@ == v,
        apply_steps(old(kubeconfig)@, actions_view(actions@), all_credentials_view(credentials@))
            is None ==> r is Err,
{
    let ghost start = kubeconfig@;
    let ghost steps = actions_view(actions@);
    let ghost creds = all_credentials_view(credentials@);
    let n = actions.len();
    if credentials.len() != n {
        return Err(KubeError::IncompleteAction);
    }
    let mut i: usize = 0;
    assert(steps.take(0) =~= Seq::<SyncStep>::empty());
    assert(creds.take(0) =~= Seq::<Option<(Seq<char>, Seq<char>)>>::empty());
    while i < n
        invariant
            n == actions@.len(),
            n == credentials@.len(),
            steps == actions_view(actions@),
            creds == all_credentials_view(credentials@),
            start == old(kubeconfig)@,
            i <= n,
            apply_steps(start, steps.take(i as int), creds.take(i as int)) == Some(kubeconfig@),
        decreases n - i,
    {
        proof {
            assert(steps.take(i + 1).drop_last() =~= steps.take(i as int));
            assert(creds.take(i + 1).drop_last() =~= creds.take(i as int));
            assert(steps.take(i + 1).last() == actions@[i as int]@);
            assert(creds.take(i + 1).last() == credentials_view(credentials@[i as int]));
        }
        let ghost before = kubeconfig@;
        let step = apply_sync_action(kubeconfig, &actions[i], &credentials[i]);
        if step.is_err() {
            proof {
                assert(apply_step(before, steps[i as int], creds[i as int]) is None);
                assert(apply_steps(start, steps.take(i + 1), creds.take(i + 1)) is None);
                lemma_apply_steps_stays_failed(start, steps, creds, i as int + 1);
                assert(steps.take(n as int) =~= steps);
                assert(creds.take(n as int) =~= creds);
            }
            return step;
        }
        i = i + 1;
    }
    assert(steps.take(n as int) =~= steps);
    assert(creds.take(n as int) =~= creds);
    Ok(())
}

/// Once a prefix of the changes fails, every longer prefix fails.
proof fn lemma_apply_steps_stays_failed(
    kc: KubeConfigView,
    steps: Seq<SyncStep>,
    creds: Seq<Option<(Seq<char>, Seq<char>)>>,
    k: int,
)
    requires
        steps.len() == creds.len(),
        0 <= k <= steps.len(),
        apply_steps(kc, steps.take(k), creds.take(k)) is None,
    ensures
        apply_steps(kc, steps, creds) is None,
    decreases steps.len() - k,
{
    if k < steps.len() {
        assert(steps.take(k + 1).drop_last() =~= steps.take(k));
        assert(creds.take(k + 1).drop_last() =~= creds.take(k));
        lemma_apply_steps_stays_failed(kc, steps, creds, k + 1);
    } else {
        assert(steps.take(k) =~= steps);
        assert(creds.take(k) =~= creds);
    }
}

/// The kubeconfig without the entries of each name in `names`, removed in order.
pub open spec fn without_entries(kc: KubeConfigView, names: Seq<Seq<char>>) -> KubeConfigView
    decreases names.len(),
{
    if names.len() == 0 {
        kc
    } else {
        without_entry(without_entries(kc, names.drop_last()), names.last())
    }
}

/// The names of the cluster entries at the selected indices, in the order selected.
pub open spec fn selected_names(kc: KubeConfigView, selected: Seq<usize>) -> Seq<Seq<char>> {
    selected.map_values(|i: usize| kc.clusters[i as int].name)
}

/// Removes the cluster, context and user entries of the clusters at the selected indices of
/// the kubeconfig's cluster list. Returns whether anything was selected, that is, whether
/// the kubeconfig needs writing. An index outside the list is an error, with nothing removed.
pub fn cleanup_kubeconfig(kubeconfig: &mut KubeConfig, selected: &Vec<usize>) -> (r: Result<
    bool,
    KubeError,
>)
    ensures
        (forall|k: int| 0 <= k < selected@.len() ==> #[trigger] selected@[k] < old(
            kubeconfig,
        )@.clusters.len()) ==> r == Ok::<bool, KubeError>(selected@.len() > 0) && final(kubeconfig)@
            == without_entries(old(kubeconfig)@, selected_names(old(kubeconfig)@, selected@)),
        !(forall|k: int| 0 <= k < selected@.len() ==> #[trigger] selected@[k] < old(
            kubeconfig,
        )@.clusters.len()) ==> (r matches Err(e) && e is SelectionOutOfRange) && final(kubeconfig)@
            == old(kubeconfig)@,
{
    let ghost start = kubeconfig@;
    let n = selected.len();
    let total = kubeconfig.clusters.len();
    let mut names: Vec<String> = Vec::new();
    let mut i: usize = 0;
    while i < n
        invariant
            n == selected@.len(),
            total == kubeconfig.clusters@.len(),
            start == kubeconfig@,
            i <= n,
            forall|k: int| 0 <= k < i ==> #[trigger] selected@[k] < total,
            names@.len() == i,
            forall|k: int| 0 <= k < i ==> #[trigger] names@[k]@ == start.clusters[selected@[k] as int].name,
        decreases n - i,
    {
        let index = selected[i];
        if index >= total {
            return Err(KubeError::SelectionOutOfRange { index });
        }
        assert(start.clusters[index as int] == kubeconfig.clusters@[index as int]@);
        names.push(kubeconfig.clusters[index].name.clone());
        i = i + 1;
    }
    let ghost wanted = selected_names(start, selected@);
    assert(wanted.len() == n);
    let mut j: usize = 0;
    assert(wanted.take(0) =~= Seq::<Seq<char>>::empty());
    while j < n
        invariant
            n == names@.len(),
            wanted.len() == n,
            wanted == selected_names(start, selected@),
            forall|k: int| 0 <= k < n ==> #[trigger] names@[k]@ == wanted[k],
            j <= n,
            kubeconfig@ == without_entries(start, wanted.take(j as int)),
        decreases n - j,
    {
        proof {
            assert(wanted.take(j + 1).drop_last() =~= wanted.take(j as int));
            assert(wanted.take(j + 1).last() == names@[j as int]@);
        }
        remove_entry(kubeconfig, names[j].as_str());
        j = j + 1;
    }
    assert(wanted.take(n as int) =~= wanted);
    Ok(n > 0)
}

proof fn lemma_filter_map_all<A, B>(s: Seq<A>, f: spec_fn(A) -> Option<B>, q: spec_fn(B) -> bool)
    requires
        forall|a: A| #[trigger] f(a) matches Some(b) ==> q(b),
    ensures
        forall|i: int| 0 <= i < s.filter_map(f).len() ==> q(#[trigger] s.filter_map(f)[i]),
    decreases s.len(),
{
    if s.len() > 0 {
        lemma_filter_map_all(s.drop_last(), f, q);
        let prev = s.drop_last().filter_map(f);
        assert forall|i: int| 0 <= i < s.filter_map(f).len() implies q(
            #[trigger] s.filter_map(f)[i],
        ) by {
            if i < prev.len() {
                assert(s.filter_map(f)[i] == prev[i]);
            } else {
                assert(f(s.last()) is Some);
            }
        }
    }
}

proof fn lemma_filter_keeps_all<A>(s: Seq<A>, p: spec_fn(A) -> bool)
    requires
        forall|i: int| 0 <= i < s.len() ==> p(#[trigger] s[i]),
    ensures
        s.filter(p) == s,
    decreases s.len(),
{
    reveal(Seq::filter);
    if s.len() > 0 {
        lemma_filter_keeps_all(s.drop_last(), p);
        assert(s.drop_last().push(s.last()) =~= s);
    }
}

proof fn lemma_filter_keeps_none<A>(s: Seq<A>, p: spec_fn(A) -> bool)
    requires
        forall|i: int| 0 <= i < s.len() ==> !p(#[trigger] s[i]),
    ensures
        s.filter(p) == Seq::<A>::empty(),
    decreases s.len(),
{
    reveal(Seq::filter);
    if s.len() > 0 {
        lemma_filter_keeps_none(s.drop_last(), p);
    }
}

proof fn lemma_creates_are_filtered_remotes(local: Seq<ClusterInfo>, remote: Seq<ClusterInfo>)
    ensures
        remote.filter_map(create_step(local)) == remote.filter(
            |rc: ClusterInfo| !has_base(local, rc.name),
        ).map_values(|rc: ClusterInfo| create_of(rc)),
    decreases remote.len(),
{
    reveal(Seq::filter);
    let p = |rc: ClusterInfo| !has_base(local, rc.name);
    let g = |rc: ClusterInfo| create_of(rc);
    if remote.len() > 0 {
        lemma_creates_are_filtered_remotes(local, remote.drop_last());
        let kept = remote.drop_last().filter(p);
        if p(remote.last()) {
            kept.lemma_push_map_commute(g, remote.last());
            assert(remote.filter_map(create_step(local)) =~= kept.map_values(g).push(
                create_of(remote.last()),
            ));
        } else {
            assert(remote.filter_map(create_step(local)) =~= kept.map_values(g));
        }
    } else {
        assert(remote.filter(p).map_values(g) =~= Seq::<SyncStep>::empty());
    }
}

/// The creates of a plan are exactly one for each remote cluster whose name no local cluster
/// has, in the order of the remote list.
pub proof fn lemma_plan_creates(local: Seq<ClusterInfo>, remote: Seq<ClusterInfo>)
    ensures
        sync_plan(local, remote).filter(|s: SyncStep| s.action == SyncAction::Create)
            == remote.filter(|rc: ClusterInfo| !has_base(local, rc.name)).map_values(
            |rc: ClusterInfo| create_of(rc),
        ),
{
    let is_create = |s: SyncStep| s.action == SyncAction::Create;
    let creates = remote.filter_map(create_step(local));
    let updates = remote.filter_map(update_step(local));
    let deletes = local.filter_map(delete_step(remote));
    lemma_filter_map_all(remote, create_step(local), is_create);
    lemma_filter_map_all(remote, update_step(local), |s: SyncStep| s.action == SyncAction::Update);
    lemma_filter_map_all(local, delete_step(remote), |s: SyncStep| s.action == SyncAction::Delete);
    lemma_filter_keeps_all(creates, is_create);
    lemma_filter_keeps_none(updates, is_create);
    lemma_filter_keeps_none(deletes, is_create);
    Seq::filter_distributes_over_add(creates, updates, is_create);
    Seq::filter_distributes_over_add(creates + updates, deletes, is_create);
    lemma_creates_are_filtered_remotes(local, remote);
    assert(creates + Seq::<SyncStep>::empty() + Seq::<SyncStep>::empty() =~= creates);
}

/// A local cluster whose id lacks the managed prefix is never deleted by a plan, whatever the
/// remote clusters are.
pub proof fn lemma_plan_spares_unmanaged(
    local: Seq<ClusterInfo>,
    remote: Seq<ClusterInfo>,
    lc: ClusterInfo,
)
    requires
        !has_prefix(lc.id, managed_prefix()),
    ensures
        forall|k: int|
            0 <= k < sync_plan(local, remote).len() ==> !(#[trigger] sync_plan(local, remote)[k]
                == delete_of(lc)),
{
    let plan = sync_plan(local, remote);
    let creates = remote.filter_map(create_step(local));
    let updates = remote.filter_map(update_step(local));
    let deletes = local.filter_map(delete_step(remote));
    lemma_filter_map_all(
        remote,
        create_step(local),
        |s: SyncStep| s.action == SyncAction::Create,
    );
    lemma_filter_map_all(
        remote,
        update_step(local),
        |s: SyncStep| s.action == SyncAction::Update,
    );
    lemma_filter_map_all(
        local,
        delete_step(remote),
        |s: SyncStep|
            s.action == SyncAction::Delete && s.local is Some && has_prefix(
                s.local.unwrap().id,
                managed_prefix(),
            ),
    );
    assert forall|k: int| 0 <= k < plan.len() implies !(#[trigger] plan[k] == delete_of(lc)) by {
        if k < creates.len() {
            assert(plan[k] == creates[k]);
        } else if k < creates.len() + updates.len() {
            assert(plan[k] == updates[k - creates.len()]);
        } else {
            assert(plan[k] == deletes[k - creates.len() - updates.len()]);
        }
    }
}

/// Planning consumes nothing: applying an empty selection leaves the kubeconfig as it was, so
/// planning again against the same remote clusters gives the same plan.
pub proof fn lemma_empty_selection_keeps_plan(kc: KubeConfigView, remote: Seq<ClusterInfo>)
    ensures
        apply_steps(kc, Seq::empty(), Seq::empty()) == Some(kc),
        sync_plan(
            local_clusters(apply_steps(kc, Seq::empty(), Seq::empty()).unwrap().clusters),
            remote,
        ) == sync_plan(local_clusters(kc.clusters), remote),
{
}

/// A copy of a planned change.
pub fn copy_action(a: &ClusterSyncAction) -> (r: ClusterSyncAction)
    ensures
        r@ == a@,
{
    ClusterSyncAction {
        local_cluster: match &a.local_cluster {
            Some(c) => Some(copy_cluster(c)),
            None => None,
        },
        rancher_cluster: match &a.rancher_cluster {
            Some(c) => Some(copy_cluster(c)),
            None => None,
        },
        action: a.action,
    }
}

/// The planned changes at the selected indices, in the order selected. An index outside the
/// plan is an error.
pub fn select_actions(actions: &Vec<ClusterSyncAction>, selected: &Vec<usize>) -> (r: Result<
    Vec<ClusterSyncAction>,
    KubeError,
>)
    ensures
        (forall|k: int| 0 <= k < selected@.len() ==> #[trigger] selected@[k] < actions@.len())
            ==> (r matches Ok(v) && actions_view(v@) == selected@.map_values(
            |i: usize| actions@[i as int]@,
        )),
        !(forall|k: int| 0 <= k < selected@.len() ==> #[trigger] selected@[k] < actions@.len())
            ==> (r matches Err(e) && e is SelectionOutOfRange),
{
    let n = selected.len();
    let mut out: Vec<ClusterSyncAction> = Vec::new();
    let mut i: usize = 0;
    while i < n
        invariant
            n == selected@.len(),
            i <= n,
            forall|k: int| 0 <= k < i ==> #[trigger] selected@[k] < actions@.len(),
            actions_view(out@) == selected@.take(i as int).map_values(
                |j: usize| actions@[j as int]@,
            ),
        decreases n - i,
    {
        let index = selected[i];
        if index >= actions.len() {
            return Err(KubeError::SelectionOutOfRange { index });
        }
        let a = copy_action(&actions[index]);
        proof {
            lemma_actions_view_push(out@, a);
            assert(selected@.take(i + 1) =~= selected@.take(i as int).push(index));
            selected@.take(i as int).lemma_push_map_commute(|j: usize| actions@[j as int]@, index);
        }
        out.push(a);
        i = i + 1;
    }
    assert(selected@.take(n as int) =~= selected@);
    Ok(out)
}

/// The kubeconfig helpers' command.
pub struct KubernetesCommand {
    pub command: KubernetesSubcommands,
}

pub enum KubernetesSubcommands {
    /// Prepares the environment for first use.
    Init { no_kubeconfig: bool, no_rancher_token: bool, no_backup: bool },
    /// Synchronises the kubeconfig with Rancher's clusters.
    Sync { no_backup: bool },
    /// Removes selected clusters from the kubeconfig.
    Cleanup { no_backup: bool },
}

impl KubernetesSubcommands {
    /// Whether the kubeconfig is backed up before it is overwritten.
    pub fn kubeconfig_backup(&self) -> (r: bool)
        ensures
            r == match *self {
                KubernetesSubcommands::Init { no_backup, .. } => !no_backup,
                KubernetesSubcommands::Sync { no_backup } => !no_backup,
                KubernetesSubcommands::Cleanup { no_backup } => !no_backup,
            },
    {
        match self {
            KubernetesSubcommands::Init { no_backup, .. } => !*no_backup,
            KubernetesSubcommands::Sync { no_backup } => !*no_backup,
            KubernetesSubcommands::Cleanup { no_backup } => !*no_backup,
        }
    }
}

/// The kubeconfig helpers.
pub struct KubernetesPlugin;

impl KubernetesPlugin {
    /// The check of the kubeconfig, given the error of reading it, if any.
    pub fn is_kubeconfig_valid(&self, read_error: Option<String>) -> (r: Result<
        DoctorSuccess,
        DoctorFailure,
    >)
        ensures
            read_error is None ==> (r matches Ok(s) && s.plugin@ == "Kubernetes"@ && s.message@
                == "kubeconfig is valid"@),
            read_error matches Some(e) ==> (r matches Err(f) && f.plugin@ == "Kubernetes"@
                && f.message@ == "Error while parsing the kubeconfig: "@ + e@ && f.fix == Some(
                RemediationKind::CreateEmptyKubeconfig,
            )),
    {
        match read_error {
            None => Ok(
                DoctorSuccess {
                    message: String::from_str("kubeconfig is valid"),
                    plugin: String::from_str("Kubernetes"),
                },
            ),
            Some(e) => Err(
                DoctorFailure {
                    message: concat_str("Error while parsing the kubeconfig: ", e.as_str()),
                    plugin: String::from_str("Kubernetes"),
                    fix: Some(RemediationKind::CreateEmptyKubeconfig),
                },
            ),
        }
    }

    /// The check of the Rancher token, given the error of looking it up, if any.
    pub fn is_rancher_token_available(&self, lookup_error: Option<String>) -> (r: Result<
        DoctorSuccess,
        DoctorFailure,
    >)
        ensures
            lookup_error is None ==> (r matches Ok(s) && s.plugin@ == "Kubernetes"@ && s.message@
                == "Rancher token found in credential store"@),
            lookup_error matches Some(e) ==> (r matches Err(f) && f.plugin@ == "Kubernetes"@
                && f.message@ == "Unable to retrieve Rancher token from credential store: "@ + e@
                && f.fix == Some(RemediationKind::AddRancherToken)),
    {
        match lookup_error {
            None => Ok(
                DoctorSuccess {
                    message: String::from_str("Rancher token found in credential store"),
                    plugin: String::from_str("Kubernetes"),
                },
            ),
            Some(e) => Err(
                DoctorFailure {
                    message: concat_str(
                        "Unable to retrieve Rancher token from credential store: ",
                        e.as_str(),
                    ),
                    plugin: String::from_str("Kubernetes"),
                    fix: Some(RemediationKind::AddRancherToken),
                },
            ),
        }
    }
}

proof fn lemma_lex_lt_irreflexive(a: Seq<char>)
    ensures
        !lex_lt(a, a),
    decreases a.len(),
{
    if a.len() > 0 {
        lemma_lex_lt_irreflexive(a.drop_first());
    }
}

/// A local cluster that has the name, suffix and server of the remote one is converged: the
/// plan for the two is empty.
pub proof fn lemma_converged_pair_plans_nothing(lc: ClusterInfo, rc: ClusterInfo)
    requires
        lc.name == rc.name,
        lc.name_suffix == rc.name_suffix,
        lc.server == rc.server,
    ensures
        sync_plan(seq![lc], seq![rc]) == Seq::<SyncStep>::empty(),
{
    let r = seq![rc];
    let l = seq![lc];
    lemma_lex_lt_irreflexive(lc.name_suffix);
    assert(l[0] == lc && r[0] == rc && l.last() == lc && r.last() == rc);
    assert(has_base(l, rc.name));
    assert(has_base(r, lc.name));
    assert(!needs_update(l, rc));
    assert(r.drop_last() =~= Seq::<ClusterInfo>::empty());
    assert(l.drop_last() =~= Seq::<ClusterInfo>::empty());
    assert(create_step(l)(rc) is None);
    assert(update_step(l)(rc) is None);
    assert(delete_step(r)(lc) is None);
    let e = Seq::<ClusterInfo>::empty();
    assert(e.filter_map(create_step(l)) =~= Seq::<SyncStep>::empty());
    assert(e.filter_map(update_step(l)) =~= Seq::<SyncStep>::empty());
    assert(e.filter_map(delete_step(r)) =~= Seq::<SyncStep>::empty());
    assert(r.filter_map(create_step(l)) =~= Seq::<SyncStep>::empty());
    assert(r.filter_map(update_step(l)) =~= Seq::<SyncStep>::empty());
    assert(l.filter_map(delete_step(r)) =~= Seq::<SyncStep>::empty());
    assert(sync_plan(l, r) =~= Seq::<SyncStep>::empty());
}

/// A local cluster that is behind the remote one of its name, by suffix or by server, gets
/// exactly one update, paired with it.
pub proof fn lemma_stale_pair_plans_one_update(lc: ClusterInfo, rc: ClusterInfo)
    requires
        is_stale(lc, rc),
    ensures
        sync_plan(seq![lc], seq![rc]) == seq![update_of(lc, rc)],
{
    let r = seq![rc];
    let l = seq![lc];
    assert(l[0] == lc && r[0] == rc && l.last() == lc && r.last() == rc);
    assert(has_base(l, rc.name));
    assert(has_base(r, lc.name));
    assert(needs_update(l, rc));
    assert(first_with_base(l, rc.name) == Some(lc));
    assert(r.drop_last() =~= Seq::<ClusterInfo>::empty());
    assert(l.drop_last() =~= Seq::<ClusterInfo>::empty());
    assert(create_step(l)(rc) is None);
    assert(update_step(l)(rc) == Some(update_of(lc, rc)));
    assert(delete_step(r)(lc) is None);
    let e = Seq::<ClusterInfo>::empty();
    assert(e.filter_map(create_step(l)) =~= Seq::<SyncStep>::empty());
    assert(e.filter_map(update_step(l)) =~= Seq::<SyncStep>::empty());
    assert(e.filter_map(delete_step(r)) =~= Seq::<SyncStep>::empty());
    assert(r.filter_map(create_step(l)) =~= Seq::<SyncStep>::empty());
    assert(r.filter_map(update_step(l)) =~= seq![update_of(lc, rc)]);
    assert(l.filter_map(delete_step(r)) =~= Seq::<SyncStep>::empty());
    assert(sync_plan(l, r) =~= seq![update_of(lc, rc)]);
}

} // verus!
