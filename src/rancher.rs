//! What Rancher reports: its cluster records, turned into clusters, and the answer of its
//! credential-minting endpoint, turned into the kubeconfig text it carries.

use vstd::prelude::*;

use crate::kube_config::opt_view;
use crate::kubernetes::{
    base_of, clusters_view, suffix_of, Cluster, ClusterInfo, KubeError,
    RANCHER_CLUSTER_SUFFIX_LENGTH,
};
use crate::text::{replace_first, replace_first_str, str_eq};

verus! {

/// A cluster record as Rancher's cluster list reports it. `links` and `actions` are its two
/// maps, as key/value pairs.
pub struct RancherCluster {
    pub id: String,
    pub name: String,
    pub links: Vec<(String, String)>,
    pub actions: Vec<(String, String)>,
}

pub open spec fn pairs_view(p: Seq<(String, String)>) -> Seq<(Seq<char>, Seq<char>)> {
    p.map_values(|kv: (String, String)| (kv.0@, kv.1@))
}

/// The value of the first pair whose key is `key`.
pub open spec fn lookup(pairs: Seq<(Seq<char>, Seq<char>)>, key: Seq<char>) -> Option<Seq<char>>
    decreases pairs.len(),
{
    if pairs.len() == 0 {
        None
    } else if pairs[0].0 == key {
        Some(pairs[0].1)
    } else {
        lookup(pairs.drop_first(), key)
    }
}

/// The API server of a cluster, from its `self` link in the management API: the first `v3`
/// path marker becomes the data-plane marker `k8s`.
pub open spec fn server_of_link(link: Seq<char>) -> Seq<char> {
    replace_first(link, "v3"@, "k8s"@)
}

/// The cluster that a Rancher record stands for; `None` when its name is shorter than the
/// version suffix or it lacks the `self` link or the `generateKubeconfig` action.
pub open spec fn remote_cluster_of(rec: RancherCluster) -> Option<ClusterInfo> {
    let links = pairs_view(rec.links@);
    let actions = pairs_view(rec.actions@);
    if rec.name@.len() < RANCHER_CLUSTER_SUFFIX_LENGTH {
        None
    } else {
        match (lookup(links, "self"@), lookup(actions, "generateKubeconfig"@)) {
            (Some(link), Some(action)) => Some(
                ClusterInfo {
                    id: rec.id@,
                    name: base_of(rec.name@),
                    name_suffix: suffix_of(rec.name@),
                    server: server_of_link(link),
                    token_url: Some(action),
                },
            ),
            _ => None,
        }
    }
}

/// The value of the first pair whose key is `key`.
pub fn find_value(pairs: &Vec<(String, String)>, key: &str) -> (r: Option<String>)
    ensures
        lookup(pairs_view(pairs@), key@) matches Some(v) ==> (r matches Some(s) && s@ == v),
        lookup(pairs_view(pairs@), key@) is None ==> r is None,
{
    let ghost v = pairs_view(pairs@);
    let n = pairs.len();
    let mut i: usize = 0;
    assert(v.skip(0) =~= v);
    while i < n
        invariant
            n == pairs@.len(),
            v == pairs_view(pairs@),
            i <= n,
            lookup(v, key@) == lookup(v.skip(i as int), key@),
        decreases n - i,
    {
        assert(v.skip(i as int)[0] == v[i as int]);
        if str_eq(pairs[i].0.as_str(), key) {
            return Some(pairs[i].1.clone());
        }
        assert(v.skip(i as int).drop_first() =~= v.skip(i + 1));
        i = i + 1;
    }
    None
}

/// The cluster that a Rancher record stands for.
pub fn cluster_from_rancher(rec: &RancherCluster) -> (r: Result<Cluster, KubeError>)
    ensures
        remote_cluster_of(*rec) matches Some(c) ==> (r matches Ok(x) && x@ == c),
        remote_cluster_of(*rec) is None ==> r is Err,
        rec.name@.len() < RANCHER_CLUSTER_SUFFIX_LENGTH ==> (r matches Err(e)
            && e is InvalidClusterName),
        rec.name@.len() >= RANCHER_CLUSTER_SUFFIX_LENGTH && lookup(pairs_view(rec.links@), "self"@)
            is None ==> (r matches Err(e) && e is MissingSelfLink),
        rec.name@.len() >= RANCHER_CLUSTER_SUFFIX_LENGTH && lookup(pairs_view(rec.links@), "self"@)
            is Some && lookup(pairs_view(rec.actions@), "generateKubeconfig"@) is None ==> (r matches Err(
            e,
        ) && e is MissingKubeconfigAction),
{
    let n = rec.name.as_str().unicode_len();
    if n < RANCHER_CLUSTER_SUFFIX_LENGTH {
        return Err(KubeError::InvalidClusterName { name: rec.name.clone() });
    }
    let link = match find_value(&rec.links, "self") {
        Some(l) => l,
        None => return Err(KubeError::MissingSelfLink { id: rec.id.clone() }),
    };
    let action = match find_value(&rec.actions, "generateKubeconfig") {
        Some(a) => a,
        None => return Err(KubeError::MissingKubeconfigAction { id: rec.id.clone() }),
    };
    let cut = n - RANCHER_CLUSTER_SUFFIX_LENGTH;
    let name = String::from_str(rec.name.as_str().substring_char(0, cut));
    let name_suffix = String::from_str(rec.name.as_str().substring_char(cut, n));
    let server = replace_first_str(link.as_str(), "v3", "k8s");
    Ok(Cluster { id: rec.id.clone(), name, name_suffix, server, token_url: Some(action) })
}

/// The clusters of Rancher's list, in order; a record that does not stand for a cluster is
/// left out and the others are kept.
pub fn get_rancher_clusters(records: &Vec<RancherCluster>) -> (r: Vec<Cluster>)
    ensures
        clusters_view(r@) == records@.filter_map(|rec: RancherCluster| remote_cluster_of(rec)),
{
    let ghost f = |rec: RancherCluster| remote_cluster_of(rec);
    let n = records.len();
    let mut out: Vec<Cluster> = Vec::new();
    let mut i: usize = 0;
    while i < n
        invariant
            n == records@.len(),
            i <= n,
            forall|rec: RancherCluster| #[trigger] f(rec) == remote_cluster_of(rec),
            clusters_view(out@) == records@.take(i as int).filter_map(f),
        decreases n - i,
    {
        proof {
            records@.lemma_filter_map_take_succ(f, i as int);
        }
        match cluster_from_rancher(&records[i]) {
            Ok(c) => {
                let ghost prev = out@;
                out.push(c);
                assert(clusters_view(out@) =~= clusters_view(prev).push(out@.last()@));
            },
            Err(_) => {},
        }
        i = i + 1;
    }
    assert(records@.take(n as int) =~= records@);
    out
}

/// What the credential endpoint's answer holds in its `config` field: `Some` with the string
/// there when the answer is a JSON object with a string field `config`, `None` otherwise.
pub uninterp spec fn envelope_config(body: Seq<char>) -> Option<Seq<char>>;

/// Relies on `serde_json::from_str` into a `serde_json::Value`, then `Value::get("config")`
/// and `Value::as_str`: the string field `config` of the JSON object in `body`.
#[verifier::external_body]
fn config_field(body: &str) -> (r: Option<String>)
    ensures
        opt_view(r) == envelope_config(body@),
{
    let value: serde_json::Value = serde_json::from_str(body).ok()?;
    value.get("config")?.as_str().map(String::from)
}

/// The kubeconfig text of the credential endpoint's answer, given what its `config` field
/// holds.
pub fn kubeconfig_from_envelope(config: Option<String>) -> (r: Result<String, KubeError>)
    ensures
        config matches Some(c) ==> (r matches Ok(x) && x@ == c@),
        config is None ==> (r matches Err(e) && e is CredentialDecode),
{
    match config {
        Some(c) => Ok(c),
        None => Err(KubeError::CredentialDecode),
    }
}

/// Reads the credential endpoint's answer: a status outside 2xx is an error that carries the
/// status and the body; otherwise the body is a JSON object whose string field `config`
/// holds the minted kubeconfig.
pub fn decode_kubeconfig_response(status: u16, body: &str) -> (r: Result<String, KubeError>)
    ensures
        !(200 <= status < 300) ==> (r matches Err(KubeError::CredentialFetch { status: s, body: b })
            && s == status && b@ == body@),
        200 <= status < 300 ==> (envelope_config(body@) matches Some(c) ==> (r matches Ok(x)
            && x@ == c)),
        200 <= status < 300 ==> (envelope_config(body@) is None ==> (r matches Err(e)
            && e is CredentialDecode)),
{
    if status < 200 || status >= 300 {
        return Err(KubeError::CredentialFetch { status, body: String::from_str(body) });
    }
    kubeconfig_from_envelope(config_field(body))
}

} // verus!
