//! Which containers of a pod are checked, and when a pod is evicted.

use vstd::prelude::*;
use crate::drift::{live_digest_spec, verdict_spec, Verdict};
use crate::text::{first_index, lemma_first_index};

verus! {

/// Pull policy under which a container is checked for drift.
pub const ALWAYS_PULL: &'static str = "Always";

/// A container as the pod spec declares it.
pub struct ContainerSpec {
    pub image: Option<String>,
    pub pull_policy: Option<String>,
}

/// A running container as the pod status reports it.
pub struct ContainerStatus {
    pub image: String,
    pub image_id: String,
}

/// The part of a pod that reconciliation reads.
pub struct PodRecord {
    pub name: String,
    pub namespace: String,
    pub containers: Vec<ContainerSpec>,
    pub statuses: Vec<ContainerStatus>,
    pub pull_secrets: Vec<String>,
}

/// A pod as reconciliation sees it: each declared container's image and pull
/// policy, and each running container's image and image ID.
pub struct PodModel {
    pub specs: Seq<(Option<Seq<char>>, Option<Seq<char>>)>,
    pub statuses: Seq<(Seq<char>, Seq<char>)>,
}

pub open spec fn opt_view(o: Option<String>) -> Option<Seq<char>> {
    match o {
        Some(s) => Some(s@),
        None => None,
    }
}

impl View for PodRecord {
    type V = PodModel;

    open spec fn view(&self) -> PodModel {
        PodModel {
            specs: self.containers@.map_values(
                |c: ContainerSpec| (opt_view(c.image), opt_view(c.pull_policy)),
            ),
            statuses: self.statuses@.map_values(|s: ContainerStatus| (s.image@, s.image_id@)),
        }
    }
}

/// Some declared container runs `image` under the always-pull policy.
pub open spec fn image_eligible(specs: Seq<(Option<Seq<char>>, Option<Seq<char>>)>, image: Seq<char>) -> bool {
    exists|j: int|
        0 <= j < specs.len() && #[trigger] specs[j] == (
        Some(image),
        Some(ALWAYS_PULL@),
    )
}

/// The running container at position `i` is checked for drift.
pub open spec fn eligible(m: PodModel, i: int) -> bool {
    0 <= i < m.statuses.len() && image_eligible(m.specs, m.statuses[i].0)
}

/// Whether some declared container runs `image` under the always-pull policy.
pub fn is_eligible(containers: &Vec<ContainerSpec>, image: &str) -> (r: bool)
    ensures
        r == image_eligible(
            containers@.map_values(|c: ContainerSpec| (opt_view(c.image), opt_view(c.pull_policy))),
            image@,
        ),
{
    let ghost specs = containers@.map_values(
        |c: ContainerSpec| (opt_view(c.image), opt_view(c.pull_policy)),
    );
    let image_owned = String::from_str(image);
    let always = String::from_str(ALWAYS_PULL);
    let n = containers.len();
    let mut j: usize = 0;
    while j < n
        invariant
            n == containers@.len(),
            specs.len() == n,
            specs == containers@.map_values(
                |c: ContainerSpec| (opt_view(c.image), opt_view(c.pull_policy)),
            ),
            j <= n,
            image_owned@ == image@,
            always@ == ALWAYS_PULL@,
            forall|k: int| 0 <= k < j ==> specs[k] != (Some(image@), Some(ALWAYS_PULL@)),
        decreases n - j,
    {
        let c = &containers[j];
        assert(specs[j as int] == (opt_view(c.image), opt_view(c.pull_policy)));
        let image_matches = match &c.image {
            Some(img) => *img == image_owned,
            None => false,
        };
        let policy_matches = match &c.pull_policy {
            Some(p) => *p == always,
            None => false,
        };
        if image_matches && policy_matches {
            return true;
        }
        j = j + 1;
    }
    false
}

/// The first running container at or after `from` that is checked for drift.
pub fn next_eligible(pod: &PodRecord, from: usize) -> (r: Option<usize>)
    ensures
        match r {
            Some(i) => from <= i && eligible(pod@, i as int) && forall|j: int|
                from <= j < i ==> !eligible(pod@, j),
            None => forall|j: int| from <= j ==> !eligible(pod@, j),
        },
{
    let n = pod.statuses.len();
    let mut i: usize = from;
    while i < n
        invariant
            n == pod.statuses@.len(),
            from <= i,
            forall|j: int| from <= j < i ==> !eligible(pod@, j),
        decreases n - i,
    {
        if is_eligible(&pod.containers, pod.statuses[i].image.as_str()) {
            return Some(i);
        }
        i = i + 1;
    }
    None
}

/// What the check of one pod does next.
pub enum PodAction {
    /// Look up the remote digest of the running container at this position
    /// and hand back the verdict on it.
    Check(usize),
    /// A container runs a stale image: evict the pod, once.
    Evict,
    /// No container is stale: leave the pod as it is.
    Keep,
}

/// First step of the check of a pod.
pub fn begin_pod_check(pod: &PodRecord) -> (r: PodAction)
    ensures
        match r {
            PodAction::Check(i) => eligible(pod@, i as int) && forall|j: int|
                0 <= j < i ==> !eligible(pod@, j),
            PodAction::Keep => forall|j: int| 0 <= j ==> !eligible(pod@, j),
            PodAction::Evict => false,
        },
{
    match next_eligible(pod, 0) {
        Some(i) => PodAction::Check(i),
        None => PodAction::Keep,
    }
}

/// Next step of the check of a pod, given the verdict on the container at
/// position `index`. A stale container ends the check with one eviction;
/// otherwise the next eligible container is checked.
pub fn pod_step(pod: &PodRecord, index: usize, verdict: Verdict) -> (r: PodAction)
    requires
        index < pod.statuses@.len(),
    ensures
        verdict == Verdict::Stale ==> r is Evict,
        verdict != Verdict::Stale ==> match r {
            PodAction::Check(i) => index < i && eligible(pod@, i as int) && forall|j: int|
                index < j < i ==> !eligible(pod@, j),
            PodAction::Keep => forall|j: int| index < j ==> !eligible(pod@, j),
            PodAction::Evict => false,
        },
{
    if verdict == Verdict::Stale {
        return PodAction::Evict;
    }
    let n = pod.statuses.len();
    assert(index < n);
    match next_eligible(pod, index + 1) {
        Some(i) => PodAction::Check(i),
        None => PodAction::Keep,
    }
}

/// Whether a pod is evicted, given the digest that the registry publishes for
/// each image (`None` where it cannot be had): some eligible container runs
/// a stale image.
pub open spec fn pod_needs_eviction(m: PodModel, remote: spec_fn(Seq<char>) -> Option<Seq<char>>) -> bool {
    exists|i: int|
        eligible(m, i) && #[trigger] verdict_spec(m.statuses[i].1, remote(m.statuses[i].0))
            == Verdict::Stale
}

/// The repository part of an image string: what stands before its first "@".
pub open spec fn image_name(image: Seq<char>) -> Seq<char> {
    let i = first_index(image, '@');
    if i < 0 {
        image
    } else {
        image.take(i)
    }
}

/// A pod after it has been evicted and started again: each container whose
/// image has a published digest runs that digest.
pub open spec fn restarted(m: PodModel, remote: spec_fn(Seq<char>) -> Option<Seq<char>>) -> PodModel {
    PodModel {
        specs: m.specs,
        statuses: m.statuses.map_values(
            |s: (Seq<char>, Seq<char>)|
                match remote(s.0) {
                    Some(d) => (s.0, image_name(s.0) + seq!['@'] + d),
                    None => s,
                },
        ),
    }
}

/// One reconciliation pass: each pod that needs eviction is evicted and
/// started again; the others stay as they are.
pub open spec fn after_pass(pods: Seq<PodModel>, remote: spec_fn(Seq<char>) -> Option<Seq<char>>) -> Seq<PodModel> {
    pods.map_values(
        |p: PodModel|
            if pod_needs_eviction(p, remote) {
                restarted(p, remote)
            } else {
                p
            },
    )
}

/// An image ID `name@digest` records `digest` when neither part holds "@".
pub proof fn lemma_live_digest_of_joined(name: Seq<char>, digest: Seq<char>)
    requires
        !name.contains('@'),
        !digest.contains('@'),
    ensures
        live_digest_spec(name + seq!['@'] + digest) == Some(digest),
{
    let s = name + seq!['@'] + digest;
    lemma_first_index(s, '@');
    let i = first_index(s, '@');
    assert(s[name.len() as int] == '@');
    if i < name.len() {
        assert(name[i] == s[i]);
    }
    assert(s.skip(i + 1) =~= digest);
    lemma_first_index(digest, '@');
}

/// A pod is evicted only while some eligible container records a digest
/// that differs from the one the registry publishes for its image.
pub proof fn lemma_eviction_needs_differing_digests(
    m: PodModel,
    remote: spec_fn(Seq<char>) -> Option<Seq<char>>,
)
    requires
        pod_needs_eviction(m, remote),
    ensures
        exists|i: int|
            eligible(m, i) && remote(m.statuses[i].0) is Some && #[trigger] live_digest_spec(
                m.statuses[i].1,
            ) is Some && live_digest_spec(m.statuses[i].1) != remote(m.statuses[i].0),
{
    let i = choose|i: int|
        eligible(m, i) && #[trigger] verdict_spec(m.statuses[i].1, remote(m.statuses[i].0))
            == Verdict::Stale;
    assert(live_digest_spec(m.statuses[i].1) is Some);
}

/// A second pass over an unchanged cluster and registry evicts nothing: a pod
/// evicted by the first pass runs the published digests afterwards.
pub proof fn lemma_second_pass_evicts_nothing(
    pods: Seq<PodModel>,
    remote: spec_fn(Seq<char>) -> Option<Seq<char>>,
)
    requires
        forall|image: Seq<char>| #[trigger] remote(image) is Some ==> !remote(image).unwrap().contains('@'),
    ensures
        forall|k: int| 0 <= k < pods.len() ==> !pod_needs_eviction(#[trigger] after_pass(pods, remote)[k], remote),
{
    assert forall|k: int| 0 <= k < pods.len() implies !pod_needs_eviction(#[trigger] after_pass(pods, remote)[k], remote) by {
        let p = pods[k];
        if pod_needs_eviction(p, remote) {
            let q = restarted(p, remote);
            assert(after_pass(pods, remote)[k] == q);
            assert forall|i: int| eligible(q, i) implies #[trigger] verdict_spec(q.statuses[i].1, remote(q.statuses[i].0)) != Verdict::Stale by {
                let image = p.statuses[i].0;
                match remote(image) {
                    Some(d) => {
                        lemma_first_index(image, '@');
                        let name = image_name(image);
                        if name.contains('@') {
                            let j = choose|j: int| 0 <= j < name.len() && name[j] == '@';
                            assert(image[j] == '@');
                        }
                        lemma_live_digest_of_joined(name, d);
                    },
                    None => {},
                }
            }
        }
    }
}

} // verus!
