use shipwright::drift::{detect_drift, Verdict};
use shipwright::reconcile::{
    begin_pod_check, is_eligible, next_eligible, pod_step, ContainerSpec, ContainerStatus,
    PodAction, PodRecord,
};

fn spec(image: &str, policy: &str) -> ContainerSpec {
    ContainerSpec { image: Some(image.to_string()), pull_policy: Some(policy.to_string()) }
}

fn status(image: &str, image_id: &str) -> ContainerStatus {
    ContainerStatus { image: image.to_string(), image_id: image_id.to_string() }
}

fn pod(containers: Vec<ContainerSpec>, statuses: Vec<ContainerStatus>) -> PodRecord {
    PodRecord {
        name: "web".to_string(),
        namespace: "default".to_string(),
        containers,
        statuses,
        pull_secrets: Vec::new(),
    }
}

/// Checks one pod against a registry; returns whether it is evicted and the
/// images whose digest was looked up.
fn check_pod(p: &PodRecord, registry: &dyn Fn(&str) -> Option<String>) -> (bool, Vec<String>) {
    let mut looked_up = Vec::new();
    let mut action = begin_pod_check(p);
    loop {
        match action {
            PodAction::Check(i) => {
                let st = &p.statuses[i];
                looked_up.push(st.image.clone());
                let verdict = detect_drift(&st.image_id, &registry(&st.image));
                action = pod_step(p, i, verdict);
            }
            PodAction::Evict => return (true, looked_up),
            PodAction::Keep => return (false, looked_up),
        }
    }
}

#[test]
fn eligibility_needs_matching_image_and_always_policy() {
    let specs = vec![spec("app:1", "Always"), spec("side:1", "IfNotPresent")];
    assert!(is_eligible(&specs, "app:1"));
    assert!(!is_eligible(&specs, "side:1"));
    assert!(!is_eligible(&specs, "gone:1"));
    let specs = vec![ContainerSpec { image: None, pull_policy: Some("Always".to_string()) }];
    assert!(!is_eligible(&specs, "app:1"));
}

#[test]
fn next_eligible_skips_ineligible_statuses() {
    let p = pod(
        vec![spec("app:1", "Always"), spec("side:1", "Never")],
        vec![status("side:1", "side@sha256:1"), status("app:1", "app@sha256:2")],
    );
    assert_eq!(next_eligible(&p, 0), Some(1));
    assert_eq!(next_eligible(&p, 2), None);
}

#[test]
fn matching_digest_is_not_evicted() {
    let p = pod(vec![spec("app:1", "Always")], vec![status("app:1", "app@sha256:aaa")]);
    let (evicted, looked_up) = check_pod(&p, &|_| Some("sha256:aaa".to_string()));
    assert!(!evicted);
    assert_eq!(looked_up, vec!["app:1"]);
}

#[test]
fn differing_digest_is_evicted_once() {
    let p = pod(vec![spec("app:1", "Always")], vec![status("app:1", "app@sha256:aaa")]);
    let (evicted, looked_up) = check_pod(&p, &|_| Some("sha256:bbb".to_string()));
    assert!(evicted);
    assert_eq!(looked_up.len(), 1);
}

#[test]
fn first_stale_container_ends_the_check() {
    let p = pod(
        vec![spec("a:1", "Always"), spec("b:1", "Always")],
        vec![status("a:1", "a@sha256:old"), status("b:1", "b@sha256:old")],
    );
    let (evicted, looked_up) = check_pod(&p, &|_| Some("sha256:new".to_string()));
    assert!(evicted);
    assert_eq!(looked_up, vec!["a:1"]);
}

#[test]
fn failed_lookup_does_not_evict() {
    let p = pod(vec![spec("app:1", "Always")], vec![status("app:1", "app@sha256:aaa")]);
    let (evicted, _) = check_pod(&p, &|_| None);
    assert!(!evicted);
    let (evicted, _) = check_pod(&p, &|_| Some("sha256:bbb".to_string()));
    assert!(evicted);
}

#[test]
fn other_pull_policy_is_never_looked_up() {
    let p = pod(
        vec![spec("app:1", "IfNotPresent"), spec("b:1", "Always")],
        vec![status("app:1", "app@sha256:aaa"), status("b:1", "b@sha256:x")],
    );
    let (evicted, looked_up) = check_pod(&p, &|_| Some("sha256:x".to_string()));
    assert!(!evicted);
    assert_eq!(looked_up, vec!["b:1"]);
}

#[test]
fn anomalous_image_id_is_not_evicted() {
    let p = pod(vec![spec("app:1", "Always")], vec![status("app:1", "app:1")]);
    assert_eq!(detect_drift("app:1", &Some("sha256:x".to_string())), Verdict::Anomalous);
    let (evicted, _) = check_pod(&p, &|_| Some("sha256:x".to_string()));
    assert!(!evicted);
}

#[test]
fn second_pass_evicts_nothing() {
    let registry = |_: &str| Some("sha256:bbb".to_string());
    let mut pods = vec![
        pod(vec![spec("app:1", "Always")], vec![status("app:1", "app@sha256:aaa")]),
        pod(vec![spec("app:1", "Always")], vec![status("app:1", "app@sha256:bbb")]),
    ];
    let mut evictions = 0;
    for p in pods.iter_mut() {
        let (evicted, _) = check_pod(p, &registry);
        if evicted {
            evictions += 1;
            for st in p.statuses.iter_mut() {
                st.image_id = format!("app@{}", registry(&st.image).unwrap());
            }
        }
    }
    assert_eq!(evictions, 1);
    for p in pods.iter() {
        let (evicted, _) = check_pod(p, &registry);
        assert!(!evicted);
    }
}
