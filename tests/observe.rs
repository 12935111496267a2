use kube_tag_radar::observe::{reconcile, ContainerStatus, Pod, PodEvent, PolicyOverride};
use kube_tag_radar::store::{Database, StoreError};
use kube_tag_radar::settings::{default_database, default_tick_interval, default_update_delay, default_update_interval};

fn status(name: &str) -> ContainerStatus {
    ContainerStatus {
        name: name.to_string(),
        image: format!("{name}:1.0"),
        image_id: format!("docker.io/library/{name}@sha256:3333333333333333333333333333333333333333333333333333333333333333"),
    }
}

fn pod(annotations: &[(&str, &str)], statuses: Option<Vec<ContainerStatus>>) -> Pod {
    Pod {
        namespace: Some("ns".to_string()),
        name: Some("web".to_string()),
        annotations: annotations.iter().map(|(k, v)| (k.to_string(), v.to_string())).collect(),
        container_statuses: statuses,
    }
}

fn over(pod: Option<&str>, container: Option<&str>, tag: Option<&str>) -> PolicyOverride {
    PolicyOverride {
        namespace: "ns".to_string(),
        pod: pod.map(|s| s.to_string()),
        container: container.map(|s| s.to_string()),
        tag: tag.map(|s| s.to_string()),
        version_req: None,
        version_regex: None,
    }
}

#[test]
fn defaults_apply_without_policy() {
    let p = pod(&[], Some(vec![status("nginx"), status("redis")]));
    let cs = p.containers(&vec![]);
    assert_eq!(cs.len(), 2);
    assert_eq!(cs[0].container, "nginx");
    assert_eq!(cs[0].image, "nginx:1.0");
    assert_eq!(cs[1].namespace, "ns");
    assert_eq!(cs[1].pod, "web");
    assert_eq!(cs[1].latest_tag, "latest");
    assert_eq!(cs[1].latest_version_req, "*");
    assert_eq!(cs[1].latest_version_regex, ".*");
}

#[test]
fn annotation_precedence() {
    let p = pod(
        &[
            ("kube-tag-radar.mkroli.com/tag", "stable"),
            ("kube-tag-radar.mkroli.com/redis.tag", "7"),
            ("kube-tag-radar.mkroli.com/version_req", "^1"),
        ],
        Some(vec![status("nginx"), status("redis")]),
    );
    let cs = p.containers(&vec![over(Some("web"), None, Some("pod-level"))]);
    assert_eq!(cs[0].latest_tag, "stable");
    assert_eq!(cs[1].latest_tag, "7");
    assert_eq!(cs[0].latest_version_req, "^1");
    assert_eq!(cs[1].latest_version_regex, ".*");
}

#[test]
fn overrides_precedence() {
    let p = pod(&[("kube-tag-radar.mkroli.com/redis.tag", "7")], Some(vec![status("nginx"), status("redis")]));
    let overrides = vec![
        over(None, None, Some("namespace-level")),
        over(Some("web"), Some("redis"), Some("pinned")),
    ];
    let cs = p.containers(&overrides);
    assert_eq!(cs[0].latest_tag, "namespace-level");
    assert_eq!(cs[1].latest_tag, "pinned");
    let other = vec![over(Some("api"), None, Some("elsewhere"))];
    assert_eq!(p.containers(&other)[0].latest_tag, "latest");
}

#[test]
fn pod_without_status_has_no_containers() {
    assert!(pod(&[], None).containers(&vec![]).is_empty());
    let mut p = pod(&[], Some(vec![status("nginx")]));
    p.namespace = None;
    assert!(p.containers(&vec![]).is_empty());
}

#[test]
fn setting_defaults() {
    assert_eq!(default_database(), "./kube-tag-radar.sqlite");
    assert_eq!(default_update_delay(), 300);
    assert_eq!(default_update_interval(), 10800);
    assert_eq!(default_tick_interval(), 60);
}

#[test]
fn reconcile_applies_and_deletes_pods() {
    let mut db = Database::new();
    let p = pod(&[("kube-tag-radar.mkroli.com/tag", "stable")], Some(vec![status("nginx"), status("redis")]));
    assert_eq!(reconcile(&mut db, &PodEvent::Applied(p.clone()), &vec![]), Ok(()));
    let rows = db.list_image_with_container();
    assert_eq!(rows.len(), 2);
    assert_eq!(rows[0].latest_tag, "stable");
    assert_eq!(db.list_image().len(), 2);

    let dup = pod(&[], Some(vec![status("nginx"), status("nginx")]));
    assert_eq!(reconcile(&mut db, &PodEvent::Applied(dup), &vec![]), Err(StoreError::DuplicateContainer));
    assert_eq!(db.list_image_with_container().len(), 2);

    let mut nameless = pod(&[], Some(vec![status("busybox")]));
    nameless.name = None;
    assert_eq!(reconcile(&mut db, &PodEvent::Applied(nameless), &vec![]), Ok(()));
    assert_eq!(db.list_containers().len(), 2);

    assert_eq!(reconcile(&mut db, &PodEvent::Deleted(p), &vec![]), Ok(()));
    assert_eq!(db.list_containers().len(), 0);
    db.delete_unused_images();
    assert_eq!(db.list_image().len(), 0);
}
