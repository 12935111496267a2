use kube_tag_radar::records::{Container, Image};
use kube_tag_radar::store::{Database, StoreError};

fn container(ns: &str, pod: &str, name: &str, image: &str) -> Container {
    Container {
        namespace: ns.to_string(),
        pod: pod.to_string(),
        container: name.to_string(),
        image: image.to_string(),
        image_id: format!("{image}@sha256:1111111111111111111111111111111111111111111111111111111111111111"),
        latest_tag: "latest".to_string(),
        latest_version_req: "*".to_string(),
        latest_version_regex: ".*".to_string(),
    }
}

fn s(x: &str) -> String {
    x.to_string()
}

fn images(db: &Database) -> Vec<String> {
    let mut v: Vec<String> = db.list_image().into_iter().map(|i| i.image).collect();
    v.sort();
    v
}

#[test]
fn shared_key_gives_one_image_row() {
    let mut db = Database::new();
    let a = container("ns", "web", "a", "nginx:1.25");
    let b = container("ns", "web", "b", "nginx:1.25");
    assert_eq!(db.replace_pod(&s("ns"), &s("web"), vec![a, b]), Ok(()));
    assert_eq!(db.list_image().len(), 1);
    assert_eq!(db.list_image_with_container().len(), 2);
    let c = container("other", "api", "c", "nginx:1.25");
    assert_eq!(db.replace_pod(&s("other"), &s("api"), vec![c]), Ok(()));
    assert_eq!(db.list_image().len(), 1);
    assert_eq!(db.list_image_with_container().len(), 3);
}

#[test]
fn different_policy_gives_own_row() {
    let mut db = Database::new();
    let a = container("ns", "web", "a", "nginx:1.25");
    let mut b = container("ns", "web", "b", "nginx:1.25");
    b.latest_version_req = "^1".to_string();
    assert_eq!(db.replace_pod(&s("ns"), &s("web"), vec![a, b]), Ok(()));
    assert_eq!(db.list_image().len(), 2);
}

#[test]
fn orphan_row_removed_after_last_container_goes() {
    let mut db = Database::new();
    db.replace_pod(&s("ns"), &s("web"), vec![container("ns", "web", "a", "nginx:1.25")]).unwrap();
    db.replace_pod(&s("ns"), &s("api"), vec![container("ns", "api", "a", "redis:7")]).unwrap();
    db.delete_pod(&s("ns"), &s("web"));
    assert_eq!(images(&db), vec![s("nginx:1.25"), s("redis:7")]);
    db.delete_unused_images();
    assert_eq!(images(&db), vec![s("redis:7")]);
    db.delete_unused_images();
    assert_eq!(images(&db), vec![s("redis:7")]);
}

#[test]
fn failed_replace_leaves_tables_intact() {
    let mut db = Database::new();
    db.replace_pod(&s("ns"), &s("web"), vec![container("ns", "web", "a", "nginx:1.25")]).unwrap();
    let dup = vec![container("ns", "web", "x", "redis:7"), container("ns", "web", "x", "redis:8")];
    assert_eq!(db.replace_pod(&s("ns"), &s("web"), dup), Err(StoreError::DuplicateContainer));
    let foreign = vec![container("ns", "web", "x", "redis:7"), container("ns", "api", "y", "redis:8")];
    assert_eq!(db.replace_pod(&s("ns"), &s("web"), foreign), Err(StoreError::ForeignContainer));
    let rows = db.list_image_with_container();
    assert_eq!(rows.len(), 1);
    assert_eq!(rows[0].container, "a");
    assert_eq!(images(&db), vec![s("nginx:1.25")]);
}

#[test]
fn replace_pod_swaps_whole_set() {
    let mut db = Database::new();
    db.replace_pod(&s("ns"), &s("web"), vec![container("ns", "web", "a", "nginx:1.25"), container("ns", "web", "b", "redis:7")]).unwrap();
    db.replace_pod(&s("ns"), &s("web"), vec![container("ns", "web", "c", "nginx:1.26")]).unwrap();
    let rows = db.list_image_with_container();
    assert_eq!(rows.len(), 1);
    assert_eq!(rows[0].container, "c");
    db.delete_unused_images();
    assert_eq!(images(&db), vec![s("nginx:1.26")]);
}

#[test]
fn truncate_and_single_container_operations() {
    let mut db = Database::new();
    db.replace_container(&container("ns", "web", "a", "nginx:1.25"));
    db.replace_container(&container("ns", "web", "a", "nginx:1.26"));
    let rows = db.list_image_with_container();
    assert_eq!(rows.len(), 1);
    assert_eq!(rows[0].image, "nginx:1.26");
    db.delete_container(&container("ns", "web", "a", "nginx:1.26"));
    assert_eq!(db.list_image_with_container().len(), 0);
    db.replace_container(&container("ns", "web", "b", "nginx:1.26"));
    db.truncate_containers();
    assert_eq!(db.list_image_with_container().len(), 0);
    db.delete_unused_images();
    assert_eq!(db.list_image().len(), 0);
}

#[test]
fn update_details_by_full_key() {
    let mut db = Database::new();
    db.replace_pod(&s("ns"), &s("web"), vec![container("ns", "web", "a", "nginx:1.25")]).unwrap();
    let mut row: Image = db.list_image().remove(0);
    row.latest_version = Some(s("1.26"));
    row.version = Some(s("1.25"));
    row.resolved_image_id = Some(s("r"));
    row.latest_image_id = Some(s("l"));
    row.last_checked = Some(1700);
    db.update_image_details(&row);
    let joined = db.list_image_with_container();
    assert_eq!(joined[0].latest_version, Some(s("1.26")));
    assert_eq!(joined[0].last_checked, Some(1700));
    let mut gone = row.clone();
    gone.latest_tag = s("stable");
    gone.latest_version = Some(s("9"));
    db.update_image_details(&gone);
    assert_eq!(db.list_image().len(), 1);
    assert_eq!(db.list_image()[0].latest_version, Some(s("1.26")));
}

#[test]
fn restored_rows_keep_values_and_refuse_duplicate_keys() {
    let mut db = Database::new();
    db.replace_pod(&s("ns"), &s("web"), vec![container("ns", "web", "a", "nginx:1.25")]).unwrap();
    let mut rows = db.list_image();
    rows[0].latest_version = Some(s("1.26"));
    let restored = Database::with_images(rows.clone()).unwrap();
    assert_eq!(restored.list_containers().len(), 0);
    assert_eq!(restored.list_image()[0].latest_version, Some(s("1.26")));
    let twice = vec![rows[0].clone(), rows[0].clone()];
    assert!(Database::with_images(twice).is_none());
    assert_eq!(db.list_containers()[0].container, "a");
}
