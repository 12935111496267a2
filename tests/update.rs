use kube_tag_radar::records::Image;
use kube_tag_radar::update::{RowAction, RowEvent, RowUpdate, Stage, UpdateError};

fn image() -> Image {
    Image {
        image: "nginx:1.25".to_string(),
        image_id: "docker.io/library/nginx@sha256:4444444444444444444444444444444444444444444444444444444444444444".to_string(),
        latest_tag: "latest".to_string(),
        latest_version_req: "*".to_string(),
        latest_version_regex: ".*".to_string(),
        resolved_image_id: None,
        latest_image_id: None,
        version: None,
        latest_version: None,
        last_checked: None,
    }
}

fn tags(t: &[&str]) -> Result<Vec<String>, UpdateError> {
    Ok(t.iter().map(|s| s.to_string()).collect())
}

fn ids(a: &str, b: &str) -> Result<(String, String), UpdateError> {
    Ok((a.to_string(), b.to_string()))
}

fn listed(a: &RowAction) -> Option<&str> {
    match a {
        RowAction::ListTags(s) => Some(s),
        _ => None,
    }
}

fn resolving(a: &RowAction) -> Option<&str> {
    match a {
        RowAction::ResolveIds(s) => Some(s),
        _ => None,
    }
}

#[test]
fn full_row_update_writes_every_field() {
    let img = image();
    let (mut row, action) = RowUpdate::start(&img, 42);
    assert_eq!(listed(&action), Some(img.image_id.as_str()));
    assert_eq!(row.stage, Stage::FirstListing);
    let action = row.step(RowEvent::Tags(tags(&["1.24", "1.26", "latest"])));
    assert_eq!(resolving(&action), Some("latest"));
    let action = row.step(RowEvent::Ids(ids("running@sha256:a", "latest@sha256:b")));
    match action {
        RowAction::Write(i) => {
            assert_eq!(i.version, Some("1.25".to_string()));
            assert_eq!(i.latest_version, Some("1.26".to_string()));
            assert_eq!(i.resolved_image_id, Some("running@sha256:a".to_string()));
            assert_eq!(i.latest_image_id, Some("latest@sha256:b".to_string()));
            assert_eq!(i.last_checked, Some(42));
            assert_eq!(i.image_id, img.image_id);
        }
        other => panic!("expected a write, got {other:?}"),
    }
    assert_eq!(row.stage, Stage::Finished);
}

#[test]
fn empty_listing_falls_back_to_image_repository() {
    let img = image();
    let (mut row, _) = RowUpdate::start(&img, 1);
    let action = row.step(RowEvent::Tags(tags(&[])));
    assert_eq!(listed(&action), Some("nginx:1.25"));
    assert_eq!(row.stage, Stage::FallbackListing);
    let action = row.step(RowEvent::Tags(tags(&[])));
    assert_eq!(resolving(&action), Some("latest"));
    assert_eq!(row.latest_version, Ok(None));
}

#[test]
fn failed_tag_resolution_retries_with_latest_version() {
    let (mut row, _) = RowUpdate::start(&image(), 1);
    row.step(RowEvent::Tags(tags(&["1.26"])));
    let action = row.step(RowEvent::Ids(Err(UpdateError::Registry)));
    assert_eq!(resolving(&action), Some("1.26"));
    assert_eq!(row.stage, Stage::Retrying);
    let action = row.step(RowEvent::Ids(ids("r", "l")));
    assert!(matches!(action, RowAction::Write(_)));
}

#[test]
fn second_failure_keeps_row() {
    let (mut row, _) = RowUpdate::start(&image(), 1);
    row.step(RowEvent::Tags(tags(&["1.26"])));
    row.step(RowEvent::Ids(Err(UpdateError::Registry)));
    let action = row.step(RowEvent::Ids(Err(UpdateError::Registry)));
    assert!(matches!(action, RowAction::Keep));
}

#[test]
fn failed_listing_keeps_row_without_retry() {
    let (mut row, _) = RowUpdate::start(&image(), 1);
    let action = row.step(RowEvent::Tags(Err(UpdateError::Registry)));
    assert_eq!(resolving(&action), Some("latest"));
    assert_eq!(row.latest_version, Err(UpdateError::Registry));
    let action = row.step(RowEvent::Ids(ids("r", "l")));
    assert!(matches!(action, RowAction::Keep));
}

#[test]
fn no_version_found_means_no_retry() {
    let (mut row, _) = RowUpdate::start(&image(), 1);
    row.step(RowEvent::Tags(tags(&["latest", "stable"])));
    let action = row.step(RowEvent::Ids(Err(UpdateError::Registry)));
    assert!(matches!(action, RowAction::Keep));
    assert_eq!(row.stage, Stage::Finished);
}

#[test]
fn unreadable_reference_keeps_row() {
    let mut img = image();
    img.image = String::new();
    let (mut row, _) = RowUpdate::start(&img, 1);
    assert_eq!(row.version, Err(UpdateError::Reference));
    row.step(RowEvent::Tags(tags(&["1.0"])));
    let action = row.step(RowEvent::Ids(ids("r", "l")));
    assert!(matches!(action, RowAction::Keep));
}

#[test]
fn unexpected_answer_ends_update() {
    let (mut row, _) = RowUpdate::start(&image(), 1);
    let action = row.step(RowEvent::Ids(ids("r", "l")));
    assert!(matches!(action, RowAction::Keep));
    assert_eq!(row.stage, Stage::Finished);
}

#[test]
fn invalid_policy_keeps_row_without_registry_calls() {
    let mut img = image();
    img.latest_version_req = "not a requirement".to_string();
    let (row, action) = RowUpdate::start(&img, 1);
    assert!(matches!(action, RowAction::Keep));
    assert_eq!(row.stage, Stage::Finished);
    let mut img = image();
    img.latest_version_regex = "(".to_string();
    let (_, action) = RowUpdate::start(&img, 1);
    assert!(matches!(action, RowAction::Keep));
}
