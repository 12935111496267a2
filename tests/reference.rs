use kube_tag_radar::records::Image;
use kube_tag_radar::reference::{ImageRef, ReferenceError};
use kube_tag_radar::update::{DigestLookup, ImageIds, ImageVersion, UpdateError};

const DIGEST: &str = "sha256:2222222222222222222222222222222222222222222222222222222222222222";

fn image(image: &str, image_id: &str) -> Image {
    Image {
        image: image.to_string(),
        image_id: image_id.to_string(),
        latest_tag: "latest".to_string(),
        latest_version_req: "*".to_string(),
        latest_version_regex: ".*".to_string(),
        resolved_image_id: None,
        latest_image_id: None,
        version: None,
        latest_version: None,
        last_checked: None,
    }
}

#[test]
fn parses_short_reference() {
    let r = ImageRef::parse("nginx:1.25").unwrap();
    assert_eq!(r.registry, "docker.io");
    assert_eq!(r.repository, "library/nginx");
    assert_eq!(r.tag, Some("1.25".to_string()));
    assert_eq!(r.digest, None);
    assert_eq!(r.whole(), "docker.io/library/nginx:1.25");
}

#[test]
fn parses_digest_reference() {
    let text = format!("ghcr.io/org/app@{DIGEST}");
    let r = ImageRef::parse(&text).unwrap();
    assert_eq!(r.registry, "ghcr.io");
    assert_eq!(r.repository, "org/app");
    assert_eq!(r.tag, None);
    assert_eq!(r.digest, Some(DIGEST.to_string()));
    assert_eq!(r.whole(), text);
    assert!(ImageRef::parse("").is_err());
    assert_eq!(ImageRef::parse("UPPER/Case:tag").err(), Some(ReferenceError::Invalid));
}

#[test]
fn whole_skips_empty_parts() {
    let r = ImageRef { registry: String::new(), repository: "repo".to_string(), tag: None, digest: Some("d".to_string()) };
    assert_eq!(r.whole(), "repo@d");
    let r = ImageRef { registry: "reg".to_string(), repository: String::new(), tag: Some("t".to_string()), digest: Some("d".to_string()) };
    assert_eq!(r.whole(), "reg:t@d");
}

#[test]
fn running_version_is_reference_tag() {
    assert_eq!(image("nginx:1.25", "x").image_version(), Ok(Some("1.25".to_string())));
    assert_eq!(image("nginx", "x").image_version(), Ok(Some("latest".to_string())));
    assert_eq!(image(&format!("nginx@{DIGEST}"), "x").image_version(), Ok(None));
    assert_eq!(image("", "x").image_version(), Err(ReferenceError::Invalid));
}

#[test]
fn digest_plan_short_circuits_known_digest() {
    let img = image("nginx:1.25", &format!("docker.io/library/nginx@{DIGEST}"));
    let plan = img.image_ids("stable").unwrap();
    match plan.running_lookup() {
        DigestLookup::Known(d) => assert_eq!(d, DIGEST),
        DigestLookup::Fetch => panic!("digest was known"),
    }
    assert_eq!(plan.latest.whole(), "docker.io/library/nginx:stable");
    let (resolved, latest) = plan.finish(DIGEST, "sha256:l");
    assert_eq!(resolved, format!("docker.io/library/nginx@{DIGEST}"));
    assert_eq!(latest, "docker.io/library/nginx@sha256:l");
}

#[test]
fn digest_plan_fetches_tagged_reference() {
    let img = image("nginx:1.25", "nginx:1.25");
    let plan = img.image_ids("latest").unwrap();
    assert!(matches!(plan.running_lookup(), DigestLookup::Fetch));
    assert_eq!(plan.running.whole(), "docker.io/library/nginx:1.25");
    assert!(image("nginx", "").image_ids("latest").is_err());
}

#[test]
fn retry_uses_latest_version_only_after_failure() {
    let ok: Result<(String, String), UpdateError> = Ok(("a".to_string(), "b".to_string()));
    let failed: Result<(String, String), UpdateError> = Err(UpdateError::Registry);
    let found: Result<Option<String>, UpdateError> = Ok(Some("1.26".to_string()));
    assert_eq!(Image::retry_tag(&ok, &found), None);
    assert_eq!(Image::retry_tag(&failed, &found), Some("1.26".to_string()));
    assert_eq!(Image::retry_tag(&failed, &Ok(None)), None);
    assert_eq!(Image::retry_tag(&failed, &Err(UpdateError::Version)), None);
}

#[test]
fn computation_written_only_when_all_steps_succeed() {
    let img = image("nginx:1.25", "nginx:1.25");
    let ids: Result<(String, String), UpdateError> = Ok(("r".to_string(), "l".to_string()));
    let done = img.with_computation(&Ok(Some("1.25".to_string())), &Ok(Some("1.26".to_string())), &ids, 99).unwrap();
    assert_eq!(done.resolved_image_id, Some("r".to_string()));
    assert_eq!(done.latest_image_id, Some("l".to_string()));
    assert_eq!(done.version, Some("1.25".to_string()));
    assert_eq!(done.latest_version, Some("1.26".to_string()));
    assert_eq!(done.last_checked, Some(99));
    assert_eq!(done.image, img.image);
    assert!(img.with_computation(&Ok(None), &Ok(None), &Err(UpdateError::Registry), 99).is_none());
    assert!(img.with_computation(&Err(UpdateError::Reference), &Ok(None), &ids, 99).is_none());
}

