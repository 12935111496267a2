use kube_tag_radar::records::Image;
use kube_tag_radar::update::{LatestImageVersion, VersionError};
use kube_tag_radar::version::{best_effort_version, Pattern, Release, Requirement, VersionParser};
use std::cmp::Ordering;

fn parser(req: &str) -> VersionParser {
    VersionParser::new(Requirement::parse(req).unwrap()).unwrap()
}

fn not_after(a: &Option<Release>, b: &Option<Release>) -> bool {
    match (a, b) {
        (None, _) => true,
        (Some(_), None) => false,
        (Some(x), Some(y)) => x.compare(y) != Ordering::Greater,
    }
}

fn image(req: &str, regex: &str) -> Image {
    Image {
        image: "docker.io/library/nginx:1.25".to_string(),
        image_id: "docker.io/library/nginx@sha256:0000000000000000000000000000000000000000000000000000000000000000".to_string(),
        latest_tag: "latest".to_string(),
        latest_version_req: req.to_string(),
        latest_version_regex: regex.to_string(),
        resolved_image_id: None,
        latest_image_id: None,
        version: None,
        latest_version: None,
        last_checked: None,
    }
}

fn tags(t: &[&str]) -> Vec<String> {
    t.iter().map(|s| s.to_string()).collect()
}

#[test]
fn test_best_effort_version_order() {
    let vp = parser("*");
    let versions = vec![
        vp.parse("test"),
        vp.parse("2"),
        vp.parse("0.1"),
        vp.parse("0.3"),
        vp.parse("1.0"),
        vp.parse("1.0.1"),
        vp.parse("2.0"),
    ];
    assert!(versions.windows(2).all(|w| not_after(&w[0], &w[1])));
}

#[test]
fn bare_number_is_not_below_short_version() {
    let vp = parser("*");
    let two = vp.parse("2").unwrap();
    let zero_one = vp.parse("0.1").unwrap();
    assert_eq!(two.compare(&zero_one), Ordering::Less);
    assert_eq!((two.major(), two.minor(), two.patch()), (0, 0, 2));
    assert_eq!((zero_one.major(), zero_one.minor(), zero_one.patch()), (0, 1, 0));
}

#[test]
fn strict_chain_of_versions() {
    let vp = parser("*");
    let chain: Vec<Release> = ["0.1", "0.3", "1.0", "1.0.1", "2.0"].iter().map(|t| vp.parse(t).unwrap()).collect();
    for w in chain.windows(2) {
        assert_eq!(w[0].compare(&w[1]), Ordering::Less);
    }
    assert!(vp.parse("test").is_none());
}

#[test]
fn best_effort_fills_missing_parts() {
    assert_eq!(best_effort_version(Some("42"), None, None, None), "0.0.42");
    assert_eq!(best_effort_version(Some("1"), Some("2"), None, Some("")), "1.2.0");
    assert_eq!(best_effort_version(Some("1"), Some("2"), Some("3"), Some("-rc.1")), "1.2.3-rc.1");
    assert_eq!(best_effort_version(None, None, None, None), "0.0.0");
    assert_eq!(best_effort_version(Some("1"), None, Some("3"), Some("-x")), "1.0.3-x");
}

#[test]
fn parser_reads_prefix_and_suffix() {
    let vp = parser("*");
    let v = vp.parse("v1.02.3").unwrap();
    assert_eq!((v.major(), v.minor(), v.patch()), (1, 2, 3));
    assert_eq!(v.compare(&Release::parse("1.2.3").unwrap()), Ordering::Equal);
    // `*` matches no pre-release, so a suffixed tag only counts where the
    // requirement names one.
    assert!(vp.parse("v1.02.3-alpine").is_none());
    let pre = parser(">=1.2.3-alpha").parse("v1.02.3-alpine").unwrap();
    assert_eq!(pre.compare(&Release::parse("1.2.3-alpine").unwrap()), Ordering::Equal);
    assert_eq!(pre.compare(&v), Ordering::Less);
}

#[test]
fn parser_applies_requirement() {
    let vp = parser("^1");
    assert!(vp.parse("1.4").is_some());
    assert!(vp.parse("2.0").is_none());
}

#[test]
fn pattern_rejects_invalid_source() {
    assert!(Pattern::new("(").is_none());
    let p = Pattern::new("^app-(.*)$").unwrap();
    let groups = p.captures("app-1.2").unwrap();
    assert_eq!(groups, vec![Some("app-1.2".to_string()), Some("1.2".to_string())]);
    assert!(p.captures("web-1.2").is_none());
}

#[test]
fn latest_is_greatest_matching_tag() {
    let img = image("*", ".*");
    let r = img.latest_image_version(&tags(&["1.0", "test", "1.10", "1.9", "latest"])).unwrap();
    assert_eq!(r, Some("1.10".to_string()));
}

#[test]
fn equal_versions_keep_first_tag() {
    let img = image("*", ".*");
    assert_eq!(img.latest_image_version(&tags(&["1.0", "v1.0", "0.9"])).unwrap(), Some("1.0".to_string()));
    assert_eq!(img.latest_image_version(&tags(&["v1.0", "1.0", "0.9"])).unwrap(), Some("v1.0".to_string()));
    assert_eq!(img.latest_image_version(&tags(&["1.0.0", "1.0"])).unwrap(), Some("1.0.0".to_string()));
}

#[test]
fn unmatched_tags_yield_nothing() {
    let img = image("*", ".*");
    assert_eq!(img.latest_image_version(&tags(&["test", "latest", "stable"])).unwrap(), None);
    assert_eq!(img.latest_image_version(&tags(&[])).unwrap(), None);
}

#[test]
fn requirement_limits_latest() {
    let img = image("^1", ".*");
    assert_eq!(img.latest_image_version(&tags(&["1.5.0", "2.0.0", "1.2.0"])).unwrap(), Some("1.5.0".to_string()));
    let img = image(">=1.0, <2.0", ".*");
    assert_eq!(img.latest_image_version(&tags(&["0.9", "1.9.9", "2.0"])).unwrap(), Some("1.9.9".to_string()));
}

#[test]
fn selector_group_extracts_version() {
    let img = image("*", "^app-(.*)$");
    let r = img.latest_image_version(&tags(&["app-1.0", "other-3.0", "app-2.0", "3.0"])).unwrap();
    assert_eq!(r, Some("app-2.0".to_string()));
}

#[test]
fn invalid_policy_is_reported() {
    assert_eq!(image("not a req", ".*").latest_image_version(&tags(&["1.0"])), Err(VersionError::InvalidRequirement));
    assert_eq!(image("*", "(").latest_image_version(&tags(&["1.0"])), Err(VersionError::InvalidSelector));
}
