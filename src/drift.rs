//! Classifying a container as ignored, up to date, or behind its latest
//! image.
use vstd::prelude::*;
use crate::records::{ImageWithContainer, JoinedView};

verus! {

/// A container is up to date when the resolved running digest is the latest
/// digest, when the running reference is the latest reference, or when its
/// version is the latest version.
pub open spec fn up_to_date(v: JoinedView) -> bool {
    let c = v.image.computed;
    ||| (c.resolved_image_id is Some && c.latest_image_id is Some && c.resolved_image_id == c.latest_image_id)
    ||| (c.latest_image_id == Some(v.image.key.image_id))
    ||| (c.version is Some && c.latest_version is Some && c.version == c.latest_version)
}

fn opt_eq(a: &Option<String>, b: &Option<String>) -> (r: bool)
    ensures
        r == (a is Some && b is Some && a.unwrap()@ == b.unwrap()@),
{
    match (a, b) {
        (Some(x), Some(y)) => *x == *y,
        _ => false,
    }
}

/// Whether a newer image is available for the container.
pub fn update_available(image: &ImageWithContainer) -> (r: bool)
    ensures
        r == !up_to_date(image@),
{
    if opt_eq(&image.resolved_image_id, &image.latest_image_id) {
        return false;
    }
    match &image.latest_image_id {
        Some(latest) => {
            if *latest == image.image_id {
                return false;
            }
        },
        None => {},
    }
    !opt_eq(&image.version, &image.latest_version)
}

/// Containers of an image in a namespace that are never reported as behind
/// or up to date.
#[derive(Clone, Debug)]
pub struct Ignore {
    pub namespace: String,
    pub image: String,
}

pub open spec fn ignore_matches(i: (Seq<char>, Seq<char>), v: JoinedView) -> bool {
    i.0 == v.namespace && i.1 == v.image.key.image
}

impl View for Ignore {
    type V = (Seq<char>, Seq<char>);

    open spec fn view(&self) -> (Seq<char>, Seq<char>) {
        (self.namespace@, self.image@)
    }
}

impl Ignore {
    /// Whether the rule covers the container.
    pub fn matches(&self, container: &ImageWithContainer) -> (r: bool)
        ensures
            r == ignore_matches(self@, container@),
    {
        self.namespace == container.namespace && self.image == container.image
    }
}

pub open spec fn is_ignored(rules: Seq<Ignore>, v: JoinedView) -> bool {
    exists|k: int| 0 <= k < rules.len() && ignore_matches(#[trigger] rules[k]@, v)
}

/// Whether some rule covers the container.
pub fn ignored(rules: &Vec<Ignore>, image: &ImageWithContainer) -> (r: bool)
    ensures
        r == is_ignored(rules@, image@),
{
    let mut k: usize = 0;
    while k < rules.len()
        invariant
            k <= rules.len(),
            forall|j: int| 0 <= j < k ==> !ignore_matches(#[trigger] rules@[j]@, image@),
        decreases rules.len() - k,
    {
        if rules[k].matches(image) {
            return true;
        }
        k = k + 1;
    }
    false
}

/// The drift signal of a container: -1 when ignored, whatever else holds;
/// otherwise 0 when up to date and 1 when an update is available.
pub open spec fn drift_of(rules: Seq<Ignore>, v: JoinedView) -> int {
    if is_ignored(rules, v) {
        -1
    } else if up_to_date(v) {
        0
    } else {
        1
    }
}

/// The drift signal of a container under the ignore rules.
pub fn drift_value(rules: &Vec<Ignore>, image: &ImageWithContainer) -> (r: i64)
    ensures
        r == drift_of(rules@, image@),
{
    if ignored(rules, image) {
        -1
    } else if update_available(image) {
        1
    } else {
        0
    }
}

/// The drift signal of each joined row, in order.
pub fn drift_values(rules: &Vec<Ignore>, rows: &Vec<ImageWithContainer>) -> (r: Vec<i64>)
    ensures
        r@.len() == rows@.len(),
        forall|i: int| 0 <= i < rows@.len() ==> r@[i] == drift_of(rules@, #[trigger] rows@[i]@),
{
    let mut r: Vec<i64> = Vec::new();
    let mut i: usize = 0;
    while i < rows.len()
        invariant
            i <= rows.len(),
            r@.len() == i,
            forall|j: int| 0 <= j < i ==> r@[j] == drift_of(rules@, #[trigger] rows@[j]@),
        decreases rows.len() - i,
    {
        r.push(drift_value(rules, &rows[i]));
        i = i + 1;
    }
    r
}

} // verus!
