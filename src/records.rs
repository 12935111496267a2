//! The rows of the state store: observed containers, the deduplicated image
//! computations they share, and the join of the two.
use vstd::prelude::*;

verus! {

/// The key an image row is stored under; containers that agree on it share
/// one row.
pub struct ImageKey {
    pub image: Seq<char>,
    pub image_id: Seq<char>,
    pub latest_tag: Seq<char>,
    pub latest_version_req: Seq<char>,
    pub latest_version_regex: Seq<char>,
}

/// What an update pass computes for an image row.
pub struct Computed {
    pub resolved_image_id: Option<Seq<char>>,
    pub latest_image_id: Option<Seq<char>>,
    pub version: Option<Seq<char>>,
    pub latest_version: Option<Seq<char>>,
    pub last_checked: Option<u64>,
}

pub struct ContainerView {
    pub namespace: Seq<char>,
    pub pod: Seq<char>,
    pub container: Seq<char>,
    pub key: ImageKey,
}

pub struct ImageView {
    pub key: ImageKey,
    pub computed: Computed,
}

pub struct JoinedView {
    pub namespace: Seq<char>,
    pub pod: Seq<char>,
    pub container: Seq<char>,
    pub image: ImageView,
}

pub open spec fn opt_view(s: Option<String>) -> Option<Seq<char>> {
    match s {
        Some(t) => Some(t@),
        None => None,
    }
}

/// The computed fields of a row that no pass has reached yet.
pub open spec fn fresh_computed() -> Computed {
    Computed {
        resolved_image_id: None,
        latest_image_id: None,
        version: None,
        latest_version: None,
        last_checked: None,
    }
}

pub fn clone_opt(s: &Option<String>) -> (r: Option<String>)
    ensures
        opt_view(r) == opt_view(*s),
{
    match s {
        Some(t) => Some(t.clone()),
        None => None,
    }
}

/// A container observed running, with the update policy resolved for it.
#[derive(Clone, Debug)]
pub struct Container {
    pub namespace: String,
    pub pod: String,
    pub container: String,
    pub image: String,
    pub image_id: String,
    pub latest_tag: String,
    pub latest_version_req: String,
    pub latest_version_regex: String,
}

impl View for Container {
    type V = ContainerView;

    open spec fn view(&self) -> ContainerView {
        ContainerView {
            namespace: self.namespace@,
            pod: self.pod@,
            container: self.container@,
            key: ImageKey {
                image: self.image@,
                image_id: self.image_id@,
                latest_tag: self.latest_tag@,
                latest_version_req: self.latest_version_req@,
                latest_version_regex: self.latest_version_regex@,
            },
        }
    }
}

impl Container {
    /// A copy with the same contents.
    pub fn duplicate(&self) -> (r: Container)
        ensures
            r@ == self@,
    {
        Container {
            namespace: self.namespace.clone(),
            pod: self.pod.clone(),
            container: self.container.clone(),
            image: self.image.clone(),
            image_id: self.image_id.clone(),
            latest_tag: self.latest_tag.clone(),
            latest_version_req: self.latest_version_req.clone(),
            latest_version_regex: self.latest_version_regex.clone(),
        }
    }

    /// The image row that this container needs, before any pass.
    pub fn fresh_image(&self) -> (r: Image)
        ensures
            r@ == (ImageView { key: self@.key, computed: fresh_computed() }),
    {
        Image {
            image: self.image.clone(),
            image_id: self.image_id.clone(),
            latest_tag: self.latest_tag.clone(),
            latest_version_req: self.latest_version_req.clone(),
            latest_version_regex: self.latest_version_regex.clone(),
            resolved_image_id: None,
            latest_image_id: None,
            version: None,
            latest_version: None,
            last_checked: None,
        }
    }

    /// Whether this container references the image row.
    pub fn uses(&self, image: &Image) -> (r: bool)
        ensures
            r == (self@.key == image@.key),
    {
        self.image == image.image && self.image_id == image.image_id && self.latest_tag
            == image.latest_tag && self.latest_version_req == image.latest_version_req
            && self.latest_version_regex == image.latest_version_regex
    }
}

/// The cached computation shared by all containers with the same image and
/// policy.
#[derive(Clone, Debug)]
pub struct Image {
    pub image: String,
    pub image_id: String,
    pub latest_tag: String,
    pub latest_version_req: String,
    pub latest_version_regex: String,
    pub resolved_image_id: Option<String>,
    pub latest_image_id: Option<String>,
    pub version: Option<String>,
    pub latest_version: Option<String>,
    pub last_checked: Option<u64>,
}

impl View for Image {
    type V = ImageView;

    open spec fn view(&self) -> ImageView {
        ImageView {
            key: ImageKey {
                image: self.image@,
                image_id: self.image_id@,
                latest_tag: self.latest_tag@,
                latest_version_req: self.latest_version_req@,
                latest_version_regex: self.latest_version_regex@,
            },
            computed: Computed {
                resolved_image_id: opt_view(self.resolved_image_id),
                latest_image_id: opt_view(self.latest_image_id),
                version: opt_view(self.version),
                latest_version: opt_view(self.latest_version),
                last_checked: self.last_checked,
            },
        }
    }
}

impl Image {
    /// A copy with the same contents.
    pub fn duplicate(&self) -> (r: Image)
        ensures
            r@ == self@,
    {
        Image {
            image: self.image.clone(),
            image_id: self.image_id.clone(),
            latest_tag: self.latest_tag.clone(),
            latest_version_req: self.latest_version_req.clone(),
            latest_version_regex: self.latest_version_regex.clone(),
            resolved_image_id: clone_opt(&self.resolved_image_id),
            latest_image_id: clone_opt(&self.latest_image_id),
            version: clone_opt(&self.version),
            latest_version: clone_opt(&self.latest_version),
            last_checked: self.last_checked,
        }
    }

    /// Whether two rows have the same key.
    pub fn same_key(&self, other: &Image) -> (r: bool)
        ensures
            r == (self@.key == other@.key),
    {
        self.image == other.image && self.image_id == other.image_id && self.latest_tag
            == other.latest_tag && self.latest_version_req == other.latest_version_req
            && self.latest_version_regex == other.latest_version_regex
    }
}

/// A container joined with the image row it references.
#[derive(Clone, Debug)]
pub struct ImageWithContainer {
    pub namespace: String,
    pub pod: String,
    pub container: String,
    pub image: String,
    pub image_id: String,
    pub latest_tag: String,
    pub latest_version_req: String,
    pub latest_version_regex: String,
    pub resolved_image_id: Option<String>,
    pub latest_image_id: Option<String>,
    pub version: Option<String>,
    pub latest_version: Option<String>,
    pub last_checked: Option<u64>,
}

impl View for ImageWithContainer {
    type V = JoinedView;

    open spec fn view(&self) -> JoinedView {
        JoinedView {
            namespace: self.namespace@,
            pod: self.pod@,
            container: self.container@,
            image: ImageView {
                key: ImageKey {
                    image: self.image@,
                    image_id: self.image_id@,
                    latest_tag: self.latest_tag@,
                    latest_version_req: self.latest_version_req@,
                    latest_version_regex: self.latest_version_regex@,
                },
                computed: Computed {
                    resolved_image_id: opt_view(self.resolved_image_id),
                    latest_image_id: opt_view(self.latest_image_id),
                    version: opt_view(self.version),
                    latest_version: opt_view(self.latest_version),
                    last_checked: self.last_checked,
                },
            },
        }
    }
}

/// The joined row of a container and its image row.
pub open spec fn joined(c: ContainerView, i: ImageView) -> JoinedView {
    JoinedView { namespace: c.namespace, pod: c.pod, container: c.container, image: i }
}

impl ImageWithContainer {
    /// Joins a container with an image row.
    pub fn join(c: &Container, i: &Image) -> (r: ImageWithContainer)
        ensures
            r@ == joined(c@, i@),
    {
        ImageWithContainer {
            namespace: c.namespace.clone(),
            pod: c.pod.clone(),
            container: c.container.clone(),
            image: i.image.clone(),
            image_id: i.image_id.clone(),
            latest_tag: i.latest_tag.clone(),
            latest_version_req: i.latest_version_req.clone(),
            latest_version_regex: i.latest_version_regex.clone(),
            resolved_image_id: clone_opt(&i.resolved_image_id),
            latest_image_id: clone_opt(&i.latest_image_id),
            version: clone_opt(&i.version),
            latest_version: clone_opt(&i.latest_version),
            last_checked: i.last_checked,
        }
    }
}

} // verus!
