//! Turning an observed pod into container rows, with the update policy of
//! each container resolved from overrides, annotations and defaults.
use vstd::prelude::*;
use vstd::string::*;
use crate::records::{opt_view, Container, ContainerView, ImageKey};
use crate::store::{
    all_in_pod, containers_view, distinct_slots, store_wf, with_pod, without_pod, Database, StoreError,
};

verus! {

/// The prefix of the annotations that set a policy.
pub const ANNOTATION_PREFIX: &'static str = "kube-tag-radar.mkroli.com/";

/// The policy field naming the tag that stands for "latest".
pub const FIELD_TAG: &'static str = "tag";

/// The policy field holding the version requirement.
pub const FIELD_VERSION_REQ: &'static str = "version_req";

/// The policy field holding the pattern that extracts a version from a tag.
pub const FIELD_VERSION_REGEX: &'static str = "version_regex";

/// The tag tracked where nothing else is set.
pub const DEFAULT_TAG: &'static str = "latest";

/// The requirement where nothing else is set: any version.
pub const DEFAULT_VERSION_REQ: &'static str = "*";

/// The pattern where nothing else is set: the whole tag.
pub const DEFAULT_VERSION_REGEX: &'static str = ".*";

/// A running container of a pod.
#[derive(Clone, Debug)]
pub struct ContainerStatus {
    pub name: String,
    pub image: String,
    pub image_id: String,
}

/// What reconciliation reads of a pod.
#[derive(Clone, Debug)]
pub struct Pod {
    pub namespace: Option<String>,
    pub name: Option<String>,
    pub annotations: Vec<(String, String)>,
    pub container_statuses: Option<Vec<ContainerStatus>>,
}

/// A policy set by configuration: for one container of a pod where
/// `container` is set, else for every container of the pod, or of the
/// namespace where `pod` is unset too. Unset fields leave the policy to
/// what comes next.
#[derive(Clone, Debug)]
pub struct PolicyOverride {
    pub namespace: String,
    pub pod: Option<String>,
    pub container: Option<String>,
    pub tag: Option<String>,
    pub version_req: Option<String>,
    pub version_regex: Option<String>,
}

pub struct OverrideView {
    pub namespace: Seq<char>,
    pub pod: Option<Seq<char>>,
    pub container: Option<Seq<char>>,
    pub fields: (Option<Seq<char>>, Option<Seq<char>>, Option<Seq<char>>),
}

impl View for PolicyOverride {
    type V = OverrideView;

    open spec fn view(&self) -> OverrideView {
        OverrideView {
            namespace: self.namespace@,
            pod: opt_view(self.pod),
            container: opt_view(self.container),
            fields: (opt_view(self.tag), opt_view(self.version_req), opt_view(self.version_regex)),
        }
    }
}

pub open spec fn overrides_view(o: Seq<PolicyOverride>) -> Seq<OverrideView> {
    o.map_values(|x: PolicyOverride| x@)
}

pub open spec fn pairs_view(a: Seq<(String, String)>) -> Seq<(Seq<char>, Seq<char>)> {
    a.map_values(|x: (String, String)| (x.0@, x.1@))
}

/// Whether an override is the container-specific one of a container.
pub open spec fn for_container(o: OverrideView, namespace: Seq<char>, pod: Seq<char>, container: Seq<char>) -> bool {
    o.namespace == namespace && o.pod == Some(pod) && o.container == Some(container)
}

/// Whether an override covers a whole pod, or its namespace.
pub open spec fn for_pod(o: OverrideView, namespace: Seq<char>, pod: Seq<char>) -> bool {
    o.namespace == namespace && o.container is None && (o.pod is None || o.pod == Some(pod))
}

/// The first container-specific override of a container.
pub open spec fn container_override(os: Seq<OverrideView>, namespace: Seq<char>, pod: Seq<char>, container: Seq<char>) -> Option<OverrideView>
    decreases os.len(),
{
    if os.len() == 0 {
        None
    } else if for_container(os[0], namespace, pod, container) {
        Some(os[0])
    } else {
        container_override(os.drop_first(), namespace, pod, container)
    }
}

/// The first override of a pod or its namespace.
pub open spec fn pod_override(os: Seq<OverrideView>, namespace: Seq<char>, pod: Seq<char>) -> Option<OverrideView>
    decreases os.len(),
{
    if os.len() == 0 {
        None
    } else if for_pod(os[0], namespace, pod) {
        Some(os[0])
    } else {
        pod_override(os.drop_first(), namespace, pod)
    }
}

/// The value of the first annotation with the key.
pub open spec fn annotation(a: Seq<(Seq<char>, Seq<char>)>, key: Seq<char>) -> Option<Seq<char>>
    decreases a.len(),
{
    if a.len() == 0 {
        None
    } else if a[0].0 == key {
        Some(a[0].1)
    } else {
        annotation(a.drop_first(), key)
    }
}

/// Field `f` of an override (0: tag, 1: requirement, 2: pattern).
pub open spec fn field_of(o: Option<OverrideView>, f: int) -> Option<Seq<char>> {
    match o {
        None => None,
        Some(v) => if f == 0 {
            v.fields.0
        } else if f == 1 {
            v.fields.1
        } else {
            v.fields.2
        },
    }
}

pub open spec fn field_name(f: int) -> Seq<char> {
    if f == 0 {
        FIELD_TAG@
    } else if f == 1 {
        FIELD_VERSION_REQ@
    } else {
        FIELD_VERSION_REGEX@
    }
}

pub open spec fn field_default(f: int) -> Seq<char> {
    if f == 0 {
        DEFAULT_TAG@
    } else if f == 1 {
        DEFAULT_VERSION_REQ@
    } else {
        DEFAULT_VERSION_REGEX@
    }
}

/// A policy field of a container, taken from the first that sets it of:
/// the container's own override, the annotation `prefix/container.field`,
/// the annotation `prefix/field`, the override of the pod or namespace, and
/// the default.
pub open spec fn policy(
    os: Seq<OverrideView>,
    a: Seq<(Seq<char>, Seq<char>)>,
    namespace: Seq<char>,
    pod: Seq<char>,
    container: Seq<char>,
    f: int,
) -> Seq<char> {
    let by_container = field_of(container_override(os, namespace, pod, container), f);
    let by_component = annotation(a, ANNOTATION_PREFIX@ + container + seq!['.'] + field_name(f));
    let by_pod_annotation = annotation(a, ANNOTATION_PREFIX@ + field_name(f));
    let by_pod = field_of(pod_override(os, namespace, pod), f);
    if by_container is Some {
        by_container.unwrap()
    } else if by_component is Some {
        by_component.unwrap()
    } else if by_pod_annotation is Some {
        by_pod_annotation.unwrap()
    } else if by_pod is Some {
        by_pod.unwrap()
    } else {
        field_default(f)
    }
}

/// The row of a running container.
pub open spec fn container_row(
    os: Seq<OverrideView>,
    a: Seq<(Seq<char>, Seq<char>)>,
    namespace: Seq<char>,
    pod: Seq<char>,
    s: ContainerStatus,
) -> ContainerView {
    ContainerView {
        namespace,
        pod,
        container: s.name@,
        key: ImageKey {
            image: s.image@,
            image_id: s.image_id@,
            latest_tag: policy(os, a, namespace, pod, s.name@, 0),
            latest_version_req: policy(os, a, namespace, pod, s.name@, 1),
            latest_version_regex: policy(os, a, namespace, pod, s.name@, 2),
        },
    }
}

/// The container rows of a pod: one per running container, none where the
/// pod has no namespace, name or status yet.
pub open spec fn pod_rows(p: Pod, os: Seq<OverrideView>) -> Seq<ContainerView> {
    match (p.namespace, p.name, p.container_statuses) {
        (Some(ns), Some(pod), Some(st)) => Seq::new(
            st@.len(),
            |i: int| container_row(os, pairs_view(p.annotations@), ns@, pod@, st@[i]),
        ),
        _ => Seq::empty(),
    }
}

fn find_container_override<'a>(os: &'a Vec<PolicyOverride>, namespace: &String, pod: &String, container: &String) -> (r: Option<&'a PolicyOverride>)
    ensures
        match r {
            None => container_override(overrides_view(os@), namespace@, pod@, container@) is None,
            Some(o) => container_override(overrides_view(os@), namespace@, pod@, container@) == Some(o@),
        },
{
    let ghost ov = overrides_view(os@);
    assert(ov.skip(0) =~= ov);
    let mut i: usize = 0;
    while i < os.len()
        invariant
            ov == overrides_view(os@),
            i <= os@.len(),
            container_override(ov, namespace@, pod@, container@) == container_override(ov.skip(i as int), namespace@, pod@, container@),
        decreases os@.len() - i,
    {
        let o = &os[i];
        assert(ov.skip(i as int)[0] == o@);
        assert(ov.skip(i as int).drop_first() =~= ov.skip(i as int + 1));
        let hit = o.namespace == *namespace && match (&o.pod, &o.container) {
            (Some(p), Some(c)) => *p == *pod && *c == *container,
            _ => false,
        };
        if hit {
            return Some(o);
        }
        i = i + 1;
    }
    assert(ov.skip(i as int).len() == 0);
    None
}

fn find_pod_override<'a>(os: &'a Vec<PolicyOverride>, namespace: &String, pod: &String) -> (r: Option<&'a PolicyOverride>)
    ensures
        match r {
            None => pod_override(overrides_view(os@), namespace@, pod@) is None,
            Some(o) => pod_override(overrides_view(os@), namespace@, pod@) == Some(o@),
        },
{
    let ghost ov = overrides_view(os@);
    assert(ov.skip(0) =~= ov);
    let mut i: usize = 0;
    while i < os.len()
        invariant
            ov == overrides_view(os@),
            i <= os@.len(),
            pod_override(ov, namespace@, pod@) == pod_override(ov.skip(i as int), namespace@, pod@),
        decreases os@.len() - i,
    {
        let o = &os[i];
        assert(ov.skip(i as int)[0] == o@);
        assert(ov.skip(i as int).drop_first() =~= ov.skip(i as int + 1));
        let hit = o.namespace == *namespace && o.container.is_none() && match &o.pod {
            None => true,
            Some(p) => *p == *pod,
        };
        if hit {
            return Some(o);
        }
        i = i + 1;
    }
    assert(ov.skip(i as int).len() == 0);
    None
}

fn find_annotation<'a>(a: &'a Vec<(String, String)>, key: &String) -> (r: Option<&'a String>)
    ensures
        match r {
            None => annotation(pairs_view(a@), key@) is None,
            Some(v) => annotation(pairs_view(a@), key@) == Some(v@),
        },
{
    let ghost av = pairs_view(a@);
    assert(av.skip(0) =~= av);
    let mut i: usize = 0;
    while i < a.len()
        invariant
            av == pairs_view(a@),
            i <= a@.len(),
            annotation(av, key@) == annotation(av.skip(i as int), key@),
        decreases a@.len() - i,
    {
        assert(av.skip(i as int)[0] == (a@[i as int].0@, a@[i as int].1@));
        assert(av.skip(i as int).drop_first() =~= av.skip(i as int + 1));
        if a[i].0 == *key {
            return Some(&a[i].1);
        }
        i = i + 1;
    }
    assert(av.skip(i as int).len() == 0);
    None
}

fn override_field(o: Option<&PolicyOverride>, f: usize) -> (r: Option<&String>)
    requires
        f < 3,
    ensures
        opt_ref_view(r) == field_of(opt_override_view(o), f as int),
{
    match o {
        None => None,
        Some(v) => {
            let x = if f == 0 {
                &v.tag
            } else if f == 1 {
                &v.version_req
            } else {
                &v.version_regex
            };
            match x {
                Some(s) => Some(s),
                None => None,
            }
        },
    }
}

pub open spec fn opt_ref_view(r: Option<&String>) -> Option<Seq<char>> {
    match r {
        Some(s) => Some(s@),
        None => None,
    }
}

pub open spec fn opt_override_view(o: Option<&PolicyOverride>) -> Option<OverrideView> {
    match o {
        Some(v) => Some(v@),
        None => None,
    }
}

fn field_text(f: usize) -> (r: &'static str)
    requires
        f < 3,
    ensures
        r@ == field_name(f as int),
{
    if f == 0 {
        FIELD_TAG
    } else if f == 1 {
        FIELD_VERSION_REQ
    } else {
        FIELD_VERSION_REGEX
    }
}

fn default_text(f: usize) -> (r: &'static str)
    requires
        f < 3,
    ensures
        r@ == field_default(f as int),
{
    if f == 0 {
        DEFAULT_TAG
    } else if f == 1 {
        DEFAULT_VERSION_REQ
    } else {
        DEFAULT_VERSION_REGEX
    }
}

/// Resolves one policy field of a container.
fn resolve_field(
    os: &Vec<PolicyOverride>,
    a: &Vec<(String, String)>,
    namespace: &String,
    pod: &String,
    container: &String,
    f: usize,
) -> (r: String)
    requires
        f < 3,
    ensures
        r@ == policy(overrides_view(os@), pairs_view(a@), namespace@, pod@, container@, f as int),
{
    proof {
        reveal_strlit(".");
        assert("."@ =~= seq!['.']);
    }
    let by_container = override_field(find_container_override(os, namespace, pod, container), f);
    if let Some(v) = by_container {
        return v.clone();
    }
    let mut component_key = String::from_str(ANNOTATION_PREFIX);
    component_key.append(container.as_str());
    component_key.append(".");
    component_key.append(field_text(f));
    if let Some(v) = find_annotation(a, &component_key) {
        return v.clone();
    }
    let mut pod_key = String::from_str(ANNOTATION_PREFIX);
    pod_key.append(field_text(f));
    if let Some(v) = find_annotation(a, &pod_key) {
        return v.clone();
    }
    let by_pod = override_field(find_pod_override(os, namespace, pod), f);
    if let Some(v) = by_pod {
        return v.clone();
    }
    String::from_str(default_text(f))
}

impl Pod {
    /// The container rows of the pod: one for each running container, with
    /// its policy resolved; none where the pod has no namespace, name or
    /// status yet.
    pub fn containers(&self, overrides: &Vec<PolicyOverride>) -> (r: Vec<Container>)
        ensures
            containers_view(r@) == pod_rows(*self, overrides_view(overrides@)),
    {
        let mut r: Vec<Container> = Vec::new();
        match (&self.namespace, &self.name, &self.container_statuses) {
            (Some(ns), Some(pod), Some(st)) => {
                let mut i: usize = 0;
                while i < st.len()
                    invariant
                        i <= st@.len(),
                        r@.len() == i,
                        forall|j: int| 0 <= j < i ==> (#[trigger] r@[j])@ == container_row(
                            overrides_view(overrides@),
                            pairs_view(self.annotations@),
                            ns@,
                            pod@,
                            st@[j],
                        ),
                    decreases st@.len() - i,
                {
                    let s = &st[i];
                    let latest_tag = resolve_field(overrides, &self.annotations, ns, pod, &s.name, 0);
                    let latest_version_req = resolve_field(overrides, &self.annotations, ns, pod, &s.name, 1);
                    let latest_version_regex = resolve_field(overrides, &self.annotations, ns, pod, &s.name, 2);
                    r.push(Container {
                        namespace: ns.clone(),
                        pod: pod.clone(),
                        container: s.name.clone(),
                        image: s.image.clone(),
                        image_id: s.image_id.clone(),
                        latest_tag,
                        latest_version_req,
                        latest_version_regex,
                    });
                    i = i + 1;
                }
            },
            _ => {},
        }
        assert(containers_view(r@) =~= pod_rows(*self, overrides_view(overrides@)));
        r
    }
}

/// A change of a pod, as a watch of the cluster reports it.
#[derive(Clone, Debug)]
pub enum PodEvent {
    /// The pod was listed, created or changed.
    Applied(Pod),
    /// The pod was deleted.
    Deleted(Pod),
}

/// Brings the tables up to date with one pod event: the container set of
/// an applied pod replaces the one stored for it, all at once, and a deleted
/// pod's containers go. A pod without namespace or name changes nothing, and
/// a refused set leaves the tables as they were.
pub fn reconcile(db: &mut Database, event: &PodEvent, overrides: &Vec<PolicyOverride>) -> (r: Result<(), StoreError>)
    requires
        store_wf(old(db)@),
    ensures
        store_wf(final(db)@),
        r is Err ==> final(db)@ == old(db)@,
        match event {
            PodEvent::Applied(p) => match (p.namespace, p.name) {
                (Some(ns), Some(name)) => {
                    &&& (r is Ok <==> distinct_slots(pod_rows(*p, overrides_view(overrides@))))
                    &&& r is Ok ==> final(db)@ == with_pod(old(db)@, ns@, name@, pod_rows(*p, overrides_view(overrides@)))
                },
                _ => r is Ok && final(db)@ == old(db)@,
            },
            PodEvent::Deleted(p) => r is Ok && match (p.namespace, p.name) {
                (Some(ns), Some(name)) => final(db)@ == without_pod(old(db)@, ns@, name@),
                _ => final(db)@ == old(db)@,
            },
        },
{
    match event {
        PodEvent::Applied(p) => match (&p.namespace, &p.name) {
            (Some(ns), Some(name)) => {
                let rows = p.containers(overrides);
                proof {
                    let v = pod_rows(*p, overrides_view(overrides@));
                    assert forall|i: int| 0 <= i < v.len() implies (#[trigger] v[i]).namespace == ns@ && v[i].pod == name@ by {}
                    assert(all_in_pod(ns@, name@, v));
                }
                let r = db.replace_pod(ns, name, rows);
                proof {
                    let v = pod_rows(*p, overrides_view(overrides@));
                    if distinct_slots(v) {
                        if r is Err {
                            match r->Err_0 {
                                StoreError::ForeignContainer => assert(r == Err::<(), StoreError>(StoreError::ForeignContainer)),
                                StoreError::DuplicateContainer => assert(r == Err::<(), StoreError>(StoreError::DuplicateContainer)),
                            }
                        }
                    } else {
                        assert(r == Err::<(), StoreError>(StoreError::DuplicateContainer));
                    }
                }
                r
            },
            _ => Ok(()),
        },
        PodEvent::Deleted(p) => match (&p.namespace, &p.name) {
            (Some(ns), Some(name)) => {
                db.delete_pod(ns, name);
                Ok(())
            },
            _ => Ok(()),
        },
    }
}

} // verus!
