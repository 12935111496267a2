//! The state store: observed containers and the deduplicated image rows
//! they share, with the operations of reconciliation and update passes.
//! Every operation takes the tables from one consistent state to the next,
//! and an operation that fails leaves them as they were.
use vstd::prelude::*;
use crate::records::{
    fresh_computed, joined, Container, ContainerView, Image, ImageKey, ImageView,
    ImageWithContainer, JoinedView,
};

verus! {

/// The two tables.
pub struct StoreView {
    pub containers: Seq<ContainerView>,
    pub images: Seq<ImageView>,
}

/// The primary key of a container row.
pub open spec fn slot(c: ContainerView) -> (Seq<char>, Seq<char>, Seq<char>) {
    (c.namespace, c.pod, c.container)
}

pub open spec fn distinct_slots(cs: Seq<ContainerView>) -> bool {
    forall|i: int, j: int| 0 <= i < j < cs.len() ==> slot(#[trigger] cs[i]) != slot(#[trigger] cs[j])
}

pub open spec fn distinct_keys(images: Seq<ImageView>) -> bool {
    forall|i: int, j: int| 0 <= i < j < images.len() ==> (#[trigger] images[i]).key != (#[trigger] images[j]).key
}

/// Whether some row has the key.
pub open spec fn has_key(images: Seq<ImageView>, k: ImageKey) -> bool {
    exists|i: int| 0 <= i < images.len() && (#[trigger] images[i]).key == k
}

/// Whether some container references the key.
pub open spec fn referenced(cs: Seq<ContainerView>, k: ImageKey) -> bool {
    exists|i: int| 0 <= i < cs.len() && (#[trigger] cs[i]).key == k
}

/// Container rows are unique per (namespace, pod, container), image rows
/// per key, and every container has its image row.
pub open spec fn store_wf(s: StoreView) -> bool {
    &&& distinct_slots(s.containers)
    &&& distinct_keys(s.images)
    &&& forall|i: int| 0 <= i < s.containers.len() ==> has_key(s.images, (#[trigger] s.containers[i]).key)
}

pub open spec fn is_used(cs: Seq<ContainerView>) -> spec_fn(ImageView) -> bool {
    |i: ImageView| referenced(cs, i.key)
}

/// The image rows that a container references, the others being orphans.
pub open spec fn used_images(s: StoreView) -> Seq<ImageView> {
    s.images.filter(is_used(s.containers))
}

pub open spec fn outside_pod(namespace: Seq<char>, pod: Seq<char>) -> spec_fn(ContainerView) -> bool {
    |c: ContainerView| !(c.namespace == namespace && c.pod == pod)
}

pub open spec fn outside_slot(x: ContainerView) -> spec_fn(ContainerView) -> bool {
    |c: ContainerView| slot(c) != slot(x)
}

/// The tables after deleting the containers of a pod.
pub open spec fn without_pod(s: StoreView, namespace: Seq<char>, pod: Seq<char>) -> StoreView {
    StoreView { containers: s.containers.filter(outside_pod(namespace, pod)), images: s.images }
}

/// The tables after deleting the container row in the slot of `x`.
pub open spec fn without_slot(s: StoreView, x: ContainerView) -> StoreView {
    StoreView { containers: s.containers.filter(outside_slot(x)), images: s.images }
}

/// The tables after orphan cleanup.
pub open spec fn without_orphans(s: StoreView) -> StoreView {
    StoreView { containers: s.containers, images: used_images(s) }
}

/// The row with a key, where there is one.
pub open spec fn row_of(images: Seq<ImageView>, k: ImageKey) -> ImageView {
    images[choose|i: int| 0 <= i < images.len() && (#[trigger] images[i]).key == k]
}

/// The join of every container with its image row, in container order.
pub open spec fn joined_rows(s: StoreView) -> Seq<JoinedView> {
    Seq::new(s.containers.len(), |i: int| joined(s.containers[i], row_of(s.images, s.containers[i].key)))
}

/// The image rows after writing the computed fields of `img` into the row
/// with its key.
pub open spec fn with_details(images: Seq<ImageView>, img: ImageView) -> Seq<ImageView> {
    images.map_values(|i: ImageView| if i.key == img.key {
        ImageView { key: i.key, computed: img.computed }
    } else {
        i
    })
}

/// A filter keeps only elements of the sequence, and every element that
/// satisfies the predicate.
pub proof fn lemma_filter_subset<A>(s: Seq<A>, p: spec_fn(A) -> bool)
    ensures
        forall|i: int| 0 <= i < s.filter(p).len() ==> p(#[trigger] s.filter(p)[i]) && s.contains(s.filter(p)[i]),
        forall|i: int| 0 <= i < s.len() && p(#[trigger] s[i]) ==> s.filter(p).contains(s[i]),
    decreases s.len(),
{
    reveal(Seq::filter);
    s.filter_lemma(p);
    if s.len() > 0 {
        let init = s.drop_last();
        lemma_filter_subset(init, p);
        let f = s.filter(p);
        assert forall|i: int| 0 <= i < f.len() implies p(#[trigger] f[i]) && s.contains(f[i]) by {
            let g = init.filter(p);
            if i < g.len() {
                assert(f[i] == g[i]);
                assert(init.contains(g[i]));
                let k = choose|k: int| 0 <= k < init.len() && init[k] == g[i];
                assert(s[k] == init[k]);
            } else {
                assert(f[i] == s.last());
                assert(s[s.len() - 1] == s.last());
            }
        }
    }
    assert forall|i: int| 0 <= i < s.len() && p(#[trigger] s[i]) implies s.filter(p).contains(s[i]) by {
        s.lemma_filter_contains(p, i);
    }
}

pub proof fn lemma_filter_step<A>(s: Seq<A>, p: spec_fn(A) -> bool, i: int)
    requires
        0 <= i < s.len(),
    ensures
        s.take(i + 1).filter(p) == if p(s[i]) {
            s.take(i).filter(p).push(s[i])
        } else {
            s.take(i).filter(p)
        },
{
    reveal(Seq::filter);
    assert(s.take(i + 1).drop_last() =~= s.take(i));
}

/// Filtering keeps keys distinct.
pub proof fn lemma_filter_distinct_keys(s: Seq<ImageView>, p: spec_fn(ImageView) -> bool)
    requires
        distinct_keys(s),
    ensures
        distinct_keys(s.filter(p)),
    decreases s.len(),
{
    reveal(Seq::filter);
    if s.len() > 0 {
        let init = s.drop_last();
        assert(distinct_keys(init)) by {
            assert forall|i: int, j: int| 0 <= i < j < init.len() implies (#[trigger] init[i]).key != (#[trigger] init[j]).key by {
                assert(init[i] == s[i] && init[j] == s[j]);
            }
        }
        lemma_filter_distinct_keys(init, p);
        lemma_filter_subset(init, p);
        let f = init.filter(p);
        if p(s.last()) {
            let g = f.push(s.last());
            assert forall|i: int, j: int| 0 <= i < j < g.len() implies (#[trigger] g[i]).key != (#[trigger] g[j]).key by {
                if j == g.len() - 1 {
                    assert(init.contains(f[i]));
                    let k = choose|k: int| 0 <= k < init.len() && init[k] == f[i];
                    assert(s[k] == init[k]);
                } else {
                    assert(g[i] == f[i] && g[j] == f[j]);
                }
            }
        }
    }
}

/// Filtering keeps container slots distinct.
pub proof fn lemma_filter_distinct_slots(s: Seq<ContainerView>, p: spec_fn(ContainerView) -> bool)
    requires
        distinct_slots(s),
    ensures
        distinct_slots(s.filter(p)),
    decreases s.len(),
{
    reveal(Seq::filter);
    if s.len() > 0 {
        let init = s.drop_last();
        assert(distinct_slots(init)) by {
            assert forall|i: int, j: int| 0 <= i < j < init.len() implies slot(#[trigger] init[i]) != slot(#[trigger] init[j]) by {
                assert(init[i] == s[i] && init[j] == s[j]);
            }
        }
        lemma_filter_distinct_slots(init, p);
        lemma_filter_subset(init, p);
        let f = init.filter(p);
        if p(s.last()) {
            let g = f.push(s.last());
            assert forall|i: int, j: int| 0 <= i < j < g.len() implies slot(#[trigger] g[i]) != slot(#[trigger] g[j]) by {
                if j == g.len() - 1 {
                    assert(init.contains(f[i]));
                    let k = choose|k: int| 0 <= k < init.len() && init[k] == f[i];
                    assert(s[k] == init[k]);
                } else {
                    assert(g[i] == f[i] && g[j] == f[j]);
                }
            }
        }
    }
}

/// The row that a container needs before any pass.
pub open spec fn fresh_row(k: ImageKey) -> ImageView {
    ImageView { key: k, computed: fresh_computed() }
}

/// The image rows after an insert-if-absent of the row of each container,
/// in order.
pub open spec fn with_keys(images: Seq<ImageView>, cs: Seq<ContainerView>) -> Seq<ImageView>
    decreases cs.len(),
{
    if cs.len() == 0 {
        images
    } else {
        let prev = with_keys(images, cs.drop_last());
        if has_key(prev, cs.last().key) {
            prev
        } else {
            prev.push(fresh_row(cs.last().key))
        }
    }
}

/// The tables after the container set of a pod is replaced by `new`.
pub open spec fn with_pod(s: StoreView, namespace: Seq<char>, pod: Seq<char>, new: Seq<ContainerView>) -> StoreView {
    StoreView {
        containers: s.containers.filter(outside_pod(namespace, pod)) + new,
        images: with_keys(s.images, new),
    }
}

/// The tables after the container in the slot of `c` is replaced by `c`.
pub open spec fn with_container(s: StoreView, c: ContainerView) -> StoreView {
    StoreView {
        containers: s.containers.filter(outside_slot(c)).push(c),
        images: with_keys(s.images, seq![c]),
    }
}

/// Whether every container of `new` belongs to the pod.
pub open spec fn all_in_pod(namespace: Seq<char>, pod: Seq<char>, new: Seq<ContainerView>) -> bool {
    forall|i: int| 0 <= i < new.len() ==> (#[trigger] new[i]).namespace == namespace && new[i].pod == pod
}

/// Inserting rows keeps the existing rows in place, keeps keys distinct,
/// and gives every container its row.
pub proof fn lemma_with_keys(images: Seq<ImageView>, cs: Seq<ContainerView>)
    requires
        distinct_keys(images),
    ensures
        distinct_keys(with_keys(images, cs)),
        with_keys(images, cs).len() >= images.len(),
        forall|i: int| 0 <= i < images.len() ==> #[trigger] with_keys(images, cs)[i] == images[i],
        forall|i: int| 0 <= i < cs.len() ==> has_key(with_keys(images, cs), (#[trigger] cs[i]).key),
    decreases cs.len(),
{
    if cs.len() > 0 {
        let init = cs.drop_last();
        lemma_with_keys(images, init);
        let prev = with_keys(images, init);
        let r = with_keys(images, cs);
        if !has_key(prev, cs.last().key) {
            assert forall|i: int, j: int| 0 <= i < j < r.len() implies (#[trigger] r[i]).key != (#[trigger] r[j]).key by {
                if j == r.len() - 1 {
                    assert(r[i] == prev[i]);
                } else {
                    assert(r[i] == prev[i] && r[j] == prev[j]);
                }
            }
            assert(r[r.len() - 1].key == cs.last().key);
        }
        assert forall|i: int| 0 <= i < cs.len() implies has_key(r, (#[trigger] cs[i]).key) by {
            if i < init.len() {
                assert(init[i] == cs[i]);
                let m = choose|m: int| 0 <= m < prev.len() && (#[trigger] prev[m]).key == init[i].key;
                assert(r[m] == prev[m]);
            } else if !has_key(prev, cs.last().key) {
                assert(r[r.len() - 1].key == cs.last().key);
            }
        }
    }
}

pub proof fn lemma_with_keys_step(images: Seq<ImageView>, cs: Seq<ContainerView>)
    requires
        cs.len() > 0,
    ensures
        with_keys(images, cs) == with_keys(with_keys(images, cs.drop_last()), seq![cs.last()]),
{
    let one = seq![cs.last()];
    let x = with_keys(images, cs.drop_last());
    assert(one.drop_last() =~= Seq::<ContainerView>::empty());
    assert(with_keys(x, one.drop_last()) == x);
    assert(one.last() == cs.last());
}

/// Replacing the containers of a pod by a set that belongs to it, with
/// distinct names, keeps the tables well formed.
pub proof fn lemma_with_pod_wf(s: StoreView, namespace: Seq<char>, pod: Seq<char>, new: Seq<ContainerView>)
    requires
        store_wf(s),
        all_in_pod(namespace, pod, new),
        distinct_slots(new),
    ensures
        store_wf(with_pod(s, namespace, pod, new)),
{
    let p = outside_pod(namespace, pod);
    let f = s.containers.filter(p);
    lemma_fewer_containers_wf(s, p);
    lemma_filter_subset(s.containers, p);
    lemma_with_keys(s.images, new);
    let t = with_pod(s, namespace, pod, new);
    let cs = f + new;
    assert forall|i: int, j: int| 0 <= i < j < cs.len() implies slot(#[trigger] cs[i]) != slot(#[trigger] cs[j]) by {
        if j < f.len() {
            assert(cs[i] == f[i] && cs[j] == f[j]);
        } else if i >= f.len() {
            assert(cs[i] == new[i - f.len()] && cs[j] == new[j - f.len()]);
        } else {
            assert(cs[i] == f[i] && cs[j] == new[j - f.len()]);
            assert(p(f[i]));
        }
    }
    assert forall|i: int| 0 <= i < cs.len() implies has_key(t.images, (#[trigger] cs[i]).key) by {
        if i < f.len() {
            assert(cs[i] == f[i]);
            let m = choose|m: int| 0 <= m < s.images.len() && (#[trigger] s.images[m]).key == f[i].key;
            assert(t.images[m] == s.images[m]);
        } else {
            assert(cs[i] == new[i - f.len()]);
        }
    }
}

/// Replacing one container keeps the tables well formed.
pub proof fn lemma_with_container_wf(s: StoreView, c: ContainerView)
    requires
        store_wf(s),
    ensures
        store_wf(with_container(s, c)),
{
    let p = outside_slot(c);
    let f = s.containers.filter(p);
    lemma_fewer_containers_wf(s, p);
    lemma_filter_subset(s.containers, p);
    lemma_with_keys(s.images, seq![c]);
    let t = with_container(s, c);
    let cs = f.push(c);
    assert forall|i: int, j: int| 0 <= i < j < cs.len() implies slot(#[trigger] cs[i]) != slot(#[trigger] cs[j]) by {
        if j < f.len() {
            assert(cs[i] == f[i] && cs[j] == f[j]);
        } else {
            assert(cs[i] == f[i]);
            assert(p(f[i]));
        }
    }
    assert forall|i: int| 0 <= i < cs.len() implies has_key(t.images, (#[trigger] cs[i]).key) by {
        if i < f.len() {
            assert(cs[i] == f[i]);
            let m = choose|m: int| 0 <= m < s.images.len() && (#[trigger] s.images[m]).key == f[i].key;
            assert(t.images[m] == s.images[m]);
        } else {
            assert(seq![c][0] == c);
        }
    }
}

/// Deleting containers keeps the tables well formed.
pub proof fn lemma_fewer_containers_wf(s: StoreView, p: spec_fn(ContainerView) -> bool)
    requires
        store_wf(s),
    ensures
        store_wf(StoreView { containers: s.containers.filter(p), images: s.images }),
{
    lemma_filter_distinct_slots(s.containers, p);
    lemma_filter_subset(s.containers, p);
    let f = s.containers.filter(p);
    assert forall|i: int| 0 <= i < f.len() implies has_key(s.images, (#[trigger] f[i]).key) by {
        assert(s.containers.contains(f[i]));
        let k = choose|k: int| 0 <= k < s.containers.len() && s.containers[k] == f[i];
        assert(has_key(s.images, s.containers[k].key));
    }
}

/// Orphan cleanup keeps the tables well formed.
pub proof fn lemma_without_orphans_wf(s: StoreView)
    requires
        store_wf(s),
    ensures
        store_wf(without_orphans(s)),
{
    let p = is_used(s.containers);
    lemma_filter_distinct_keys(s.images, p);
    lemma_filter_subset(s.images, p);
    let f = s.images.filter(p);
    assert forall|i: int| 0 <= i < s.containers.len() implies has_key(f, (#[trigger] s.containers[i]).key) by {
        let k = choose|k: int| 0 <= k < s.images.len() && (#[trigger] s.images[k]).key == s.containers[i].key;
        assert(p(s.images[k]));
        assert(f.contains(s.images[k]));
        let m = choose|m: int| 0 <= m < f.len() && f[m] == s.images[k];
        assert(f[m].key == s.containers[i].key);
    }
}

/// Containers with the same image and policy share exactly one image row,
/// so a pass over the image rows resolves their key once, however many
/// containers there are.
pub proof fn lemma_shared_key_one_row(s: StoreView, i: int, j: int)
    requires
        store_wf(s),
        0 <= i < s.containers.len(),
        0 <= j < s.containers.len(),
        s.containers[i].key == s.containers[j].key,
    ensures
        exists|k: int| 0 <= k < s.images.len() && s.images[k].key == s.containers[j].key
            && forall|m: int| 0 <= m < s.images.len() && (#[trigger] s.images[m]).key == s.containers[i].key ==> m == k,
{
    let key = s.containers[i].key;
    let k = choose|k: int| 0 <= k < s.images.len() && (#[trigger] s.images[k]).key == key;
    assert forall|m: int| 0 <= m < s.images.len() && (#[trigger] s.images[m]).key == key implies m == k by {
        if m < k {
            assert(s.images[m].key != s.images[k].key);
        } else if m > k {
            assert(s.images[k].key != s.images[m].key);
        }
    }
}

/// Once the containers of the only pod that references a key are deleted,
/// orphan cleanup removes the row of that key, keeps every row that a
/// remaining container references, and adds none.
pub proof fn lemma_orphan_cleanup(s: StoreView, namespace: Seq<char>, pod: Seq<char>, k: ImageKey)
    requires
        store_wf(s),
        forall|i: int| 0 <= i < s.containers.len() && (#[trigger] s.containers[i]).key == k
            ==> s.containers[i].namespace == namespace && s.containers[i].pod == pod,
    ensures
        !has_key(without_orphans(without_pod(s, namespace, pod)).images, k),
        forall|m: int| 0 <= m < s.images.len() && referenced(without_pod(s, namespace, pod).containers, (#[trigger] s.images[m]).key)
            ==> without_orphans(without_pod(s, namespace, pod)).images.contains(s.images[m]),
        forall|m: int| 0 <= m < without_orphans(without_pod(s, namespace, pod)).images.len()
            ==> s.images.contains(#[trigger] without_orphans(without_pod(s, namespace, pod)).images[m]),
{
    let p = outside_pod(namespace, pod);
    let u = without_pod(s, namespace, pod);
    let cs = u.containers;
    lemma_filter_subset(s.containers, p);
    assert(!referenced(cs, k)) by {
        if referenced(cs, k) {
            let i = choose|i: int| 0 <= i < cs.len() && (#[trigger] cs[i]).key == k;
            assert(p(cs[i]));
            assert(s.containers.contains(cs[i]));
            let j = choose|j: int| 0 <= j < s.containers.len() && s.containers[j] == cs[i];
            assert(s.containers[j].key == k);
        }
    }
    let q = is_used(cs);
    lemma_filter_subset(s.images, q);
    let t = s.images.filter(q);
    assert(!has_key(t, k)) by {
        if has_key(t, k) {
            let m = choose|m: int| 0 <= m < t.len() && (#[trigger] t[m]).key == k;
            assert(q(t[m]));
        }
    }
    assert forall|m: int| 0 <= m < s.images.len() && referenced(cs, (#[trigger] s.images[m]).key) implies t.contains(s.images[m]) by {
        assert(q(s.images[m]));
    }
}

pub open spec fn containers_view(cs: Seq<Container>) -> Seq<ContainerView> {
    cs.map_values(|c: Container| c@)
}

pub open spec fn images_view(is: Seq<Image>) -> Seq<ImageView> {
    is.map_values(|i: Image| i@)
}

/// The position of the image row that `c` references, if any.
fn find_image(images: &Vec<Image>, c: &Container) -> (r: Option<usize>)
    ensures
        match r {
            Some(k) => k < images@.len() && images@[k as int]@.key == c@.key,
            None => !has_key(images_view(images@), c@.key),
        },
{
    let mut k: usize = 0;
    while k < images.len()
        invariant
            k <= images@.len(),
            forall|j: int| 0 <= j < k ==> (#[trigger] images@[j])@.key != c@.key,
        decreases images@.len() - k,
    {
        if c.uses(&images[k]) {
            return Some(k);
        }
        k = k + 1;
    }
    assert forall|j: int| 0 <= j < images@.len() implies (#[trigger] images_view(images@)[j]).key != c@.key by {
        assert(images_view(images@)[j] == images@[j]@);
    }
    None
}

/// Inserts the row that `c` needs where none has its key.
fn ensure_image(images: &mut Vec<Image>, c: &Container)
    ensures
        images_view(final(images)@) == with_keys(images_view(old(images)@), seq![c@]),
{
    let ghost cs = seq![c@];
    let ghost x = images_view(images@);
    assert(cs.drop_last() =~= Seq::<ContainerView>::empty());
    assert(with_keys(x, cs.drop_last()) == x);
    assert(cs.last() == c@);
    match find_image(images, c) {
        Some(k) => {
            assert(images_view(images@)[k as int] == images@[k as int]@);
        },
        None => {
            images.push(c.fresh_image());
            assert(images_view(images@) =~= images_view(old(images)@).push(fresh_row(c@.key)));
        },
    }
}

/// Whether a container references the image row.
fn any_uses(cs: &Vec<Container>, image: &Image) -> (r: bool)
    ensures
        r == referenced(containers_view(cs@), image@.key),
{
    let mut k: usize = 0;
    while k < cs.len()
        invariant
            k <= cs@.len(),
            forall|j: int| 0 <= j < k ==> (#[trigger] cs@[j])@.key != image@.key,
        decreases cs@.len() - k,
    {
        if cs[k].uses(image) {
            assert(containers_view(cs@)[k as int] == cs@[k as int]@);
            return true;
        }
        k = k + 1;
    }
    assert forall|j: int| 0 <= j < cs@.len() implies (#[trigger] containers_view(cs@)[j]).key != image@.key by {
        assert(containers_view(cs@)[j] == cs@[j]@);
    }
    false
}

/// The containers outside a pod, or outside one slot of it, in order.
fn retain_containers(cs: &Vec<Container>, namespace: &String, pod: &String, container: Option<&String>) -> (r: Vec<Container>)
    ensures
        containers_view(r@) == containers_view(cs@).filter(match container {
            None => outside_pod(namespace@, pod@),
            Some(name) => outside_slot(ContainerView {
                namespace: namespace@,
                pod: pod@,
                container: name@,
                key: arbitrary(),
            }),
        }),
{
    let ghost p = match container {
        None => outside_pod(namespace@, pod@),
        Some(name) => outside_slot(ContainerView {
            namespace: namespace@,
            pod: pod@,
            container: name@,
            key: arbitrary(),
        }),
    };
    let ghost sv = containers_view(cs@);
    let mut r: Vec<Container> = Vec::new();
    let mut i: usize = 0;
    while i < cs.len()
        invariant
            i <= cs@.len(),
            sv == containers_view(cs@),
            p == (match container {
                None => outside_pod(namespace@, pod@),
                Some(name) => outside_slot(ContainerView {
                    namespace: namespace@,
                    pod: pod@,
                    container: name@,
                    key: arbitrary(),
                }),
            }),
            containers_view(r@) == sv.take(i as int).filter(p),
        decreases cs@.len() - i,
    {
        let c = &cs[i];
        let same_pod = c.namespace == *namespace && c.pod == *pod;
        let drop = match container {
            None => same_pod,
            Some(name) => same_pod && c.container == *name,
        };
        proof {
            lemma_filter_step(sv, p, i as int);
            assert(sv[i as int] == c@);
            assert(drop == !p(c@));
        }
        let ghost before = r@;
        if !drop {
            r.push(c.duplicate());
            assert(containers_view(r@) =~= containers_view(before).push(c@));
        }
        i = i + 1;
    }
    assert(sv.take(i as int) =~= sv);
    r
}

/// Why a container set was refused.
#[derive(Clone, Copy, Debug, PartialEq, Eq, Structural)]
pub enum StoreError {
    /// A container belongs to another pod.
    ForeignContainer,
    /// Two containers share a name.
    DuplicateContainer,
}

/// The tables of observed containers and their image rows.
pub struct Database {
    containers: Vec<Container>,
    images: Vec<Image>,
}

impl View for Database {
    type V = StoreView;

    closed spec fn view(&self) -> StoreView {
        StoreView { containers: containers_view(self.containers@), images: images_view(self.images@) }
    }
}

impl Database {
    /// Empty tables.
    pub fn new() -> (r: Database)
        ensures
            r@.containers.len() == 0,
            r@.images.len() == 0,
            store_wf(r@),
    {
        Database { containers: Vec::new(), images: Vec::new() }
    }

    /// Tables holding the given image rows and no container, as at a
    /// restart; `None` where two rows share a key.
    pub fn with_images(images: Vec<Image>) -> (r: Option<Database>)
        ensures
            r is Some <==> distinct_keys(images_view(images@)),
            r matches Some(d) ==> store_wf(d@) && d@ == (StoreView { containers: Seq::empty(), images: images_view(images@) }),
    {
        let ghost v = images_view(images@);
        let mut a: usize = 0;
        while a < images.len()
            invariant
                v == images_view(images@),
                a <= images@.len(),
                forall|x: int, y: int| 0 <= x < a && x < y < v.len() ==> (#[trigger] v[x]).key != (#[trigger] v[y]).key,
            decreases images@.len() - a,
        {
            let mut b: usize = a + 1;
            while b < images.len()
                invariant
                    v == images_view(images@),
                    a < images@.len(),
                    a + 1 <= b <= images@.len(),
                    forall|x: int, y: int| 0 <= x < a && x < y < v.len() ==> (#[trigger] v[x]).key != (#[trigger] v[y]).key,
                    forall|y: int| a < y < b ==> v[a as int].key != (#[trigger] v[y]).key,
                decreases images@.len() - b,
            {
                assert(v[a as int] == images@[a as int]@ && v[b as int] == images@[b as int]@);
                if images[a].same_key(&images[b]) {
                    return None;
                }
                b = b + 1;
            }
            a = a + 1;
        }
        let d = Database { containers: Vec::new(), images };
        assert(d@.containers =~= Seq::<ContainerView>::empty());
        Some(d)
    }

    /// All container rows.
    pub fn list_containers(&self) -> (r: Vec<Container>)
        ensures
            containers_view(r@) == self@.containers,
    {
        let mut r: Vec<Container> = Vec::new();
        let mut i: usize = 0;
        while i < self.containers.len()
            invariant
                i <= self.containers@.len(),
                r@.len() == i,
                forall|j: int| 0 <= j < i ==> (#[trigger] r@[j])@ == self.containers@[j]@,
            decreases self.containers@.len() - i,
        {
            r.push(self.containers[i].duplicate());
            i = i + 1;
        }
        assert(containers_view(r@) =~= containers_view(self.containers@));
        r
    }

    /// All image rows: the work list of an update pass.
    pub fn list_image(&self) -> (r: Vec<Image>)
        ensures
            images_view(r@) == self@.images,
    {
        let mut r: Vec<Image> = Vec::new();
        let mut i: usize = 0;
        while i < self.images.len()
            invariant
                i <= self.images@.len(),
                r@.len() == i,
                forall|j: int| 0 <= j < i ==> (#[trigger] r@[j])@ == self.images@[j]@,
            decreases self.images@.len() - i,
        {
            r.push(self.images[i].duplicate());
            i = i + 1;
        }
        assert(images_view(r@) =~= images_view(self.images@));
        r
    }

    /// Each container joined with its image row, in container order.
    pub fn list_image_with_container(&self) -> (r: Vec<ImageWithContainer>)
        requires
            store_wf(self@),
        ensures
            r@.len() == self@.containers.len(),
            forall|i: int| 0 <= i < r@.len() ==> (#[trigger] r@[i])@ == joined_rows(self@)[i],
    {
        let ghost s = self@;
        let mut r: Vec<ImageWithContainer> = Vec::new();
        let mut i: usize = 0;
        while i < self.containers.len()
            invariant
                s == self@,
                store_wf(s),
                i <= self.containers@.len(),
                r@.len() == i,
                forall|j: int| 0 <= j < i ==> (#[trigger] r@[j])@ == joined_rows(s)[j],
            decreases self.containers@.len() - i,
        {
            let c = &self.containers[i];
            assert(s.containers[i as int] == c@);
            assert(has_key(s.images, s.containers[i as int].key));
            match find_image(&self.images, c) {
                Some(k) => {
                    let row = ImageWithContainer::join(c, &self.images[k]);
                    proof {
                        let want = choose|m: int| 0 <= m < s.images.len() && (#[trigger] s.images[m]).key == c@.key;
                        assert(s.images[k as int] == self.images@[k as int]@);
                        if want != k as int {
                            if want < k as int {
                                assert(s.images[want].key != s.images[k as int].key);
                            } else {
                                assert(s.images[k as int].key != s.images[want].key);
                            }
                        }
                    }
                    r.push(row);
                },
                None => {
                    proof {
                        let m = choose|m: int| 0 <= m < s.images.len() && (#[trigger] s.images[m]).key == c@.key;
                        assert(false);
                    }
                },
            }
            i = i + 1;
        }
        r
    }

    /// Deletes every container row; the image rows stay until the next
    /// orphan cleanup.
    pub fn truncate_containers(&mut self)
        requires
            store_wf(old(self)@),
        ensures
            store_wf(final(self)@),
            final(self)@ == (StoreView { containers: Seq::empty(), images: old(self)@.images }),
    {
        self.containers = Vec::new();
        assert(self@.containers =~= Seq::<ContainerView>::empty());
    }

    /// Deletes every image row that no container references, and no other.
    pub fn delete_unused_images(&mut self)
        requires
            store_wf(old(self)@),
        ensures
            store_wf(final(self)@),
            final(self)@ == without_orphans(old(self)@),
    {
        let ghost s = self@;
        let ghost p = is_used(s.containers);
        let mut kept: Vec<Image> = Vec::new();
        let mut i: usize = 0;
        while i < self.images.len()
            invariant
                s == self@,
                p == is_used(s.containers),
                i <= self.images@.len(),
                images_view(kept@) == s.images.take(i as int).filter(p),
            decreases self.images@.len() - i,
        {
            let used = any_uses(&self.containers, &self.images[i]);
            proof {
                lemma_filter_step(s.images, p, i as int);
                assert(s.images[i as int] == self.images@[i as int]@);
            }
            let ghost before = kept@;
            if used {
                kept.push(self.images[i].duplicate());
                assert(images_view(kept@) =~= images_view(before).push(self.images@[i as int]@));
            }
            i = i + 1;
        }
        assert(s.images.take(i as int) =~= s.images);
        self.images = kept;
        proof {
            lemma_without_orphans_wf(s);
        }
    }

    /// Deletes the container rows of a pod; image rows are left to orphan
    /// cleanup.
    pub fn delete_pod(&mut self, namespace: &String, pod: &String)
        requires
            store_wf(old(self)@),
        ensures
            store_wf(final(self)@),
            final(self)@ == without_pod(old(self)@, namespace@, pod@),
    {
        let ghost s = self@;
        self.containers = retain_containers(&self.containers, namespace, pod, None);
        proof {
            lemma_fewer_containers_wf(s, outside_pod(namespace@, pod@));
        }
    }

    /// Deletes the row of the container in the slot of `container`.
    pub fn delete_container(&mut self, container: &Container)
        requires
            store_wf(old(self)@),
        ensures
            store_wf(final(self)@),
            final(self)@ == without_slot(old(self)@, container@),
    {
        let ghost s = self@;
        self.containers = retain_containers(&self.containers, &container.namespace, &container.pod, Some(&container.container));
        proof {
            let x = ContainerView {
                namespace: container@.namespace,
                pod: container@.pod,
                container: container@.container,
                key: arbitrary(),
            };
            assert(outside_slot(x) == outside_slot(container@));
            lemma_fewer_containers_wf(s, outside_slot(container@));
        }
    }

    /// Replaces the container set of a pod by `containers`, and inserts the
    /// image row of each where none has its key, all at once. The set is
    /// refused, leaving the tables as they were, where a container belongs
    /// to another pod or two share a name.
    pub fn replace_pod(&mut self, namespace: &String, pod: &String, containers: Vec<Container>) -> (r: Result<(), StoreError>)
        requires
            store_wf(old(self)@),
        ensures
            store_wf(final(self)@),
            r == Err::<(), StoreError>(StoreError::ForeignContainer) <==> !all_in_pod(namespace@, pod@, containers_view(containers@)),
            r == Err::<(), StoreError>(StoreError::DuplicateContainer) <==> all_in_pod(namespace@, pod@, containers_view(containers@))
                && !distinct_slots(containers_view(containers@)),
            r is Err ==> final(self)@ == old(self)@,
            r is Ok ==> final(self)@ == with_pod(old(self)@, namespace@, pod@, containers_view(containers@)),
    {
        let ghost s = self@;
        let ghost new = containers_view(containers@);
        let mut i: usize = 0;
        while i < containers.len()
            invariant
                self@ == s,
                store_wf(s),
                new == containers_view(containers@),
                i <= containers@.len(),
                forall|j: int| 0 <= j < i ==> (#[trigger] new[j]).namespace == namespace@ && new[j].pod == pod@,
            decreases containers@.len() - i,
        {
            assert(new[i as int] == containers@[i as int]@);
            if !(containers[i].namespace == *namespace && containers[i].pod == *pod) {
                return Err(StoreError::ForeignContainer);
            }
            i = i + 1;
        }
        let mut a: usize = 0;
        while a < containers.len()
            invariant
                self@ == s,
                store_wf(s),
                all_in_pod(namespace@, pod@, new),
                new == containers_view(containers@),
                a <= containers@.len(),
                forall|x: int, y: int| 0 <= x < a && x < y < new.len() ==> slot(#[trigger] new[x]) != slot(#[trigger] new[y]),
            decreases containers@.len() - a,
        {
            let mut b: usize = a + 1;
            while b < containers.len()
                invariant
                    self@ == s,
                    store_wf(s),
                    all_in_pod(namespace@, pod@, new),
                    new == containers_view(containers@),
                    a < containers@.len(),
                    a + 1 <= b <= containers@.len(),
                    forall|x: int, y: int| 0 <= x < a && x < y < new.len() ==> slot(#[trigger] new[x]) != slot(#[trigger] new[y]),
                    forall|y: int| a < y < b ==> slot(new[a as int]) != slot(#[trigger] new[y]),
                decreases containers@.len() - b,
            {
                assert(new[a as int] == containers@[a as int]@ && new[b as int] == containers@[b as int]@);
                if containers[a].namespace == containers[b].namespace && containers[a].pod == containers[b].pod
                    && containers[a].container == containers[b].container {
                    return Err(StoreError::DuplicateContainer);
                }
                b = b + 1;
            }
            a = a + 1;
        }
        let mut kept = retain_containers(&self.containers, namespace, pod, None);
        let ghost filtered = containers_view(kept@);
        let mut images = self.list_image();
        let mut k: usize = 0;
        while k < containers.len()
            invariant
                s == self@,
                store_wf(s),
                new == containers_view(containers@),
                k <= containers@.len(),
                images_view(images@) == with_keys(s.images, new.take(k as int)),
                containers_view(kept@) == filtered + new.take(k as int),
            decreases containers@.len() - k,
        {
            let ghost before = kept@;
            ensure_image(&mut images, &containers[k]);
            kept.push(containers[k].duplicate());
            proof {
                let t = new.take(k as int + 1);
                assert(t.drop_last() =~= new.take(k as int));
                assert(t.last() == containers@[k as int]@);
                lemma_with_keys_step(s.images, t);
                assert(containers_view(kept@) =~= containers_view(before).push(containers@[k as int]@));
                assert(filtered + t =~= (filtered + new.take(k as int)).push(containers@[k as int]@));
            }
            k = k + 1;
        }
        assert(new.take(k as int) =~= new);
        self.containers = kept;
        self.images = images;
        proof {
            lemma_with_pod_wf(s, namespace@, pod@, new);
        }
        Ok(())
    }

    /// Replaces the row in the slot of `container` by it, and inserts its
    /// image row where none has its key.
    pub fn replace_container(&mut self, container: &Container)
        requires
            store_wf(old(self)@),
        ensures
            store_wf(final(self)@),
            final(self)@ == with_container(old(self)@, container@),
    {
        let ghost s = self@;
        let mut kept = retain_containers(&self.containers, &container.namespace, &container.pod, Some(&container.container));
        let ghost filtered = containers_view(kept@);
        proof {
            let x = ContainerView {
                namespace: container@.namespace,
                pod: container@.pod,
                container: container@.container,
                key: arbitrary(),
            };
            assert(outside_slot(x) == outside_slot(container@));
        }
        kept.push(container.duplicate());
        assert(containers_view(kept@) =~= filtered.push(container@));
        let mut images = self.list_image();
        ensure_image(&mut images, container);
        self.containers = kept;
        self.images = images;
        proof {
            lemma_with_container_wf(s, container@);
        }
    }

    /// Writes the computed fields of `image` into the row with its key,
    /// leaving every other row, and the key, as they were; nothing changes
    /// where no row has the key.
    pub fn update_image_details(&mut self, image: &Image)
        requires
            store_wf(old(self)@),
        ensures
            store_wf(final(self)@),
            final(self)@.containers == old(self)@.containers,
            final(self)@.images == with_details(old(self)@.images, image@),
    {
        let ghost s = self@;
        let ghost target = with_details(s.images, image@);
        let mut i: usize = 0;
        while i < self.images.len()
            invariant
                s.containers == self@.containers,
                target == with_details(s.images, image@),
                store_wf(s),
                i <= self.images@.len(),
                self.images@.len() == s.images.len(),
                forall|j: int| 0 <= j < i ==> (#[trigger] self.images@[j])@ == target[j],
                forall|j: int| i <= j < s.images.len() ==> (#[trigger] self.images@[j])@ == s.images[j],
            decreases self.images@.len() - i,
        {
            if self.images[i].same_key(image) {
                let mut row = self.images[i].duplicate();
                row.resolved_image_id = crate::records::clone_opt(&image.resolved_image_id);
                row.latest_image_id = crate::records::clone_opt(&image.latest_image_id);
                row.version = crate::records::clone_opt(&image.version);
                row.latest_version = crate::records::clone_opt(&image.latest_version);
                row.last_checked = image.last_checked;
                self.images.set(i, row);
            }
            proof {
                assert(target.len() == s.images.len());
                assert(self.images@[i as int]@ == target[i as int]);
            }
            i = i + 1;
        }
        proof {
            assert(self@.images =~= target);
            assert(target.len() == s.images.len());
            assert forall|a: int, b: int| 0 <= a < b < target.len() implies (#[trigger] target[a]).key != (#[trigger] target[b]).key by {
                assert(s.images[a].key != s.images[b].key);
            }
            assert forall|c: int| 0 <= c < s.containers.len() implies has_key(target, (#[trigger] s.containers[c]).key) by {
                let m = choose|m: int| 0 <= m < s.images.len() && (#[trigger] s.images[m]).key == s.containers[c].key;
                assert(target[m].key == s.images[m].key);
            }
        }
    }
}

} // verus!
