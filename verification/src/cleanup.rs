//! What is kept when old images and deployments are removed.
use vstd::prelude::*;
use vstd::string::StringExecFns;

use crate::text::{begins_with, decimal, decimal_injective, push_decimal, str_eq};

verus! {

/// Below this name stand the refs that keep the bases of derived commits.
pub const BASE_IMAGE_PREFIX: &'static str = "ostree/container/baseimage/bootc";

/// Set on a commit that is derived from another one, which it names.
pub const BOOTC_DERIVED_KEY: &'static str = "bootc.derived";

/// The images that one deployment uses, by name and without their transport: those bound to it, and
/// the one that it was made from, where it was made from an image.
#[derive(Debug)]
pub struct DeploymentImages {
    pub bound: Vec<String>,
    pub host_image: Option<String>,
}

/// The strings' characters, in order.
pub open spec fn names(v: Seq<String>) -> Seq<Seq<char>> {
    v.map_values(|s: String| s@)
}

impl DeploymentImages {
    /// Whether the deployment uses the image.
    pub open spec fn uses(self, image: Seq<char>) -> bool {
        names(self.bound@).contains(image) || (self.host_image is Some && self.host_image->0@
            == image)
    }
}

/// Whether one of the deployments uses the image.
pub open spec fn in_use(deployments: Seq<DeploymentImages>, image: Seq<char>) -> bool {
    exists|i: int| 0 <= i < deployments.len() && (#[trigger] deployments[i]).uses(image)
}

fn has_name(v: &Vec<String>, name: &str) -> (r: bool)
    ensures
        r == names(v@).contains(name@),
{
    let mut i: usize = 0;
    while i < v.len()
        invariant
            i <= v.len(),
            forall|k: int| 0 <= k < i ==> v@[k]@ != name@,
        decreases v.len() - i,
    {
        if str_eq(v[i].as_str(), name) {
            assert(names(v@)[i as int] == name@);
            return true;
        }
        i = i + 1;
    }
    proof {
        if names(v@).contains(name@) {
            let k = choose|k: int| 0 <= k < v@.len() && names(v@)[k] == name@;
            assert(v@[k]@ == name@);
        }
    }
    false
}

/// Adds a name, unless it is there.
fn add_name(v: &mut Vec<String>, name: &String)
    requires
        names(old(v)@).no_duplicates(),
    ensures
        names(final(v)@).no_duplicates(),
        forall|n: Seq<char>|
            #[trigger] names(final(v)@).contains(n) <==> names(old(v)@).contains(n) || n == name@,
{
    if !has_name(v, name.as_str()) {
        let ghost before = names(v@);
        v.push(name.clone());
        assert(names(v@) == before.push(name@));
        assert forall|n: Seq<char>| #[trigger]
            names(v@).contains(n) <==> before.contains(n) || n == name@ by {
            if before.contains(n) {
                let k = choose|k: int| 0 <= k < before.len() && before[k] == n;
                assert(names(v@)[k] == n);
            }
            assert(names(v@)[before.len() as int] == name@);
        }
    }
}

/// The images that stay in the image store: each image that a deployment uses, once.
pub fn prune_container_store(deployments: &Vec<DeploymentImages>) -> (r: Vec<String>)
    ensures
        names(r@).no_duplicates(),
        forall|image: Seq<char>| #[trigger]
            names(r@).contains(image) <==> in_use(deployments@, image),
        ({
            let kept = r@.map_values(|s: String| s@);
            &&& kept.no_duplicates()
            &&& forall|i: int|
                0 <= i < deployments@.len() && (#[trigger] deployments@[i]).host_image is Some
                    ==> kept.contains(deployments@[i].host_image->0@)
            &&& forall|i: int, k: int|
                0 <= i < deployments@.len() && 0 <= k < deployments@[i].bound@.len()
                    ==> kept.contains((#[trigger] deployments@[i].bound@[k])@)
            &&& forall|image: Seq<char>| #[trigger]
                kept.contains(image) ==> exists|i: int|
                    0 <= i < deployments@.len() && (((#[trigger] deployments@[i]).host_image is Some
                        && deployments@[i].host_image->0@ == image)
                        || deployments@[i].bound@.map_values(|s: String| s@).contains(image))
        }),
{
    let mut roots: Vec<String> = Vec::new();
    let mut i: usize = 0;
    while i < deployments.len()
        invariant
            i <= deployments.len(),
            names(roots@).no_duplicates(),
            forall|image: Seq<char>| #[trigger]
                names(roots@).contains(image) <==> in_use(deployments@.take(i as int), image),
        decreases deployments.len() - i,
    {
        let d = &deployments[i];
        let ghost before = names(roots@);
        let mut k: usize = 0;
        while k < d.bound.len()
            invariant
                k <= d.bound.len(),
                names(roots@).no_duplicates(),
                forall|image: Seq<char>| #[trigger]
                    names(roots@).contains(image) <==> before.contains(image) || names(
                        d.bound@.take(k as int),
                    ).contains(image),
            decreases d.bound.len() - k,
        {
            let ghost seen = names(d.bound@.take(k as int));
            add_name(&mut roots, &d.bound[k]);
            let ghost now = names(d.bound@.take(k + 1));
            assert(now == seen.push(d.bound@[k as int]@));
            assert forall|image: Seq<char>| #[trigger]
                names(roots@).contains(image) <==> before.contains(image) || now.contains(
                    image,
                ) by {
                if seen.contains(image) {
                    let m = choose|m: int| 0 <= m < seen.len() && seen[m] == image;
                    assert(now[m] == image);
                }
                assert(now[seen.len() as int] == d.bound@[k as int]@);
            }
            k = k + 1;
        }
        assert(d.bound@.take(k as int) == d.bound@);
        if let Some(host) = &d.host_image {
            add_name(&mut roots, host);
        }
        let ghost earlier = deployments@.take(i as int);
        let ghost now = deployments@.take(i + 1);
        assert forall|image: Seq<char>| #[trigger]
            names(roots@).contains(image) <==> in_use(now, image) by {
            assert(before.contains(image) <==> in_use(earlier, image));
            assert(now[i as int] == *d);
            assert(forall|m: int| 0 <= m < i ==> #[trigger] now[m] == earlier[m]);
            if in_use(earlier, image) {
                let m = choose|m: int|
                    0 <= m < earlier.len() && (#[trigger] earlier[m]).uses(image);
                assert(now[m].uses(image));
            }
            if in_use(now, image) {
                let m = choose|m: int| 0 <= m < now.len() && (#[trigger] now[m]).uses(image);
                if m < i {
                    assert(earlier[m].uses(image));
                }
            }
        }
        i = i + 1;
    }
    assert(deployments@.take(i as int) == deployments@);
    proof {
        images_in_use_are_kept(deployments@, roots@);
    }
    roots
}

/// One change of a ref: it is set to the commit, or removed.
#[derive(Debug)]
pub struct RefUpdate {
    pub refspec: String,
    pub commit: Option<String>,
}

#[verifier::ext_equal]
pub struct RefUpdateView {
    pub refspec: Seq<char>,
    pub commit: Option<Seq<char>>,
}

/// The text in an option.
pub open spec fn opt_text(s: Option<String>) -> Option<Seq<char>> {
    match s {
        Some(t) => Some(t@),
        None => None,
    }
}

impl View for RefUpdate {
    type V = RefUpdateView;

    open spec fn view(&self) -> RefUpdateView {
        RefUpdateView { refspec: self.refspec@, commit: opt_text(self.commit) }
    }
}

/// The ref that keeps the base of the deployment with index `i`.
pub open spec fn base_ref(i: nat) -> Seq<char> {
    BASE_IMAGE_PREFIX@ + "/"@ + decimal(i)
}

/// The changes that remove the given refs.
pub open spec fn removals(existing: Seq<String>) -> Seq<RefUpdateView> {
    existing.map_values(|r: String| RefUpdateView { refspec: r@, commit: None })
}

/// The changes that keep the base of each deployment that has one.
pub open spec fn base_refs(bases: Seq<Option<String>>) -> Seq<RefUpdateView>
    decreases bases.len(),
{
    if bases.len() == 0 {
        seq![]
    } else {
        let before = base_refs(bases.drop_last());
        match bases.last() {
            Some(base) => before.push(
                RefUpdateView {
                    refspec: base_ref((bases.len() - 1) as nat),
                    commit: Some(base@),
                },
            ),
            None => before,
        }
    }
}

/// The views of the changes, in order.
pub open spec fn update_views(v: Seq<RefUpdate>) -> Seq<RefUpdateView> {
    v.map_values(|u: RefUpdate| u@)
}

/// The changes that renew the base refs: those that exist are removed, then one is set for each
/// deployment whose commit is derived. `bases` holds the base of each deployment's commit, in the
/// order of the deployments.
pub fn base_ref_updates(existing: &Vec<String>, bases: &Vec<Option<String>>) -> (r: Vec<RefUpdate>)
    ensures
        update_views(r@) == removals(existing@) + base_refs(bases@),
{
    let mut updates: Vec<RefUpdate> = Vec::new();
    let mut i: usize = 0;
    assert(update_views(updates@) == removals(existing@.take(0)));
    while i < existing.len()
        invariant
            i <= existing.len(),
            update_views(updates@) == removals(existing@.take(i as int)),
        decreases existing.len() - i,
    {
        let update = RefUpdate { refspec: existing[i].clone(), commit: None };
        let ghost before = update_views(updates@);
        updates.push(update);
        assert(update_views(updates@) == before.push(update@));
        assert(removals(existing@.take(i + 1)) == before.push(update@));
        i = i + 1;
    }
    assert(existing@.take(i as int) == existing@);
    let ghost removed = removals(existing@);
    let mut k: usize = 0;
    assert(removed + base_refs(bases@.take(0)) == removed);
    while k < bases.len()
        invariant
            k <= bases.len(),
            update_views(updates@) == removed + base_refs(bases@.take(k as int)),
        decreases bases.len() - k,
    {
        let ghost before = update_views(updates@);
        assert(bases@.take(k + 1).drop_last() == bases@.take(k as int));
        if let Some(base) = &bases[k] {
            let mut refspec = BASE_IMAGE_PREFIX.to_owned().concat("/");
            push_decimal(&mut refspec, k as u64);
            let update = RefUpdate { refspec, commit: Some(base.clone()) };
            assert(update@ == RefUpdateView { refspec: base_ref(k as nat), commit: Some(base@) });
            updates.push(update);
            assert(update_views(updates@) == before.push(update@));
            assert(removed + base_refs(bases@.take(k as int)).push(update@) == before.push(update@));
        }
        k = k + 1;
    }
    assert(bases@.take(k as int) == bases@);
    updates
}

/// What was pruned from the repository.
#[derive(Debug, Clone, Copy)]
pub struct Pruned {
    pub n_images: u32,
    pub n_layers: u32,
    pub n_objects_pruned: u32,
    pub objsize: u64,
}

impl Pruned {
    /// Whether nothing was pruned.
    pub open spec fn nothing(self) -> bool {
        self.n_images == 0 && self.n_layers == 0 && self.n_objects_pruned == 0
    }

    /// Whether nothing was pruned.
    pub fn is_empty(&self) -> (r: bool)
        ensures
            r == self.nothing(),
            r <==> self.n_images == 0 && self.n_layers == 0 && self.n_objects_pruned == 0,
    {
        self.n_images == 0 && self.n_layers == 0 && self.n_objects_pruned == 0
    }
}

/// What is said of what was pruned.
pub open spec fn pruned_text(pruned: Pruned, size: Seq<char>) -> Seq<char> {
    "Pruned images: "@ + decimal(pruned.n_images as nat) + " (layers: "@ + decimal(
        pruned.n_layers as nat,
    ) + ", objsize: "@ + size + ")"@
}

/// The message about what was pruned, the size of which is written as `size`; nothing if nothing was.
pub fn pruned_message(pruned: &Pruned, size: &str) -> (r: Option<String>)
    ensures
        r is Some <==> !pruned.nothing(),
        r is Some ==> r->0@ == pruned_text(*pruned, size@),
        r is None <==> pruned.n_images == 0 && pruned.n_layers == 0 && pruned.n_objects_pruned == 0,
        r is Some ==> r->0@ == "Pruned images: "@ + decimal(pruned.n_images as nat) + " (layers: "@
            + decimal(pruned.n_layers as nat) + ", objsize: "@ + size@ + ")"@,
{
    if pruned.is_empty() {
        return None;
    }
    let mut text = "Pruned images: ".to_owned();
    push_decimal(&mut text, pruned.n_images as u64);
    text.append(" (layers: ");
    push_decimal(&mut text, pruned.n_layers as u64);
    text.append(", objsize: ");
    text.append(size);
    text.append(")");
    Some(text)
}

// ---------------------------------------------------------------------------
// Laws

/// Where the names that are kept are those of the images in use, each once: the image that a deployment
/// was made from is kept, whatever else that deployment uses; so is each image bound to a deployment;
/// nothing else is; and no name is kept twice.
pub proof fn images_in_use_are_kept(deployments: Seq<DeploymentImages>, names_kept: Seq<String>)
    requires
        names(names_kept).no_duplicates(),
        forall|image: Seq<char>| #[trigger]
            names(names_kept).contains(image) <==> in_use(deployments, image),
    ensures
        ({
            let kept = names_kept.map_values(|s: String| s@);
            &&& kept.no_duplicates()
            &&& forall|i: int|
                0 <= i < deployments.len() && (#[trigger] deployments[i]).host_image is Some
                    ==> kept.contains(deployments[i].host_image->0@)
            &&& forall|i: int, k: int|
                0 <= i < deployments.len() && 0 <= k < deployments[i].bound@.len()
                    ==> kept.contains((#[trigger] deployments[i].bound@[k])@)
            &&& forall|image: Seq<char>| #[trigger]
                kept.contains(image) ==> exists|i: int|
                    0 <= i < deployments.len() && (((#[trigger] deployments[i]).host_image is Some
                        && deployments[i].host_image->0@ == image)
                        || deployments[i].bound@.map_values(|s: String| s@).contains(image))
        }),
{
    let kept = names_kept.map_values(|s: String| s@);
    assert(kept == names(names_kept));
    assert forall|i: int|
        0 <= i < deployments.len() && (#[trigger] deployments[i]).host_image is Some implies
        kept.contains(deployments[i].host_image->0@) by {
        let image = deployments[i].host_image->0@;
        assert(deployments[i].uses(image));
        assert(names(names_kept).contains(image));
    }
    assert forall|i: int, k: int|
        0 <= i < deployments.len() && 0 <= k < deployments[i].bound@.len() implies kept.contains(
        (#[trigger] deployments[i].bound@[k])@,
    ) by {
        let d = deployments[i];
        let image = d.bound@[k]@;
        assert(names(d.bound@)[k] == image);
        assert(d.uses(image));
        assert(names(names_kept).contains(image));
    }
    assert forall|image: Seq<char>| #[trigger] kept.contains(image) implies exists|i: int|
        0 <= i < deployments.len() && (((#[trigger] deployments[i]).host_image is Some
            && deployments[i].host_image->0@ == image) || deployments[i].bound@.map_values(
            |s: String| s@,
        ).contains(image)) by {
        assert(names(names_kept).contains(image));
        let i = choose|i: int| 0 <= i < deployments.len() && (#[trigger] deployments[i]).uses(image);
        assert(names(deployments[i].bound@) == deployments[i].bound@.map_values(|s: String| s@));
    }
}

/// An image is in use if it is bound to a deployment or is the one that a deployment was made from. A
/// deployment more can only add to what is in use, and adds just what it uses itself.
pub proof fn use_adds_up(deployments: Seq<DeploymentImages>, more: DeploymentImages, image: Seq<char>)
    ensures
        !in_use(Seq::empty(), image),
        in_use(deployments.push(more), image) <==> {
            ||| in_use(deployments, image)
            ||| more.host_image is Some && more.host_image->0@ == image
            ||| exists|k: int| 0 <= k < more.bound@.len() && (#[trigger] more.bound@[k])@ == image
        },
{
    let all = deployments.push(more);
    assert(all[deployments.len() as int] == more);
    if in_use(deployments, image) {
        let i = choose|i: int| 0 <= i < deployments.len() && (#[trigger] deployments[i]).uses(image);
        assert(all[i].uses(image));
    }
    if exists|k: int| 0 <= k < more.bound@.len() && (#[trigger] more.bound@[k])@ == image {
        let k = choose|k: int| 0 <= k < more.bound@.len() && (#[trigger] more.bound@[k])@ == image;
        assert(names(more.bound@)[k] == image);
        assert(all[deployments.len() as int].uses(image));
    }
    if more.host_image is Some && more.host_image->0@ == image {
        assert(all[deployments.len() as int].uses(image));
    }
    if in_use(all, image) {
        let i = choose|i: int| 0 <= i < all.len() && (#[trigger] all[i]).uses(image);
        if i < deployments.len() {
            assert(deployments[i].uses(image));
        } else if names(more.bound@).contains(image) {
            let k = choose|k: int| 0 <= k < more.bound@.len() && names(more.bound@)[k] == image;
            assert(more.bound@[k]@ == image);
        }
    }
}

/// The base ref of a deployment ends in its index, in decimal.
pub proof fn base_ref_tells_index(i: nat)
    ensures
        base_ref(i) == "ostree/container/baseimage/bootc"@ + "/"@ + decimal(i),
{
}

proof fn base_refs_exact(bases: Seq<Option<String>>)
    ensures
        base_refs(bases).no_duplicates(),
        forall|i: int|
            0 <= i < bases.len() && (#[trigger] bases[i]) is Some ==> base_refs(bases).contains(
                RefUpdateView { refspec: base_ref(i as nat), commit: Some(bases[i]->0@) },
            ),
        forall|u: RefUpdateView| #[trigger]
            base_refs(bases).contains(u) ==> exists|i: int|
                0 <= i < bases.len() && (#[trigger] bases[i]) is Some && u.refspec == base_ref(
                    i as nat,
                ) && u.commit == Some(bases[i]->0@),
    decreases bases.len(),
{
    if bases.len() > 0 {
        let rest = bases.drop_last();
        let n = rest.len() as int;
        let before = base_refs(rest);
        let set = base_refs(bases);
        base_refs_exact(rest);
        if bases[n] is Some {
            let last = RefUpdateView { refspec: base_ref(n as nat), commit: Some(bases[n]->0@) };
            assert(set == before.push(last));
            assert(set[before.len() as int] == last);
            assert(!before.contains(last)) by {
                if before.contains(last) {
                    let i = choose|i: int|
                        0 <= i < rest.len() && (#[trigger] rest[i]) is Some && last.refspec
                            == base_ref(i as nat) && last.commit == Some(rest[i]->0@);
                    base_refs_are_distinct(i as nat, n as nat);
                }
            }
            assert(set.no_duplicates()) by {
                assert forall|j: int, k: int|
                    0 <= j < set.len() && 0 <= k < set.len() && j != k implies set[j] != set[k] by {
                    if j < before.len() {
                        assert(before.contains(before[j]));
                    }
                    if k < before.len() {
                        assert(before.contains(before[k]));
                    }
                }
            }
        }
        assert forall|i: int| 0 <= i < bases.len() && (#[trigger] bases[i]) is Some implies
            set.contains(
            RefUpdateView { refspec: base_ref(i as nat), commit: Some(bases[i]->0@) },
        ) by {
            let u = RefUpdateView { refspec: base_ref(i as nat), commit: Some(bases[i]->0@) };
            if i < n {
                assert(rest[i] == bases[i]);
                assert(before.contains(u));
                let j = choose|j: int| 0 <= j < before.len() && before[j] == u;
                assert(set[j] == u);
            }
        }
        assert forall|u: RefUpdateView| #[trigger] set.contains(u) implies exists|i: int|
            0 <= i < bases.len() && (#[trigger] bases[i]) is Some && u.refspec == base_ref(i as nat)
                && u.commit == Some(bases[i]->0@) by {
            let j = choose|j: int| 0 <= j < set.len() && set[j] == u;
            if j < before.len() {
                assert(before[j] == u);
                assert(before.contains(u));
                let i = choose|i: int|
                    0 <= i < rest.len() && (#[trigger] rest[i]) is Some && u.refspec == base_ref(
                        i as nat,
                    ) && u.commit == Some(rest[i]->0@);
                assert(bases[i] == rest[i]);
            } else {
                assert(bases[n] is Some);
            }
        }
    }
}

/// The changes of refs: first each ref that exists is removed, in order; then each deployment that has
/// a base gets a ref for it, which ends in the deployment's index, once; and there is no other change.
pub proof fn ref_changes(existing: Seq<String>, bases: Seq<Option<String>>)
    ensures
        ({
            let changes = removals(existing) + base_refs(bases);
            let n = existing.len() as int;
            let set = changes.skip(n);
            &&& changes.len() >= n
            &&& forall|k: int|
                0 <= k < n ==> (#[trigger] changes[k]).refspec == existing[k]@ && changes[k].commit
                    is None
            &&& set.no_duplicates()
            &&& forall|i: int|
                0 <= i < bases.len() && (#[trigger] bases[i]) is Some ==> set.contains(
                    RefUpdateView {
                        refspec: "ostree/container/baseimage/bootc"@ + "/"@ + decimal(i as nat),
                        commit: Some(bases[i]->0@),
                    },
                )
            &&& forall|u: RefUpdateView| #[trigger]
                set.contains(u) ==> exists|i: int|
                    0 <= i < bases.len() && (#[trigger] bases[i]) is Some && u.refspec
                        == "ostree/container/baseimage/bootc"@ + "/"@ + decimal(i as nat)
                        && u.commit == Some(bases[i]->0@)
        }),
{
    base_refs_exact(bases);
    let changes = removals(existing) + base_refs(bases);
    let n = existing.len() as int;
    assert(changes.skip(n) == base_refs(bases));
    assert forall|k: int| 0 <= k < n implies (#[trigger] changes[k]).refspec == existing[k]@
        && changes[k].commit is None by {
        assert(changes[k] == removals(existing)[k]);
    }
}

/// A change as it is stated has the ref and the commit of the change that is made.
pub proof fn change_is_what_is_stated(changes: Seq<RefUpdate>)
    ensures
        update_views(changes).len() == changes.len(),
        forall|k: int|
            0 <= k < changes.len() ==> {
                let u = #[trigger] changes[k];
                let v = update_views(changes)[k];
                &&& v.refspec == u.refspec@
                &&& v.commit is Some <==> u.commit is Some
                &&& u.commit is Some ==> v.commit->0 == u.commit->0@
            },
{
}

/// Two deployments never share a base ref.
pub proof fn base_refs_are_distinct(i: nat, k: nat)
    requires
        base_ref(i) == base_ref(k),
    ensures
        i == k,
{
    let n = (BASE_IMAGE_PREFIX@ + "/"@).len() as int;
    assert(base_ref(i).skip(n) == decimal(i));
    assert(base_ref(k).skip(n) == decimal(k));
    decimal_injective(i, k);
}

/// The refs after one change.
pub open spec fn applied(refs: Map<Seq<char>, Seq<char>>, u: RefUpdateView) -> Map<
    Seq<char>,
    Seq<char>,
> {
    match u.commit {
        Some(commit) => refs.insert(u.refspec, commit),
        None => refs.remove(u.refspec),
    }
}

/// The refs after the changes, made in order.
pub open spec fn all_applied(refs: Map<Seq<char>, Seq<char>>, updates: Seq<RefUpdateView>) -> Map<
    Seq<char>,
    Seq<char>,
>
    decreases updates.len(),
{
    if updates.len() == 0 {
        refs
    } else {
        applied(all_applied(refs, updates.drop_last()), updates.last())
    }
}

/// Whether the name is the base ref of a deployment that has a base.
pub open spec fn is_base_ref(bases: Seq<Option<String>>, name: Seq<char>) -> bool {
    exists|i: int| 0 <= i < bases.len() && bases[i] is Some && name == #[trigger] base_ref(i as nat)
}

proof fn applied_concat(
    refs: Map<Seq<char>, Seq<char>>,
    a: Seq<RefUpdateView>,
    b: Seq<RefUpdateView>,
)
    ensures
        all_applied(refs, a + b) == all_applied(all_applied(refs, a), b),
    decreases b.len(),
{
    if b.len() == 0 {
        assert(a + b == a);
    } else {
        applied_concat(refs, a, b.drop_last());
        assert((a + b).drop_last() == a + b.drop_last());
    }
}

proof fn removals_applied(refs: Map<Seq<char>, Seq<char>>, existing: Seq<String>)
    ensures
        ({
            let left = all_applied(refs, removals(existing));
            &&& forall|name: Seq<char>| #[trigger]
                left.contains_key(name) <==> refs.contains_key(name) && !names(existing).contains(
                    name,
                )
            &&& forall|name: Seq<char>|
                #![trigger left[name]]
                left.contains_key(name) ==> left[name] == refs[name]
        }),
    decreases existing.len(),
{
    if existing.len() > 0 {
        let rest = existing.drop_last();
        removals_applied(refs, rest);
        assert(removals(existing).drop_last() == removals(rest));
        assert(names(existing) == names(rest).push(existing.last()@));
        let mid = all_applied(refs, removals(rest));
        let left = all_applied(refs, removals(existing));
        assert(left == mid.remove(existing.last()@));
        assert forall|name: Seq<char>| #[trigger] left.contains_key(name) <==> refs.contains_key(name)
            && !names(existing).contains(name) by {
            assert(mid.contains_key(name) <==> refs.contains_key(name) && !names(rest).contains(
                name,
            ));
            if names(rest).contains(name) {
                let k = choose|k: int| 0 <= k < rest.len() && names(rest)[k] == name;
                assert(names(existing)[k] == name);
            }
            assert(names(existing)[rest.len() as int] == existing.last()@);
        }
        assert forall|name: Seq<char>|
            #![trigger left[name]]
            left.contains_key(name) implies left[name] == refs[name] by {
            assert(left[name] == mid[name]);
        }
    }
}

proof fn base_refs_applied(refs: Map<Seq<char>, Seq<char>>, bases: Seq<Option<String>>)
    ensures
        ({
            let after = all_applied(refs, base_refs(bases));
            &&& forall|i: int|
                0 <= i < bases.len() && bases[i] is Some ==> after.contains_key(
                    #[trigger] base_ref(i as nat),
                ) && after[base_ref(i as nat)] == bases[i]->0@
            &&& forall|name: Seq<char>|
                #![trigger after.contains_key(name)]
                !is_base_ref(bases, name) ==> (after.contains_key(name) <==> refs.contains_key(
                    name,
                )) && (after.contains_key(name) ==> after[name] == refs[name])
        }),
    decreases bases.len(),
{
    if bases.len() > 0 {
        let rest = bases.drop_last();
        let n = (bases.len() - 1) as nat;
        base_refs_applied(refs, rest);
        let mid = all_applied(refs, base_refs(rest));
        let after = all_applied(refs, base_refs(bases));
        if bases.last() is Some {
            assert(base_refs(bases).drop_last() == base_refs(rest));
            assert(after == mid.insert(base_ref(n), bases.last()->0@));
        }
        assert forall|i: int| 0 <= i < bases.len() && bases[i] is Some implies after.contains_key(
            #[trigger] base_ref(i as nat),
        ) && after[base_ref(i as nat)] == bases[i]->0@ by {
            if i < n {
                assert(rest[i] == bases[i]);
                if base_ref(i as nat) == base_ref(n) {
                    base_refs_are_distinct(i as nat, n);
                }
            }
        }
        assert forall|name: Seq<char>|
            #![trigger after.contains_key(name)]
            !is_base_ref(bases, name) implies (after.contains_key(name) <==> refs.contains_key(
            name,
        )) && (after.contains_key(name) ==> after[name] == refs[name]) by {
            if is_base_ref(rest, name) {
                let i = choose|i: int|
                    0 <= i < rest.len() && rest[i] is Some && name == #[trigger] base_ref(i as nat);
                assert(bases[i] == rest[i]);
                assert(is_base_ref(bases, name));
            }
            assert(mid.contains_key(name) <==> refs.contains_key(name));
            if bases.last() is Some {
                assert(name != base_ref(n)) by {
                    if name == base_ref(n) {
                        assert(bases[n as int] is Some);
                        assert(is_base_ref(bases, name));
                    }
                }
            }
        }
    }
}

/// Once the changes are made, the base of every deployment that has one is kept under that
/// deployment's ref; none of the refs that were there before is left, unless it was set anew; and no
/// other ref has changed.
pub proof fn bases_are_kept(
    refs: Map<Seq<char>, Seq<char>>,
    existing: Seq<String>,
    bases: Seq<Option<String>>,
)
    ensures
        ({
            let after = all_applied(refs, removals(existing) + base_refs(bases));
            &&& forall|i: int|
                0 <= i < bases.len() && bases[i] is Some ==> after.contains_key(
                    #[trigger] base_ref(i as nat),
                ) && after[base_ref(i as nat)] == bases[i]->0@
            &&& forall|name: Seq<char>|
                #![trigger after.contains_key(name)]
                names(existing).contains(name) && !is_base_ref(bases, name)
                    ==> !after.contains_key(name)
            &&& forall|name: Seq<char>|
                #![trigger after.contains_key(name)]
                !names(existing).contains(name) && !is_base_ref(bases, name) ==> (
                after.contains_key(name) <==> refs.contains_key(name)) && (after.contains_key(name)
                    ==> after[name] == refs[name])
        }),
{
    applied_concat(refs, removals(existing), base_refs(bases));
    let mid = all_applied(refs, removals(existing));
    removals_applied(refs, existing);
    base_refs_applied(mid, bases);
    let after = all_applied(refs, removals(existing) + base_refs(bases));
    assert forall|name: Seq<char>|
        #![trigger after.contains_key(name)]
        !names(existing).contains(name) && !is_base_ref(bases, name) implies (after.contains_key(
        name,
    ) <==> refs.contains_key(name)) && (after.contains_key(name) ==> after[name] == refs[name]) by {
        assert(mid.contains_key(name) <==> refs.contains_key(name));
    }
    assert forall|name: Seq<char>|
        #![trigger after.contains_key(name)]
        names(existing).contains(name) && !is_base_ref(bases, name) implies !after.contains_key(
        name,
    ) by {
        assert(!mid.contains_key(name));
    }
}

/// If all refs below the prefix were removed, those that are there after the changes are the base
/// refs of the deployments that have a base, and no others.
pub proof fn only_base_refs_remain(
    refs: Map<Seq<char>, Seq<char>>,
    existing: Seq<String>,
    bases: Seq<Option<String>>,
)
    requires
        forall|name: Seq<char>| #[trigger]
            refs.contains_key(name) && begins_with(name, BASE_IMAGE_PREFIX@ + "/"@) ==> names(
                existing,
            ).contains(name),
    ensures
        ({
            let after = all_applied(refs, removals(existing) + base_refs(bases));
            forall|name: Seq<char>| #[trigger]
                begins_with(name, BASE_IMAGE_PREFIX@ + "/"@) ==> (after.contains_key(name)
                    <==> is_base_ref(bases, name))
        }),
{
    bases_are_kept(refs, existing, bases);
    let after = all_applied(refs, removals(existing) + base_refs(bases));
    assert forall|name: Seq<char>| #[trigger]
        begins_with(name, BASE_IMAGE_PREFIX@ + "/"@) implies (after.contains_key(name)
        <==> is_base_ref(bases, name)) by {
        if !is_base_ref(bases, name) {
            assert(after.contains_key(name) ==> refs.contains_key(name));
        }
    }
}

/// The names by which bases are kept and found.
pub proof fn names_of_bases()
    ensures
        BASE_IMAGE_PREFIX@ == "ostree/container/baseimage/bootc"@,
        BOOTC_DERIVED_KEY@ == "bootc.derived"@,
{
}

} // verus!
