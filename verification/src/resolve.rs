//! Finding the node that a path names, with a cache of the nodes found on
//! the way the last time.
//!
//! A cache entry is a hint. It is used only while the node it holds is still
//! a child of the node above it and still bears the name that the path asks
//! for; otherwise the children are searched in order.

use crate::clip::EntityPath;
use crate::scene::{Entity, Scene};
use vstd::prelude::*;

verus! {

/// The first of `children` that bears `name`.
pub open spec fn first_named(scene: &Scene, children: Seq<Entity>, name: Seq<char>) -> Option<
    Entity,
>
    decreases children.len(),
{
    if children.len() == 0 {
        None
    } else if scene.name_of(children[0]) == Some(name) {
        Some(children[0])
    } else {
        first_named(scene, children.drop_first(), name)
    }
}

/// The child of `current` to descend to for `name`: the cached node while it
/// is a child of `current` that bears `name`, else the first child that does.
pub open spec fn next_on_path(
    scene: &Scene,
    current: Entity,
    name: Seq<char>,
    cached: Option<Entity>,
) -> Option<Entity> {
    if cached.is_some() && scene.is_named_child(current, cached.unwrap(), name) {
        cached
    } else {
        first_named(scene, scene.children_of(current), name)
    }
}

/// `cache` cut or filled with `None` to the length `n`.
pub open spec fn resized(cache: Seq<Option<Entity>>, n: nat) -> Seq<Option<Entity>> {
    Seq::new(
        n,
        |i: int|
            if i < cache.len() {
                cache[i]
            } else {
                None
            },
    )
}

/// The node that `parts[idx..]` names below `current`, and the cache as the
/// descent leaves it: each part found is noted at its index, and a part
/// that is not found ends the descent.
pub open spec fn resolved(
    scene: &Scene,
    current: Entity,
    parts: Seq<Seq<char>>,
    cache: Seq<Option<Entity>>,
    idx: int,
) -> (Option<Entity>, Seq<Option<Entity>>)
    decreases parts.len() - idx,
{
    if idx < 0 || idx >= parts.len() {
        (Some(current), cache)
    } else {
        match next_on_path(scene, current, parts[idx], cache[idx]) {
            Some(next) => resolved(scene, next, parts, cache.update(idx, Some(next)), idx + 1),
            None => (None, cache),
        }
    }
}

/// `target` is reached from `from` through children that bear the names
/// `parts[idx..]`, one after the other.
pub open spec fn leads_to(
    scene: &Scene,
    from: Entity,
    parts: Seq<Seq<char>>,
    idx: int,
    target: Entity,
) -> bool
    decreases parts.len() - idx,
{
    if idx < 0 {
        false
    } else if idx >= parts.len() {
        from == target
    } else {
        exists|c: Entity| #[trigger]
            scene.is_named_child(from, c, parts[idx]) && leads_to(scene, c, parts, idx + 1, target)
    }
}

/// The first child that bears a name is a child and bears that name, and no
/// child before it does.
pub proof fn lemma_first_named(scene: &Scene, children: Seq<Entity>, name: Seq<char>)
    ensures
        match first_named(scene, children, name) {
            Some(c) => exists|k: int|
                0 <= k < children.len() && children[k] == c && scene.name_of(c) == Some(name)
                    && forall|j: int| 0 <= j < k ==> scene.name_of(#[trigger] children[j]) != Some(name),
            None => forall|j: int|
                0 <= j < children.len() ==> scene.name_of(#[trigger] children[j]) != Some(name),
        },
    decreases children.len(),
{
    if children.len() == 0 {
    } else if scene.name_of(children[0]) == Some(name) {
        assert(children[0] == children[0]);
    } else {
        let rest = children.drop_first();
        lemma_first_named(scene, rest, name);
        assert forall|j: int| 0 <= j < rest.len() implies rest[j] == children[j + 1] by {}
        match first_named(scene, rest, name) {
            Some(c) => {
                let k = choose|k: int|
                    0 <= k < rest.len() && rest[k] == c && scene.name_of(c) == Some(name)
                        && forall|j: int| 0 <= j < k ==> scene.name_of(#[trigger] rest[j]) != Some(name);
                assert(children[k + 1] == c);
                assert forall|j: int| 0 <= j < k + 1 implies scene.name_of(#[trigger] children[j])
                    != Some(name) by {
                    if j > 0 {
                        assert(rest[j - 1] == children[j]);
                    }
                }
            },
            None => {
                assert forall|j: int| 0 <= j < children.len() implies scene.name_of(
                    #[trigger] children[j],
                ) != Some(name) by {
                    if j > 0 {
                        assert(rest[j - 1] == children[j]);
                    }
                }
            },
        }
    }
}

/// Whatever the cache holds, the node descended to is a child of `current`
/// that bears `name`.
pub proof fn lemma_next_is_named_child(
    scene: &Scene,
    current: Entity,
    name: Seq<char>,
    cached: Option<Entity>,
)
    ensures
        next_on_path(scene, current, name, cached) matches Some(c) ==> scene.is_named_child(
            current,
            c,
            name,
        ),
{
    lemma_first_named(scene, scene.children_of(current), name);
}

/// A cached node that is no longer a child of `current`, or that no longer
/// bears `name`, counts for nothing: the children are searched as if the
/// cache were empty.
pub proof fn lemma_stale_entry_is_ignored(
    scene: &Scene,
    current: Entity,
    name: Seq<char>,
    stale: Entity,
)
    requires
        !scene.children_of(current).contains(stale) || scene.name_of(stale) != Some(name),
    ensures
        next_on_path(scene, current, name, Some(stale)) == next_on_path(scene, current, name, None),
        next_on_path(scene, current, name, Some(stale)) != Some(stale),
{
    lemma_first_named(scene, scene.children_of(current), name);
}

/// Whatever the cache holds, a node that the descent arrives at is reached
/// through children of the scene as it is, each bearing the name that the
/// path asks for, and the cache then holds the nodes passed.
pub proof fn lemma_resolution_is_sound(
    scene: &Scene,
    current: Entity,
    parts: Seq<Seq<char>>,
    cache: Seq<Option<Entity>>,
    idx: int,
)
    requires
        0 <= idx,
        cache.len() == parts.len(),
    ensures
        resolved(scene, current, parts, cache, idx).1.len() == parts.len(),
        forall|i: int|
            0 <= i < idx && i < parts.len() ==> resolved(scene, current, parts, cache, idx).1[i]
                == cache[i],
        resolved(scene, current, parts, cache, idx).0 matches Some(target) ==> {
            &&& leads_to(scene, current, parts, idx, target)
            &&& forall|i: int|
                idx <= i < parts.len() ==> (#[trigger] resolved(
                    scene,
                    current,
                    parts,
                    cache,
                    idx,
                ).1[i]).is_some()
            &&& idx < parts.len() ==> resolved(scene, current, parts, cache, idx).1[parts.len()
                - 1] == Some(target)
        },
    decreases parts.len() - idx,
{
    if idx < parts.len() {
        lemma_next_is_named_child(scene, current, parts[idx], cache[idx]);
        match next_on_path(scene, current, parts[idx], cache[idx]) {
            Some(next) => {
                let noted = cache.update(idx, Some(next));
                lemma_resolution_is_sound(scene, next, parts, noted, idx + 1);
                let out = resolved(scene, next, parts, noted, idx + 1);
                assert(out == resolved(scene, current, parts, cache, idx));
                assert(out.1[idx] == noted[idx]);
                assert forall|i: int| 0 <= i < idx && i < parts.len() implies out.1[i]
                    == cache[i] by {
                    assert(out.1[i] == noted[i]);
                }
                if out.0.is_some() {
                    assert(scene.is_named_child(current, next, parts[idx]) && leads_to(
                        scene,
                        next,
                        parts,
                        idx + 1,
                        out.0.unwrap(),
                    ));
                }
            },
            None => {},
        }
    }
}

/// A node that was taken out of the hierarchy is not found through a cache
/// that still holds it: the children are searched as if the cache were
/// empty.
pub proof fn lemma_detached_node_is_not_found(
    scene: &Scene,
    current: Entity,
    name: Seq<char>,
    detached: Entity,
)
    requires
        scene.wf(),
        scene.parent_of(detached).is_none(),
    ensures
        next_on_path(scene, current, name, Some(detached)) == next_on_path(
            scene,
            current,
            name,
            None,
        ),
        next_on_path(scene, current, name, Some(detached)) != Some(detached),
{
    scene.lemma_orphan_is_no_child(detached, current);
    lemma_stale_entry_is_ignored(scene, current, name, detached);
}

/// Whatever the cache holds, the node that a path of several parts arrives
/// at hangs in the hierarchy: it has a parent, so it is none that was taken
/// out.
pub proof fn lemma_found_node_hangs_in_the_hierarchy(
    scene: &Scene,
    current: Entity,
    parts: Seq<Seq<char>>,
    cache: Seq<Option<Entity>>,
    idx: int,
)
    requires
        scene.wf(),
        0 <= idx < parts.len(),
    ensures
        resolved(scene, current, parts, cache, idx).0 matches Some(target) ==> scene.parent_of(
            target,
        ).is_some(),
    decreases parts.len() - idx,
{
    lemma_next_is_named_child(scene, current, parts[idx], cache[idx]);
    match next_on_path(scene, current, parts[idx], cache[idx]) {
        Some(next) => {
            if idx + 1 < parts.len() {
                lemma_found_node_hangs_in_the_hierarchy(
                    scene,
                    next,
                    parts,
                    cache.update(idx, Some(next)),
                    idx + 1,
                );
            } else {
                assert(scene.children_of(current).contains(next));
                assert(scene.parent_of(next) == Some(current));
            }
        },
        None => {},
    }
}

/// Whether `list` holds `e`.
fn holds(list: &Vec<Entity>, e: Entity) -> (found: bool)
    ensures
        found == list@.contains(e),
{
    let n = list.len();
    let mut i: usize = 0;
    while i < n
        invariant
            n == list@.len(),
            i <= n,
            forall|j: int| 0 <= j < i ==> list@[j] != e,
        decreases n - i,
    {
        if list[i] == e {
            return true;
        }
        i += 1;
    }
    false
}

/// Whether `e` is a node of `scene` that bears `name`.
fn bears_name(scene: &Scene, e: Entity, name: &String) -> (bears: bool)
    ensures
        bears == (scene.name_of(e) == Some(name@)),
{
    match scene.name(e) {
        Some(s) => *s == *name,
        None => false,
    }
}

/// The first of `children` that bears `name`.
fn first_named_child(scene: &Scene, children: &Vec<Entity>, name: &String) -> (found: Option<Entity>)
    ensures
        found == first_named(scene, children@, name@),
{
    let n = children.len();
    let mut i: usize = 0;
    assert(children@.subrange(0, n as int) =~= children@);
    while i < n
        invariant
            n == children@.len(),
            i <= n,
            first_named(scene, children@, name@) == first_named(
                scene,
                children@.subrange(i as int, n as int),
                name@,
            ),
        decreases n - i,
    {
        let ghost rest = children@.subrange(i as int, n as int);
        assert(rest[0] == children@[i as int]);
        assert(rest.drop_first() =~= children@.subrange(i + 1, n as int));
        if bears_name(scene, children[i], name) {
            return Some(children[i]);
        }
        i += 1;
    }
    assert(children@.subrange(n as int, n as int).len() == 0);
    None
}

/// Cuts `cache` to `n` entries, or fills it with `None` up to `n`.
fn fit(cache: &mut Vec<Option<Entity>>, n: usize)
    ensures
        final(cache)@ == resized(old(cache)@, n as nat),
{
    cache.truncate(n);
    while cache.len() < n
        invariant
            cache@.len() <= n,
            old(cache)@.len() <= n ==> cache@.len() >= old(cache)@.len(),
            old(cache)@.len() > n ==> cache@.len() == n,
            forall|i: int|
                0 <= i < cache@.len() ==> cache@[i] == if i < old(cache)@.len() {
                    old(cache)@[i]
                } else {
                    None
                },
        decreases n - cache@.len(),
    {
        cache.push(None);
    }
    assert(cache@ =~= resized(old(cache)@, n as nat));
}

/// Finds the node that `path` names below `root`. The first part of the
/// path names `root` itself and is not looked at.
///
/// `path_cache` is brought to the length of the path and holds, after the
/// call, the node found for each part that was found. Returns `None` where
/// a part names no child of the node found before it.
pub fn find_bone(
    root: Entity,
    path: &EntityPath,
    scene: &Scene,
    path_cache: &mut Vec<Option<Entity>>,
) -> (found: Option<Entity>)
    ensures
        found == resolved(
            scene,
            root,
            path@,
            resized(old(path_cache)@, path@.len()),
            1,
        ).0,
        final(path_cache)@ == resolved(
            scene,
            root,
            path@,
            resized(old(path_cache)@, path@.len()),
            1,
        ).1,
{
    let n = path.parts.len();
    fit(path_cache, n);
    let ghost start = path_cache@;
    let mut current = root;
    let mut idx: usize = 1;
    while idx < n
        invariant
            n == path.parts@.len(),
            n == path@.len(),
            1 <= idx,
            path_cache@.len() == n,
            start == resized(old(path_cache)@, path@.len()),
            resolved(scene, root, path@, start, 1) == resolved(
                scene,
                current,
                path@,
                path_cache@,
                idx as int,
            ),
        decreases n - idx,
    {
        let part = &path.parts[idx];
        assert(path@[idx as int] == part@);
        let cached = path_cache[idx];
        let mut next: Option<Entity> = None;
        match scene.children(current) {
            Some(children) => {
                if let Some(c) = cached {
                    if holds(children, c) && bears_name(scene, c, part) {
                        next = Some(c);
                    }
                }
                if next.is_none() {
                    next = first_named_child(scene, children, part);
                }
            },
            None => {},
        }
        assert(next == next_on_path(scene, current, part@, cached));
        let ghost here = resolved(scene, current, path@, path_cache@, idx as int);
        match next {
            Some(child) => {
                assert(here == resolved(
                    scene,
                    child,
                    path@,
                    path_cache@.update(idx as int, Some(child)),
                    idx + 1,
                ));
                current = child;
                path_cache[idx] = Some(child);
            },
            None => {
                assert(here == (None::<Entity>, path_cache@));
                return None;
            },
        }
        idx += 1;
    }
    assert(resolved(scene, current, path@, path_cache@, idx as int) == (Some(current), path_cache@));
    Some(current)
}

} // verus!
