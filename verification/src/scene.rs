//! The hierarchy of named nodes that animations move.
//!
//! A scene is an arena: an entity is the index of its node. A node is created
//! after its parent, so the way up from any node ends.

use vstd::prelude::*;

verus! {

/// Identifies a node of a [`Scene`].
#[derive(Clone, Copy, Debug, PartialEq, Eq, Structural, Hash)]
pub struct Entity(pub usize);

/// What a scene holds of one node.
#[derive(Clone, Debug)]
struct SceneNode {
    name: Option<String>,
    parent: Option<Entity>,
    children: Vec<Entity>,
    has_player: bool,
}

/// The characters of an optional name.
pub open spec fn name_view(name: Option<String>) -> Option<Seq<char>> {
    match name {
        Some(s) => Some(s@),
        None => None,
    }
}

/// A hierarchy of nodes, each with an optional name and an ordered list of
/// children.
#[derive(Clone, Debug)]
pub struct Scene {
    nodes: Vec<SceneNode>,
}

impl Scene {
    /// Number of nodes ever spawned.
    pub closed spec fn spec_len(&self) -> nat {
        self.nodes@.len()
    }

    /// Whether `e` is a node of this scene.
    pub open spec fn contains(&self, e: Entity) -> bool {
        e.0 < self.spec_len()
    }

    /// The name of `e`, if it is a node with a name.
    pub closed spec fn name_of(&self, e: Entity) -> Option<Seq<char>> {
        if e.0 < self.nodes@.len() {
            name_view(self.nodes@[e.0 as int].name)
        } else {
            None
        }
    }

    /// The children of `e`, in order; none for what is no node.
    pub closed spec fn children_of(&self, e: Entity) -> Seq<Entity> {
        if e.0 < self.nodes@.len() {
            self.nodes@[e.0 as int].children@
        } else {
            Seq::empty()
        }
    }

    /// The parent of `e`, if it is a node with a parent.
    pub closed spec fn parent_of(&self, e: Entity) -> Option<Entity> {
        if e.0 < self.nodes@.len() {
            self.nodes@[e.0 as int].parent
        } else {
            None
        }
    }

    /// Whether `e` is a node that hosts an animation player.
    pub closed spec fn hosts_player(&self, e: Entity) -> bool {
        e.0 < self.nodes@.len() && self.nodes@[e.0 as int].has_player
    }

    /// Every parent was spawned before its child, no node stands twice
    /// among the children of a node, and every child of a node has that node
    /// for its parent.
    pub open spec fn wf(&self) -> bool {
        &&& forall|e: Entity|
            (#[trigger] self.parent_of(e)).is_some() ==> self.parent_of(e).unwrap().0 < e.0
                && self.contains(e)
        &&& forall|p: Entity, i: int, j: int|
            0 <= i < j < self.children_of(p).len() ==> self.children_of(p)[i] != self.children_of(
                p,
            )[j]
        &&& forall|p: Entity, c: Entity| #[trigger]
            self.children_of(p).contains(c) ==> self.parent_of(c) == Some(p)
    }

    /// A node without a parent is the child of no node.
    pub proof fn lemma_orphan_is_no_child(&self, orphan: Entity, p: Entity)
        requires
            self.wf(),
            self.parent_of(orphan).is_none(),
        ensures
            !self.children_of(p).contains(orphan),
    {
    }

    /// The entity reached from `start` by `k` steps to the parent; `start`
    /// itself for no step.
    pub open spec fn ancestor_at(&self, start: Option<Entity>, k: nat) -> Option<Entity>
        decreases k,
    {
        if k == 0 {
            start
        } else {
            match self.ancestor_at(start, (k - 1) as nat) {
                Some(e) => self.parent_of(e),
                None => None,
            }
        }
    }

    /// Whether `start`, or a node above it, hosts an animation player.
    pub open spec fn player_on_way_up(&self, start: Option<Entity>) -> bool {
        exists|k: nat|
            (#[trigger] self.ancestor_at(start, k)) matches Some(e) && self.hosts_player(e)
    }

    /// Whether `child` is one of the children of `parent` and bears `name`.
    pub open spec fn is_named_child(&self, parent: Entity, child: Entity, name: Seq<char>) -> bool {
        self.children_of(parent).contains(child) && self.name_of(child) == Some(name)
    }

    /// Once the way up has ended, it stays ended.
    pub proof fn lemma_way_up_stays_ended(&self, start: Option<Entity>, k: nat, j: nat)
        requires
            self.ancestor_at(start, k).is_none(),
            k <= j,
        ensures
            self.ancestor_at(start, j).is_none(),
        decreases j,
    {
        if j > k {
            self.lemma_way_up_stays_ended(start, k, (j - 1) as nat);
        }
    }

    /// An empty scene.
    pub fn new() -> (scene: Self)
        ensures
            scene.wf(),
            scene.spec_len() == 0,
    {
        Scene { nodes: Vec::new() }
    }

    /// Number of nodes ever spawned.
    pub fn len(&self) -> (n: usize)
        ensures
            n == self.spec_len(),
    {
        self.nodes.len()
    }

    /// Spawns a node without a parent.
    pub fn spawn(&mut self, name: Option<String>) -> (e: Entity)
        ensures
            e.0 == old(self).spec_len(),
            final(self).spec_len() == old(self).spec_len() + 1,
            final(self).name_of(e) == name_view(name),
            final(self).parent_of(e).is_none(),
            final(self).children_of(e) == Seq::<Entity>::empty(),
            !final(self).hosts_player(e),
            forall|x: Entity|
                x != e ==> {
                    &&& #[trigger] final(self).name_of(x) == old(self).name_of(x)
                    &&& final(self).parent_of(x) == old(self).parent_of(x)
                    &&& final(self).children_of(x) == old(self).children_of(x)
                    &&& final(self).hosts_player(x) == old(self).hosts_player(x)
                },
            old(self).wf() ==> final(self).wf(),
    {
        let e = Entity(self.nodes.len());
        self.nodes.push(SceneNode { name, parent: None, children: Vec::new(), has_player: false });
        proof {
            if old(self).wf() {
                assert forall|x: Entity| (#[trigger] self.parent_of(x)).is_some() implies self.parent_of(
                    x,
                ).unwrap().0 < x.0 && self.contains(x) by {
                    assert(old(self).parent_of(x) == self.parent_of(x));
                }
                assert forall|p: Entity, i: int, j: int|
                    0 <= i < j < self.children_of(p).len() implies self.children_of(p)[i]
                    != self.children_of(p)[j] by {
                    assert(self.children_of(p) == old(self).children_of(p));
                }
                assert forall|p: Entity, c: Entity| #[trigger]
                    self.children_of(p).contains(c) implies self.parent_of(c) == Some(p) by {
                    assert(self.children_of(p) == old(self).children_of(p));
                    assert(old(self).parent_of(c) == Some(p));
                }
            }
        }
        e
    }

    /// Spawns a node as the last child of `parent`. Returns `None`, and
    /// changes nothing, if `parent` is no node.
    pub fn spawn_child(&mut self, parent: Entity, name: Option<String>) -> (spawned: Option<Entity>)
        ensures
            !old(self).contains(parent) ==> spawned.is_none() && *final(self) == *old(self),
            old(self).contains(parent) ==> {
                &&& spawned == Some(Entity(old(self).spec_len() as usize))
                &&& final(self).spec_len() == old(self).spec_len() + 1
                &&& final(self).name_of(spawned.unwrap()) == name_view(name)
                &&& final(self).parent_of(spawned.unwrap()) == Some(parent)
                &&& final(self).children_of(spawned.unwrap()) == Seq::<Entity>::empty()
                &&& !final(self).hosts_player(spawned.unwrap())
                &&& final(self).children_of(parent) == old(self).children_of(parent).push(
                    spawned.unwrap(),
                )
                &&& forall|x: Entity|
                    x != spawned.unwrap() ==> {
                        &&& #[trigger] final(self).name_of(x) == old(self).name_of(x)
                        &&& final(self).parent_of(x) == old(self).parent_of(x)
                        &&& final(self).hosts_player(x) == old(self).hosts_player(x)
                        &&& x != parent ==> final(self).children_of(x) == old(self).children_of(x)
                    }
            },
            old(self).wf() ==> final(self).wf(),
    {
        if parent.0 >= self.nodes.len() {
            return None;
        }
        let e = Entity(self.nodes.len());
        self.nodes.push(
            SceneNode { name, parent: Some(parent), children: Vec::new(), has_player: false },
        );
        self.nodes[parent.0].children.push(e);
        proof {
            if old(self).wf() {
                let before = old(self).children_of(parent);
                assert(self.children_of(parent) == before.push(e));
                assert(!before.contains(e)) by {
                    if before.contains(e) {
                        assert(old(self).parent_of(e) == Some(parent));
                    }
                }
                assert forall|x: Entity| (#[trigger] self.parent_of(x)).is_some() implies self.parent_of(
                    x,
                ).unwrap().0 < x.0 && self.contains(x) by {
                    if x != e {
                        assert(old(self).parent_of(x) == self.parent_of(x));
                    }
                }
                assert forall|p: Entity, i: int, j: int|
                    0 <= i < j < self.children_of(p).len() implies self.children_of(p)[i]
                    != self.children_of(p)[j] by {
                    if p == parent {
                        if j == before.len() {
                            assert(before[i] == self.children_of(p)[i]);
                            assert(before.contains(before[i]));
                        } else {
                            assert(before[i] != before[j]);
                        }
                    } else {
                        assert(self.children_of(p) == old(self).children_of(p));
                    }
                }
                assert forall|p: Entity, c: Entity| #[trigger]
                    self.children_of(p).contains(c) implies self.parent_of(c) == Some(p) by {
                    let k = choose|k: int|
                        0 <= k < self.children_of(p).len() && self.children_of(p)[k] == c;
                    if p == parent {
                        if k < before.len() {
                            assert(before[k] == c);
                            assert(before.contains(c));
                            assert(old(self).parent_of(c) == Some(p));
                        }
                    } else {
                        assert(self.children_of(p) == old(self).children_of(p));
                        assert(old(self).parent_of(c) == Some(p));
                    }
                }
            }
        }
        Some(e)
    }

    /// Takes `child` out of the children of its parent, and leaves it
    /// without a parent. Changes nothing if `child` has no parent.
    pub fn detach(&mut self, child: Entity)
        ensures
            final(self).spec_len() == old(self).spec_len(),
            final(self).parent_of(child).is_none(),
            forall|x: Entity|
                {
                    &&& #[trigger] final(self).name_of(x) == old(self).name_of(x)
                    &&& final(self).hosts_player(x) == old(self).hosts_player(x)
                    &&& x != child ==> final(self).parent_of(x) == old(self).parent_of(x)
                    &&& Some(x) != old(self).parent_of(child) ==> final(self).children_of(x) == old(
                        self,
                    ).children_of(x)
                },
            old(self).parent_of(child) matches Some(p) ==> {
                let before = old(self).children_of(p);
                let after = final(self).children_of(p);
                if before.contains(child) {
                    exists|k: int|
                        0 <= k < before.len() && before[k] == child && after == before.remove(k)
                            && forall|j: int| 0 <= j < k ==> before[j] != child
                } else {
                    after == before
                }
            },
            old(self).wf() ==> final(self).wf(),
            old(self).wf() ==> forall|p: Entity| !(#[trigger] final(self).children_of(p)).contains(child),
    {
        if child.0 >= self.nodes.len() {
            proof {
                if self.wf() {
                    assert forall|p: Entity| !(#[trigger] self.children_of(p)).contains(child) by {
                        if self.children_of(p).contains(child) {
                            assert(self.parent_of(child) == Some(p));
                        }
                    }
                }
            }
            return ;
        }
        let parent = match self.nodes[child.0].parent {
            Some(p) => p,
            None => {
                proof {
                    if self.wf() {
                        assert forall|p: Entity| !(#[trigger] self.children_of(p)).contains(
                            child,
                        ) by {
                            if self.children_of(p).contains(child) {
                                assert(self.parent_of(child) == Some(p));
                            }
                        }
                    }
                }
                return ;
            },
        };
        self.nodes[child.0].parent = None;
        let ghost mut removed: Option<int> = None;
        if parent.0 < self.nodes.len() {
            let n = self.nodes[parent.0].children.len();
            let mut k: usize = 0;
            while k < n && self.nodes[parent.0].children[k] != child
                invariant
                    parent.0 < self.nodes@.len(),
                    n == self.nodes@[parent.0 as int].children@.len(),
                    k <= n,
                    forall|j: int| 0 <= j < k ==> self.nodes@[parent.0 as int].children@[j] != child,
                decreases n - k,
            {
                k += 1;
            }
            let ghost list = self.nodes@[parent.0 as int].children@;
            assert(old(self).children_of(parent) == list);
            if k < n {
                self.nodes[parent.0].children.remove(k);
                assert(list[k as int] == child);
                assert(list.contains(child));
                assert(self.children_of(parent) == list.remove(k as int));
                proof {
                    removed = Some(k as int);
                }
            } else {
                assert(!list.contains(child));
                assert(self.children_of(parent) == list);
            }
        }
        proof {
            if old(self).wf() {
                let list = old(self).children_of(parent);
                assert(old(self).parent_of(child) == Some(parent));
                assert(parent.0 < child.0);
                assert(self.children_of(parent) == match removed {
                    Some(k) => list.remove(k),
                    None => list,
                });
                assert forall|x: Entity| (#[trigger] self.parent_of(x)).is_some() implies self.parent_of(
                    x,
                ).unwrap().0 < x.0 && self.contains(x) by {
                    assert(old(self).parent_of(x) == self.parent_of(x));
                }
                assert forall|p: Entity, i: int, j: int|
                    0 <= i < j < self.children_of(p).len() implies self.children_of(p)[i]
                    != self.children_of(p)[j] by {
                    if p == parent && removed.is_some() {
                        let k = removed.unwrap();
                        let a = if i < k {
                            i
                        } else {
                            i + 1
                        };
                        let b = if j < k {
                            j
                        } else {
                            j + 1
                        };
                        assert(list[a] != list[b]);
                    } else {
                        assert(self.children_of(p) == old(self).children_of(p));
                    }
                }
                assert forall|p: Entity, c: Entity| #[trigger]
                    self.children_of(p).contains(c) implies self.parent_of(c) == Some(p) by {
                    let at = choose|at: int|
                        0 <= at < self.children_of(p).len() && self.children_of(p)[at] == c;
                    if p == parent && removed.is_some() {
                        let k = removed.unwrap();
                        let a = if at < k {
                            at
                        } else {
                            at + 1
                        };
                        assert(list[a] == c);
                        assert(list.contains(c));
                        if c == child {
                            if a < k {
                                assert(list[a] != list[k]);
                            } else {
                                assert(list[k] != list[a]);
                            }
                        }
                    } else {
                        assert(old(self).children_of(p).contains(c));
                        if c == child {
                            assert(old(self).parent_of(child) == Some(p));
                        }
                    }
                    assert(old(self).parent_of(c) == Some(p));
                }
                assert forall|p: Entity| !self.children_of(p).contains(child) by {
                    if self.children_of(p).contains(child) {
                        assert(self.parent_of(child) == Some(p));
                    }
                }
            }
        }
    }

    /// Marks whether `e` hosts an animation player. Changes nothing if `e`
    /// is no node.
    pub fn set_player(&mut self, e: Entity, hosts: bool)
        ensures
            final(self).spec_len() == old(self).spec_len(),
            final(self).hosts_player(e) == (hosts && old(self).contains(e)),
            forall|x: Entity|
                {
                    &&& #[trigger] final(self).name_of(x) == old(self).name_of(x)
                    &&& final(self).parent_of(x) == old(self).parent_of(x)
                    &&& final(self).children_of(x) == old(self).children_of(x)
                    &&& x != e ==> final(self).hosts_player(x) == old(self).hosts_player(x)
                },
            old(self).wf() ==> final(self).wf(),
    {
        if e.0 < self.nodes.len() {
            self.nodes[e.0].has_player = hosts;
        }
        proof {
            if old(self).wf() {
                assert forall|x: Entity| (#[trigger] self.parent_of(x)).is_some() implies self.parent_of(
                    x,
                ).unwrap().0 < x.0 && self.contains(x) by {
                    assert(old(self).parent_of(x) == self.parent_of(x));
                }
                assert forall|p: Entity, i: int, j: int|
                    0 <= i < j < self.children_of(p).len() implies self.children_of(p)[i]
                    != self.children_of(p)[j] by {
                    assert(self.children_of(p) == old(self).children_of(p));
                }
                assert forall|p: Entity, c: Entity| #[trigger]
                    self.children_of(p).contains(c) implies self.parent_of(c) == Some(p) by {
                    assert(self.children_of(p) == old(self).children_of(p));
                    assert(old(self).parent_of(c) == self.parent_of(c));
                }
            }
        }
    }

    /// The name of `e`, if it is a node with a name.
    pub fn name(&self, e: Entity) -> (name: Option<&String>)
        ensures
            match name {
                Some(s) => self.name_of(e) == Some(s@),
                None => self.name_of(e).is_none(),
            },
    {
        if e.0 < self.nodes.len() {
            self.nodes[e.0].name.as_ref()
        } else {
            None
        }
    }

    /// The children of `e`, in order, if it is a node.
    pub fn children(&self, e: Entity) -> (list: Option<&Vec<Entity>>)
        ensures
            match list {
                Some(v) => self.contains(e) && v@ == self.children_of(e),
                None => !self.contains(e) && self.children_of(e) == Seq::<Entity>::empty(),
            },
    {
        if e.0 < self.nodes.len() {
            Some(&self.nodes[e.0].children)
        } else {
            None
        }
    }

    /// The parent of `e`, if it is a node with a parent.
    pub fn parent(&self, e: Entity) -> (p: Option<Entity>)
        ensures
            p == self.parent_of(e),
    {
        if e.0 < self.nodes.len() {
            self.nodes[e.0].parent
        } else {
            None
        }
    }

    /// Whether `e` is a node that hosts an animation player.
    pub fn has_player(&self, e: Entity) -> (hosts: bool)
        ensures
            hosts == self.hosts_player(e),
    {
        e.0 < self.nodes.len() && self.nodes[e.0].has_player
    }

    /// Whether `start`, or a node above it, hosts an animation player.
    pub fn has_player_on_way_up(&self, start: Option<Entity>) -> (found: bool)
        requires
            self.wf(),
        ensures
            found == self.player_on_way_up(start),
    {
        let mut current = start;
        let ghost mut k: nat = 0;
        loop
            invariant
                self.wf(),
                current == self.ancestor_at(start, k),
                forall|j: nat|
                    j < k ==> !((#[trigger] self.ancestor_at(start, j)) matches Some(e)
                        && self.hosts_player(e)),
            decreases
                    (match current {
                        Some(e) => e.0 as int + 1,
                        None => 0,
                    }),
        {
            let e = match current {
                Some(e) => e,
                None => {
                    proof {
                        assert forall|j: nat|
                            !((#[trigger] self.ancestor_at(start, j)) matches Some(e)
                                && self.hosts_player(e)) by {
                            if j >= k {
                                self.lemma_way_up_stays_ended(start, k, j);
                            }
                        }
                    }
                    return false;
                },
            };
            if self.has_player(e) {
                return true;
            }
            let next = self.parent(e);
            proof {
                assert(self.ancestor_at(start, k + 1) == next);
                k = k + 1;
            }
            current = next;
        }
    }
}

} // verus!
