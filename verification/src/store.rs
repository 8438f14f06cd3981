//! The graph mirror: every live global, keyed by its daemon-assigned id.
//!
//! The store is an arena: parent/child relations are plain id references
//! resolved against the arena at traversal time, so removing an object is a
//! single delete and stale child references simply stop resolving. A child
//! reference is live only while the child is present and still derives the
//! holder as its parent, which also covers a child moving to another parent.

use vstd::prelude::*;
use std::collections::BTreeMap;
use crate::global::Global;
use crate::global::PortDirection;
use crate::global::spec_port_direction;
use crate::protocol::Event;
use crate::protocol::ObjectType;
use crate::protocol::Permissions;
use crate::strmap::StrMap;

verus! {

broadcast use vstd::laws_cmp::group_laws_cmp;

/// Two globals agree on everything but their child references.
pub open spec fn same_core(a: Global, b: Global) -> bool {
    &&& b.id_spec() == a.id_spec()
    &&& b.name_spec() == a.name_spec()
    &&& b.parent_spec() == a.parent_spec()
    &&& b.info_spec() == a.info_spec()
    &&& b.props_spec() == a.props_spec()
    &&& b.data_spec() == a.data_spec()
}

/// Whether a child reference held by `parent` still resolves: the child is
/// present and still derives `parent` as its parent.
pub open spec fn child_live(m: Map<u32, Global>, parent: u32, c: u32) -> bool {
    m.contains_key(c) && m[c].parent_spec() == Some(parent)
}

/// The id-keyed arena of mirrored globals.
pub struct GlobalsStore {
    globals: BTreeMap<u32, Global>,
}

impl GlobalsStore {
    /// The mirrored objects by id.
    pub closed spec fn map_spec(self) -> Map<u32, Global> {
        self.globals@
    }

    /// Every stored global is well formed and keyed by its own id.
    pub open spec fn wf(self) -> bool {
        forall|id: u32|
            self.map_spec().contains_key(id) ==> (#[trigger] self.map_spec()[id]).wf()
                && self.map_spec()[id].id_spec() == id
    }

    /// An empty mirror.
    pub fn new() -> (s: Self)
        ensures
            s.wf(),
            s.map_spec() == Map::<u32, Global>::empty(),
    {
        GlobalsStore { globals: BTreeMap::new() }
    }

    /// Whether an object with this id is mirrored.
    pub fn contains(&self, id: u32) -> (r: bool)
        ensures
            r == self.map_spec().contains_key(id),
    {
        self.globals.contains_key(&id)
    }

    /// The mirrored object with this id, if present.
    pub fn get_global(&self, id: u32) -> (r: Option<&Global>)
        ensures
            match r {
                Some(g) => self.map_spec().contains_key(id) && *g == self.map_spec()[id],
                None => !self.map_spec().contains_key(id),
            },
    {
        self.globals.get(&id)
    }

    /// Mirrors a newly sighted object, deriving its name and parent, and
    /// records it as a child of its derived parent when that parent is
    /// already mirrored.
    pub fn add_global(&mut self, id: u32, object_type: ObjectType, props: Option<StrMap<String>>)
        requires
            old(self).wf(),
            props matches Some(p) ==> p.wf(),
        ensures
            final(self).wf(),
            final(self).map_spec().dom() == old(self).map_spec().dom().insert(id),
            ({
                let g = final(self).map_spec()[id];
                &&& g.id_spec() == id
                &&& g.spec_object_type() == object_type
                &&& g.props_spec()@ == match props {
                    Some(p) => p@,
                    None => Map::<Seq<char>, String>::empty(),
                }
                &&& g.info_spec() is None
                &&& g.subobjects_spec().len() == 0
                &&& g.wf()
            }),
            forall|o: u32|
                o != id && old(self).map_spec().contains_key(o) ==> {
                    let gold = old(self).map_spec()[o];
                    let gnew = #[trigger] final(self).map_spec()[o];
                    &&& same_core(gold, gnew)
                    &&& (if Some(o) == final(self).map_spec()[id].parent_spec() {
                        gnew.subobjects_spec() == gold.subobjects_spec().push(id)
                    } else {
                        gnew.subobjects_spec() == gold.subobjects_spec()
                    })
                },
    {
        let g = Global::new(id, object_type, props);
        let ghost g0 = g;
        let parent = g.parent_id();
        self.globals.insert(id, g);
        let link_to: Option<u32> = match parent {
            Some(pid) => if pid != id {
                Some(pid)
            } else {
                None
            },
            None => None,
        };
        match link_to {
            Some(pid) => {
                match self.globals.remove(&pid) {
                    Some(mut p) => {
                        p.add_subobject(id);
                        let ghost pnew = p;
                        self.globals.insert(pid, p);
                        proof {
                            assert(self.map_spec().dom() =~= old(self).map_spec().dom().insert(id));
                            assert forall|o: u32| self.map_spec().contains_key(o) implies (
                            #[trigger] self.map_spec()[o]).wf() && self.map_spec()[o].id_spec()
                                == o by {
                                if o == pid {
                                    assert(self.map_spec()[o] == pnew);
                                    assert(old(self).map_spec()[pid].wf());
                                } else if o == id {
                                    assert(self.map_spec()[o] == g0);
                                } else {
                                    assert(self.map_spec()[o] == old(self).map_spec()[o]);
                                    assert(old(self).map_spec()[o].wf());
                                }
                            }
                        }
                    },
                    None => {
                        proof {
                            assert(self.map_spec() =~= old(self).map_spec().insert(id, g0));
                            assert forall|o: u32| self.map_spec().contains_key(o) implies (
                            #[trigger] self.map_spec()[o]).wf() && self.map_spec()[o].id_spec()
                                == o by {
                                if o != id {
                                    assert(self.map_spec()[o] == old(self).map_spec()[o]);
                                    assert(old(self).map_spec()[o].wf());
                                }
                            }
                        }
                    },
                }
            },
            None => {
                proof {
                    assert(self.map_spec() =~= old(self).map_spec().insert(id, g0));
                    assert forall|o: u32| self.map_spec().contains_key(o) implies (
                    #[trigger] self.map_spec()[o]).wf() && self.map_spec()[o].id_spec() == o by {
                        if o != id {
                            assert(self.map_spec()[o] == old(self).map_spec()[o]);
                            assert(old(self).map_spec()[o].wf());
                        }
                    }
                }
            },
        }
    }

    /// Unmirrors an object. Child references other objects hold to it go
    /// stale and stop resolving; they are pruned on the next traversal.
    pub fn remove_global(&mut self, id: u32)
        requires
            old(self).wf(),
        ensures
            final(self).wf(),
            final(self).map_spec() == old(self).map_spec().remove(id),
    {
        let removed = self.globals.remove(&id);
        proof {
            if removed is None {
                assert(self.map_spec() =~= old(self).map_spec().remove(id));
            }
            assert forall|o: u32| self.map_spec().contains_key(o) implies (#[trigger] self.map_spec()[o]).wf()
                && self.map_spec()[o].id_spec() == o by {
                assert(old(self).map_spec().contains_key(o));
                assert(self.map_spec()[o] == old(self).map_spec()[o]);
            }
        }
    }

    /// Replaces an object's properties wholesale, rederiving its name and
    /// parent, and records it as a child of its newly derived parent when
    /// the parent changed. An absent id is ignored.
    pub fn set_global_props(&mut self, id: u32, props: StrMap<String>)
        requires
            old(self).wf(),
            props.wf(),
        ensures
            final(self).wf(),
            !old(self).map_spec().contains_key(id) ==> final(self).map_spec() == old(self).map_spec(),
            old(self).map_spec().contains_key(id) ==> {
                &&& final(self).map_spec().dom() == old(self).map_spec().dom()
                &&& ({
                    let gold = old(self).map_spec()[id];
                    let gnew = final(self).map_spec()[id];
                    &&& gnew.props_spec() == props
                    &&& gnew.wf()
                    &&& gnew.id_spec() == id
                    &&& gnew.spec_object_type() == gold.spec_object_type()
                    &&& gnew.info_spec() == gold.info_spec()
                    &&& gnew.data_spec() == gold.data_spec()
                    &&& gnew.subobjects_spec() == gold.subobjects_spec()
                })
                &&& forall|o: u32|
                    o != id && old(self).map_spec().contains_key(o) ==> {
                        let gold = old(self).map_spec()[o];
                        let gnew = #[trigger] final(self).map_spec()[o];
                        let p_old = old(self).map_spec()[id].parent_spec();
                        let p_new = final(self).map_spec()[id].parent_spec();
                        &&& same_core(gold, gnew)
                        &&& (if p_new != p_old && Some(o) == p_new {
                            gnew.subobjects_spec() == gold.subobjects_spec().push(id)
                        } else {
                            gnew.subobjects_spec() == gold.subobjects_spec()
                        })
                    }
            },
    {
        match self.globals.remove(&id) {
            Some(mut g) => {
                let old_parent = g.parent_id();
                g.set_props(props);
                let new_parent = g.parent_id();
                self.globals.insert(id, g);
                proof {
                    assert(self.map_spec().dom() =~= old(self).map_spec().dom());
                }
                if let Some(np) = new_parent {
                    let changed = match old_parent {
                        Some(op) => op != np,
                        None => true,
                    };
                    if changed && np != id {
                        match self.globals.remove(&np) {
                            Some(mut p) => {
                                p.add_subobject(id);
                                self.globals.insert(np, p);
                                proof {
                                    assert(self.map_spec().dom() =~= old(self).map_spec().dom());
                                }
                            },
                            None => {
                                proof {
                                    assert(self.map_spec().dom() =~= old(self).map_spec().dom());
                                }
                            },
                        }
                    }
                }
            },
            None => {
                proof {
                    assert(self.map_spec() =~= old(self).map_spec());
                }
            },
        }
    }

    /// Replaces an object's decoded info list wholesale. An absent id is
    /// ignored.
    pub fn set_global_info(&mut self, id: u32, info: Vec<(String, String)>)
        requires
            old(self).wf(),
        ensures
            final(self).wf(),
            !old(self).map_spec().contains_key(id) ==> final(self).map_spec() == old(self).map_spec(),
            old(self).map_spec().contains_key(id) ==> {
                &&& final(self).map_spec().dom() == old(self).map_spec().dom()
                &&& ({
                    let gold = old(self).map_spec()[id];
                    let gnew = final(self).map_spec()[id];
                    &&& gnew.info_spec() == Some(info)
                    &&& gnew.id_spec() == gold.id_spec()
                    &&& gnew.name_spec() == gold.name_spec()
                    &&& gnew.parent_spec() == gold.parent_spec()
                    &&& gnew.props_spec() == gold.props_spec()
                    &&& gnew.data_spec() == gold.data_spec()
                    &&& gnew.subobjects_spec() == gold.subobjects_spec()
                })
                &&& forall|o: u32|
                    o != id && old(self).map_spec().contains_key(o) ==> #[trigger] final(self).map_spec()[o] == old(self).map_spec()[o]
            },
    {
        match self.globals.remove(&id) {
            Some(mut g) => {
                g.set_info(Some(info));
                self.globals.insert(id, g);
                proof {
                    assert(self.map_spec().dom() =~= old(self).map_spec().dom());
                }
            },
            None => {
                proof {
                    assert(self.map_spec() =~= old(self).map_spec());
                }
            },
        }
    }

    /// Replaces a client's known permission list wholesale (the reply to a
    /// permissions request). Absent ids and non-clients are left as they
    /// are.
    pub fn set_client_permissions(&mut self, id: u32, list: Vec<Permissions>)
        requires
            old(self).wf(),
        ensures
            final(self).wf(),
            final(self).map_spec().dom() == old(self).map_spec().dom(),
            forall|o: u32|
                o != id && old(self).map_spec().contains_key(o) ==> #[trigger] final(self).map_spec()[o] == old(self).map_spec()[o],
            old(self).map_spec().contains_key(id) ==> {
                let gold = old(self).map_spec()[id];
                let gnew = final(self).map_spec()[id];
                &&& gnew.id_spec() == gold.id_spec()
                &&& gnew.name_spec() == gold.name_spec()
                &&& gnew.parent_spec() == gold.parent_spec()
                &&& gnew.info_spec() == gold.info_spec()
                &&& gnew.props_spec() == gold.props_spec()
                &&& gnew.subobjects_spec() == gold.subobjects_spec()
                &&& (gold.data_spec() matches crate::global::ObjectData::Client {
                    permissions: _,
                    user_permissions,
                    user_properties,
                } ==> gnew.data_spec() == (crate::global::ObjectData::Client {
                    permissions: Some(list),
                    user_permissions,
                    user_properties,
                }))
                &&& (gold.data_spec() matches crate::global::ObjectData::Other(_)
                    ==> gnew.data_spec() == gold.data_spec())
            },
    {
        match self.globals.remove(&id) {
            Some(mut g) => {
                g.object_data_mut().set_permissions(list);
                self.globals.insert(id, g);
                proof {
                    assert(self.map_spec().dom() =~= old(self).map_spec().dom());
                }
            },
            None => {
                proof {
                    assert(self.map_spec() =~= old(self).map_spec());
                }
            },
        }
    }

    /// One traversal step: the children of `id` that still resolve, in
    /// recorded order. Stale references (removed or moved children) are
    /// filtered out.
    pub fn live_children(&self, id: u32) -> (r: Vec<u32>)
        requires
            self.wf(),
        ensures
            !self.map_spec().contains_key(id) ==> r@.len() == 0,
            self.map_spec().contains_key(id) ==> r@ == self.map_spec()[id].subobjects_spec().filter(
                |c: u32| child_live(self.map_spec(), id, c),
            ),
    {
        let ghost pred = |c: u32| child_live(self.map_spec(), id, c);
        let g = match self.globals.get(&id) {
            Some(g) => g,
            None => {
                return Vec::new();
            },
        };
        let subs = g.subobjects();
        let mut r: Vec<u32> = Vec::new();
        let mut i: usize = 0;
        while i < subs.len()
            invariant
                self.wf(),
                pred == (|c: u32| child_live(self.map_spec(), id, c)),
                self.map_spec().contains_key(id),
                subs@ == self.map_spec()[id].subobjects_spec(),
                i <= subs@.len(),
                r@ == subs@.take(i as int).filter(pred),
            decreases subs@.len() - i,
        {
            let c = subs[i];
            let live = match self.globals.get(&c) {
                Some(child) => match child.parent_id() {
                    Some(p) => p == id,
                    None => false,
                },
                None => false,
            };
            proof {
                assert(subs@.take(i + 1) =~= subs@.take(i as int) + seq![subs@[i as int]]);
                Seq::filter_distributes_over_add(
                    subs@.take(i as int),
                    seq![subs@[i as int]],
                    pred,
                );
                lemma_filter_one(subs@[i as int], pred);
                assert(live == pred(subs@[i as int]));
            }
            if live {
                r.push(c);
            }
            i = i + 1;
        }
        proof {
            assert(subs@.take(subs@.len() as int) =~= subs@);
        }
        r
    }

    /// Prunes the recorded child references of `id` down to the ones that
    /// still resolve. An absent id is ignored.
    pub fn prune_subobjects(&mut self, id: u32)
        requires
            old(self).wf(),
        ensures
            final(self).wf(),
            !old(self).map_spec().contains_key(id) ==> final(self).map_spec() == old(self).map_spec(),
            old(self).map_spec().contains_key(id) ==> {
                &&& final(self).map_spec().dom() == old(self).map_spec().dom()
                &&& same_core(old(self).map_spec()[id], final(self).map_spec()[id])
                &&& final(self).map_spec()[id].subobjects_spec() == old(self).map_spec()[id].subobjects_spec().filter(
                    |c: u32| child_live(old(self).map_spec(), id, c),
                )
                &&& forall|o: u32|
                    o != id && old(self).map_spec().contains_key(o) ==> #[trigger] final(self).map_spec()[o] == old(self).map_spec()[o]
            },
    {
        let kept = self.live_children(id);
        match self.globals.remove(&id) {
            Some(mut g) => {
                g.set_subobjects(kept);
                self.globals.insert(id, g);
                proof {
                    assert(self.map_spec().dom() =~= old(self).map_spec().dom());
                }
            },
            None => {
                proof {
                    assert(self.map_spec() =~= old(self).map_spec());
                }
            },
        }
    }

    /// Partitions a node's live child ports by the direction their
    /// properties declare, for the Outputs / Inputs / Unknown-direction
    /// display groups; each group keeps recorded order.
    pub fn ports_by_direction(&self, node: u32) -> (r: (Vec<u32>, Vec<u32>, Vec<u32>))
        requires
            self.wf(),
        ensures
            ({
                let kids = if self.map_spec().contains_key(node) {
                    self.map_spec()[node].subobjects_spec().filter(
                        |c: u32| child_live(self.map_spec(), node, c),
                    )
                } else {
                    Seq::<u32>::empty()
                };
                &&& r.0@ == kids.filter(
                    |c: u32| spec_port_direction(self.map_spec()[c].props_spec()@)
                        == PortDirection::Output,
                )
                &&& r.1@ == kids.filter(
                    |c: u32| spec_port_direction(self.map_spec()[c].props_spec()@)
                        == PortDirection::Input,
                )
                &&& r.2@ == kids.filter(
                    |c: u32| spec_port_direction(self.map_spec()[c].props_spec()@)
                        == PortDirection::Unknown,
                )
            }),
    {
        broadcast use vstd::seq_lib::group_filter_ensures;

        let ghost live = |c: u32| child_live(self.map_spec(), node, c);
        let kids = self.live_children(node);
        let ghost kids0 = kids@;
        proof {
            assert forall|j: int| 0 <= j < kids0.len() implies self.map_spec().contains_key(
                #[trigger] kids0[j],
            ) by {
                let subs = self.map_spec()[node].subobjects_spec();
                subs.lemma_filter_pred(live, j);
                assert(live(kids0[j]));
            }
        }
        let ghost out_pred = |c: u32|
            spec_port_direction(self.map_spec()[c].props_spec()@) == PortDirection::Output;
        let ghost in_pred = |c: u32|
            spec_port_direction(self.map_spec()[c].props_spec()@) == PortDirection::Input;
        let ghost unk_pred = |c: u32|
            spec_port_direction(self.map_spec()[c].props_spec()@) == PortDirection::Unknown;
        let mut outs: Vec<u32> = Vec::new();
        let mut ins: Vec<u32> = Vec::new();
        let mut unks: Vec<u32> = Vec::new();
        let mut i: usize = 0;
        while i < kids.len()
            invariant
                self.wf(),
                kids@ == kids0,
                forall|j: int| 0 <= j < kids0.len() ==> self.map_spec().contains_key(
                    #[trigger] kids0[j],
                ),
                out_pred == (|c: u32|
                    spec_port_direction(self.map_spec()[c].props_spec()@)
                        == PortDirection::Output),
                in_pred == (|c: u32|
                    spec_port_direction(self.map_spec()[c].props_spec()@) == PortDirection::Input),
                unk_pred == (|c: u32|
                    spec_port_direction(self.map_spec()[c].props_spec()@)
                        == PortDirection::Unknown),
                i <= kids0.len(),
                outs@ == kids0.take(i as int).filter(out_pred),
                ins@ == kids0.take(i as int).filter(in_pred),
                unks@ == kids0.take(i as int).filter(unk_pred),
            decreases kids0.len() - i,
        {
            let c = kids[i];
            let got = self.globals.get(&c);
            proof {
                assert(self.map_spec().contains_key(kids0[i as int]));
            }
            let g = got.unwrap();
            proof {
                assert(kids0.take(i + 1) =~= kids0.take(i as int) + seq![kids0[i as int]]);
                Seq::filter_distributes_over_add(kids0.take(i as int), seq![kids0[i as int]], out_pred);
                Seq::filter_distributes_over_add(kids0.take(i as int), seq![kids0[i as int]], in_pred);
                Seq::filter_distributes_over_add(kids0.take(i as int), seq![kids0[i as int]], unk_pred);
                lemma_filter_one(kids0[i as int], out_pred);
                lemma_filter_one(kids0[i as int], in_pred);
                lemma_filter_one(kids0[i as int], unk_pred);
            }
            match g.port_direction() {
                PortDirection::Output => outs.push(c),
                PortDirection::Input => ins.push(c),
                PortDirection::Unknown => unks.push(c),
            }
            i = i + 1;
        }
        proof {
            assert(kids0.take(kids0.len() as int) =~= kids0);
        }
        (outs, ins, unks)
    }

    /// Consumes one event, in receive order: the mirror's part of the
    /// stream. Events that concern other components (metadata records,
    /// profiler samples, context properties, stop) leave the mirror as it
    /// is.
    pub fn apply_event(&mut self, event: Event)
        requires
            old(self).wf(),
            event matches Event::GlobalAdded(_, _, Some(p)) ==> p.wf(),
            event matches Event::GlobalProperties(_, p) ==> p.wf(),
        ensures
            final(self).wf(),
            match event {
                Event::GlobalAdded(id, _, _) => final(self).map_spec().dom() == old(
                    self,
                ).map_spec().dom().insert(id),
                Event::GlobalRemoved(id) => final(self).map_spec() == old(self).map_spec().remove(
                    id,
                ),
                Event::GlobalInfo(id, _) | Event::GlobalProperties(id, _)
                | Event::ClientPermissions(id, _, _) => final(self).map_spec().dom() == old(
                    self,
                ).map_spec().dom(),
                _ => final(self).map_spec() == old(self).map_spec(),
            },
            event matches Event::GlobalAdded(id, object_type, props) ==> {
                let g = final(self).map_spec()[id];
                &&& g.id_spec() == id
                &&& g.spec_object_type() == object_type
                &&& g.props_spec()@ == match props {
                    Some(p) => p@,
                    None => Map::<Seq<char>, String>::empty(),
                }
            },
            event matches Event::GlobalProperties(id, props) ==> (old(
                self,
            ).map_spec().contains_key(id) ==> final(self).map_spec()[id].props_spec() == props),
            event matches Event::GlobalInfo(id, info) ==> (old(self).map_spec().contains_key(id)
                ==> final(self).map_spec()[id].info_spec() == Some(info)),
            event matches Event::GlobalInfo(id, _) ==> forall|o: u32|
                o != id && old(self).map_spec().contains_key(o) ==> #[trigger] final(self).map_spec()[o] == old(self).map_spec()[o],
            event matches Event::ClientPermissions(id, _, _) ==> forall|o: u32|
                o != id && old(self).map_spec().contains_key(o) ==> #[trigger] final(self).map_spec()[o] == old(self).map_spec()[o],
            event matches Event::GlobalAdded(id, _, _) ==> forall|o: u32|
                o != id && old(self).map_spec().contains_key(o) ==> same_core(
                    old(self).map_spec()[o],
                    #[trigger] final(self).map_spec()[o],
                ),
            event matches Event::GlobalProperties(id, _) ==> forall|o: u32|
                o != id && old(self).map_spec().contains_key(o) ==> same_core(
                    old(self).map_spec()[o],
                    #[trigger] final(self).map_spec()[o],
                ),
    {
        match event {
            Event::GlobalAdded(id, object_type, props) => {
                self.add_global(id, object_type, props);
            },
            Event::GlobalRemoved(id) => {
                self.remove_global(id);
            },
            Event::GlobalInfo(id, info) => {
                self.set_global_info(id, info);
            },
            Event::GlobalProperties(id, props) => {
                self.set_global_props(id, props);
            },
            Event::ClientPermissions(id, _index, list) => {
                self.set_client_permissions(id, list);
            },
            _ => {},
        }
    }
}

/// Filtering a one-element sequence keeps or drops that element.
proof fn lemma_filter_one(x: u32, pred: spec_fn(u32) -> bool)
    ensures
        seq![x].filter(pred) == if pred(x) {
            seq![x]
        } else {
            Seq::<u32>::empty()
        },
{
    reveal_with_fuel(Seq::filter, 2);
    assert(seq![x].drop_last() =~= Seq::<u32>::empty());
    if pred(x) {
        assert(seq![x].filter(pred) =~= seq![x]);
    } else {
        assert(seq![x].filter(pred) =~= Seq::<u32>::empty());
    }
}

/// After an object is added and then removed, the mirror holds no entry
/// for its id, and no pruned child list — which holds only ids the mirror
/// still resolves — can reach it.
pub proof fn lemma_add_then_remove_unreachable(
    m: Map<u32, Global>,
    id: u32,
    g: Global,
    children: Seq<u32>,
)
    requires
        forall|i: int|
            0 <= i < children.len() ==> m.insert(id, g).remove(id).contains_key(
                #[trigger] children[i],
            ),
    ensures
        !m.insert(id, g).remove(id).contains_key(id),
        forall|i: int| 0 <= i < children.len() ==> children[i] != id,
{
}

} // verus!
