use vstd::prelude::*;
use crate::bridge::Bridge;
use crate::device::Device;
use crate::group::Group;
use crate::resource::{rid_views, contains_rid, ResourceIdentifier, ResourceType};
use crate::scene::Scene;

verus! {

// ---------------------------------------------------------------------------
// What a zone or room selects from the bridge
// ---------------------------------------------------------------------------

/// The devices among `devices`, in their order, that `children` names.
pub open spec fn child_devices(children: Seq<ResourceIdentifier>, devices: Seq<Device>) -> Seq<Device> {
    devices.filter(|d: Device| rid_views(children).contains(d.spec_rid()@))
}

/// The scenes among `scenes`, in their order, that belong to `owner`.
pub open spec fn scenes_of(owner: ResourceIdentifier, scenes: Seq<Scene>) -> Seq<Scene> {
    scenes.filter(|s: Scene| s.data.group@ == owner@)
}

/// The positions, in increasing order, of the entries of `owners` that
/// `children` names.
pub open spec fn owned_positions(children: Seq<ResourceIdentifier>, owners: Seq<ResourceIdentifier>) -> Seq<usize> {
    Seq::new(owners.len(), |i: int| i as usize).filter(|i: usize| rid_views(children).contains(owners[i as int]@))
}

/// `k` is the position of the first service of type group in `services`.
pub open spec fn is_first_group_service(services: Seq<ResourceIdentifier>, k: int) -> bool {
    &&& 0 <= k < services.len()
    &&& services[k].rtype == ResourceType::Group
    &&& forall|i: int| 0 <= i < k ==> services[i].rtype != ResourceType::Group
}

/// The first service of type group in `services`, if there is one.
pub open spec fn first_group_service(services: Seq<ResourceIdentifier>) -> Option<ResourceIdentifier> {
    if exists|k: int| is_first_group_service(services, k) {
        Some(services[choose|k: int| is_first_group_service(services, k)])
    } else {
        None
    }
}

/// `j` is the position of the first group in `groups` that `rid` refers to.
pub open spec fn is_first_group_named(groups: Seq<Group>, rid: ResourceIdentifier, j: int) -> bool {
    &&& 0 <= j < groups.len()
    &&& groups[j].spec_rid()@ == rid@
    &&& forall|i: int| 0 <= i < j ==> groups[i].spec_rid()@ != rid@
}

/// The first group in `groups` that `rid` refers to, if there is one.
pub open spec fn group_named(groups: Seq<Group>, rid: ResourceIdentifier) -> Option<Group> {
    if exists|j: int| is_first_group_named(groups, rid, j) {
        Some(groups[choose|j: int| is_first_group_named(groups, rid, j)])
    } else {
        None
    }
}

/// The group that aggregates a zone with these services: the bridge's group
/// named by the first service of type group, or none if there is no such
/// service.
pub open spec fn zone_group(services: Seq<ResourceIdentifier>, groups: Seq<Group>) -> Option<Group> {
    match first_group_service(services) {
        None => None,
        Some(r) => group_named(groups, r),
    }
}

/// The first service of type group, if any, names a group of the bridge.
pub open spec fn group_resolvable(services: Seq<ResourceIdentifier>, groups: Seq<Group>) -> bool {
    match first_group_service(services) {
        None => true,
        Some(r) => exists|j: int| 0 <= j < groups.len() && groups[j].spec_rid()@ == r@,
    }
}

proof fn lemma_first_group_service(services: Seq<ResourceIdentifier>, k: int)
    requires
        is_first_group_service(services, k),
    ensures
        first_group_service(services) == Some(services[k]),
{
    let c = choose|c: int| is_first_group_service(services, c);
    assert(is_first_group_service(services, c));
    if c < k {
        assert(services[c].rtype != ResourceType::Group);
    } else if c > k {
        assert(services[k].rtype != ResourceType::Group);
    }
}

proof fn lemma_no_group_service(services: Seq<ResourceIdentifier>)
    requires
        forall|i: int| 0 <= i < services.len() ==> services[i].rtype != ResourceType::Group,
    ensures
        first_group_service(services) is None,
{
}

proof fn lemma_first_group_named(groups: Seq<Group>, rid: ResourceIdentifier, j: int)
    requires
        is_first_group_named(groups, rid, j),
    ensures
        group_named(groups, rid) == Some(groups[j]),
{
    let c = choose|c: int| is_first_group_named(groups, rid, c);
    assert(is_first_group_named(groups, rid, c));
    if c < j {
        assert(groups[c].spec_rid()@ != rid@);
    } else if c > j {
        assert(groups[j].spec_rid()@ != rid@);
    }
}

/// The positions of the entries of `owners` that `children` names.
fn select_owned(children: &Vec<ResourceIdentifier>, owners: &Vec<ResourceIdentifier>) -> (res: Vec<usize>)
    ensures
        res@ == owned_positions(children@, owners@),
{
    let ghost pred = |i: usize| rid_views(children@).contains(owners@[i as int]@);
    let ghost all = Seq::new(owners@.len(), |i: int| i as usize);
    let mut res: Vec<usize> = Vec::new();
    let mut i: usize = 0;
    while i < owners.len()
        invariant
            0 <= i <= owners.len(),
            pred == (|i: usize| rid_views(children@).contains(owners@[i as int]@)),
            all == Seq::new(owners@.len(), |i: int| i as usize),
            res@ == all.take(i as int).filter(pred),
        decreases owners.len() - i,
    {
        let keep = contains_rid(children, &owners[i]);
        proof {
            reveal_with_fuel(Seq::<usize>::filter, 1);
            assert(all.take(i + 1).drop_last() =~= all.take(i as int));
            assert(all.take(i + 1).last() == i);
        }
        if keep {
            res.push(i);
        }
        i += 1;
    }
    assert(all.take(i as int) =~= all);
    res
}

/// The devices of `devices`, in order, that `children` names.
fn select_child_devices(children: &Vec<ResourceIdentifier>, devices: &Vec<Device>) -> (res: Vec<
    Device,
>)
    ensures
        res@ == child_devices(children@, devices@),
{
    let ghost pred = |d: Device| rid_views(children@).contains(d.spec_rid()@);
    let mut res: Vec<Device> = Vec::new();
    let mut i: usize = 0;
    while i < devices.len()
        invariant
            0 <= i <= devices.len(),
            pred == (|d: Device| rid_views(children@).contains(d.spec_rid()@)),
            res@ == devices@.take(i as int).filter(pred),
        decreases devices.len() - i,
    {
        let rid = devices[i].rid();
        let keep = contains_rid(children, &rid);
        proof {
            reveal_with_fuel(Seq::<Device>::filter, 1);
            assert(devices@.take(i + 1).drop_last() =~= devices@.take(i as int));
            assert(devices@.take(i + 1).last() == devices@[i as int]);
        }
        if keep {
            res.push(devices[i].duplicate());
        }
        i += 1;
    }
    assert(devices@.take(i as int) =~= devices@);
    res
}

/// The scenes of `scenes`, in order, that belong to `owner`.
fn select_scenes(owner: &ResourceIdentifier, scenes: &Vec<Scene>) -> (res: Vec<Scene>)
    ensures
        res@ == scenes_of(*owner, scenes@),
{
    let ghost pred = |s: Scene| s.data.group@ == owner@;
    let mut res: Vec<Scene> = Vec::new();
    let mut i: usize = 0;
    while i < scenes.len()
        invariant
            0 <= i <= scenes.len(),
            pred == (|s: Scene| s.data.group@ == owner@),
            res@ == scenes@.take(i as int).filter(pred),
        decreases scenes.len() - i,
    {
        let keep = *owner == scenes[i].data.group;
        proof {
            reveal_with_fuel(Seq::<Scene>::filter, 1);
            assert(scenes@.take(i + 1).drop_last() =~= scenes@.take(i as int));
            assert(scenes@.take(i + 1).last() == scenes@[i as int]);
        }
        if keep {
            res.push(scenes[i].duplicate());
        }
        i += 1;
    }
    assert(scenes@.take(i as int) =~= scenes@);
    res
}

/// The group that the first service of type group names, if any.
fn find_group(services: &Vec<ResourceIdentifier>, groups: &Vec<Group>) -> (res: Option<Group>)
    requires
        group_resolvable(services@, groups@),
    ensures
        res == zone_group(services@, groups@),
{
    let mut k: usize = 0;
    while k < services.len() && services[k].rtype != ResourceType::Group
        invariant
            0 <= k <= services.len(),
            forall|i: int| 0 <= i < k ==> services@[i].rtype != ResourceType::Group,
        decreases services.len() - k,
    {
        k += 1;
    }
    if k == services.len() {
        proof {
            lemma_no_group_service(services@);
        }
        return None;
    }
    proof {
        lemma_first_group_service(services@, k as int);
    }
    let service = &services[k];
    let mut j: usize = 0;
    while j < groups.len()
        invariant
            0 <= j <= groups.len(),
            first_group_service(services@) == Some(*service),
            group_resolvable(services@, groups@),
            forall|i: int| 0 <= i < j ==> groups@[i].spec_rid()@ != service@,
        decreases groups.len() - j,
    {
        if groups[j].rid() == *service {
            proof {
                lemma_first_group_named(groups@, *service, j as int);
            }
            return Some(groups[j].duplicate());
        }
        j += 1;
    }
    assert(false);
    None
}

/// `out` is `s` at the strictly increasing positions `idx`.
pub open spec fn picked_from<A>(s: Seq<A>, out: Seq<A>, idx: Seq<int>) -> bool {
    &&& idx.len() == out.len()
    &&& forall|k: int| 0 <= k < idx.len() ==> 0 <= #[trigger] idx[k] < s.len() && out[k] == s[idx[k]]
    &&& forall|a: int, b: int| 0 <= a < b < idx.len() ==> #[trigger] idx[a] < #[trigger] idx[b]
}

/// `idx` lists, in increasing order, positions of `s`; `out` holds the
/// elements of `s` at those positions, in that order; and the positions
/// listed are exactly those whose element satisfies `p`.
pub open spec fn picks<A>(s: Seq<A>, p: spec_fn(A) -> bool, out: Seq<A>, idx: Seq<int>) -> bool {
    &&& idx.len() == out.len()
    &&& forall|k: int| 0 <= k < idx.len() ==> 0 <= #[trigger] idx[k] < s.len() && out[k] == s[idx[k]]
    &&& forall|a: int, b: int| 0 <= a < b < idx.len() ==> #[trigger] idx[a] < #[trigger] idx[b]
    &&& forall|j: int| 0 <= j < s.len() ==> (p(#[trigger] s[j]) <==> idx.contains(j))
}

proof fn lemma_filter_picks<A>(s: Seq<A>, p: spec_fn(A) -> bool) -> (idx: Seq<int>)
    ensures
        picks(s, p, s.filter(p), idx),
    decreases s.len(),
{
    reveal(Seq::filter);
    if s.len() == 0 {
        let idx = Seq::<int>::empty();
        assert(picks(s, p, s.filter(p), idx));
        idx
    } else {
        let rest = s.drop_last();
        let ir = lemma_filter_picks(rest, p);
        let n = s.len() - 1;
        let fr = rest.filter(p);
        assert forall|j: int| 0 <= j < n implies s[j] == rest[j] by {}
        if p(s.last()) {
            let idx = ir.push(n);
            let out = fr.push(s.last());
            assert(s.filter(p) == out);
            assert forall|k: int| 0 <= k < idx.len() implies 0 <= #[trigger] idx[k] < s.len() && out[k]
                == s[idx[k]] by {
                if k < ir.len() {
                    assert(idx[k] == ir[k]);
                    assert(out[k] == fr[k]);
                }
            }
            assert forall|a: int, b: int| 0 <= a < b < idx.len() implies #[trigger] idx[a]
                < #[trigger] idx[b] by {
                assert(idx[a] == ir[a]);
                if b < ir.len() {
                    assert(idx[b] == ir[b]);
                }
            }
            assert forall|j: int| 0 <= j < s.len() implies (p(#[trigger] s[j]) <==> idx.contains(j)) by {
                if j < n {
                    assert(rest[j] == s[j]);
                    if idx.contains(j) {
                        let k = choose|k: int| 0 <= k < idx.len() && idx[k] == j;
                        assert(k < ir.len());
                        assert(ir[k] == j);
                        assert(ir.contains(j));
                    }
                    if ir.contains(j) {
                        let k = choose|k: int| 0 <= k < ir.len() && ir[k] == j;
                        assert(idx[k] == j);
                    }
                } else {
                    assert(idx[ir.len() as int] == n);
                }
            }
            idx
        } else {
            assert(s.filter(p) == fr);
            assert forall|j: int| 0 <= j < s.len() implies (p(#[trigger] s[j]) <==> ir.contains(j)) by {
                if j < n {
                    assert(rest[j] == s[j]);
                } else {
                    if ir.contains(j) {
                        let k = choose|k: int| 0 <= k < ir.len() && ir[k] == j;
                        assert(ir[k] < rest.len());
                    }
                }
            }
            ir
        }
    }
}

/// Some entry of `children` has this id and this type.
proof fn lemma_rid_views_contains(children: Seq<ResourceIdentifier>, id: Seq<char>, rtype: ResourceType)
    ensures
        rid_views(children).contains((id, rtype)) <==> exists|c: int|
            0 <= c < children.len() && (#[trigger] children[c]).rid@ == id && children[c].rtype == rtype,
{
    if rid_views(children).contains((id, rtype)) {
        let c = choose|c: int| 0 <= c < rid_views(children).len() && rid_views(children)[c] == (id, rtype);
        assert(children[c].rid@ == id && children[c].rtype == rtype);
    }
    if exists|c: int| 0 <= c < children.len() && (#[trigger] children[c]).rid@ == id && children[c].rtype == rtype {
        let c = choose|c: int| 0 <= c < children.len() && (#[trigger] children[c]).rid@ == id && children[c].rtype == rtype;
        assert(rid_views(children)[c] == (id, rtype));
    }
}

/// A zone's lights are exactly the lights owned by its children, each listed
/// once, in the bridge's order: the selected positions are strictly
/// increasing, every one of them is that of a light whose owner is a child,
/// and every such light's position is selected.
pub proof fn lemma_owned_positions(children: Seq<ResourceIdentifier>, owners: Seq<ResourceIdentifier>)
    requires
        owners.len() <= usize::MAX,
    ensures
        forall|a: int, b: int|
            0 <= a < b < owned_positions(children, owners).len() ==> #[trigger] owned_positions(
                children,
                owners,
            )[a] < #[trigger] owned_positions(children, owners)[b],
        forall|k: int|
            0 <= k < owned_positions(children, owners).len() ==> {
                &&& #[trigger] owned_positions(children, owners)[k] < owners.len()
                &&& exists|c: int|
                    0 <= c < children.len() && (#[trigger] children[c]).rid@ == owners[owned_positions(
                        children,
                        owners,
                    )[k] as int].rid@ && children[c].rtype == owners[owned_positions(
                        children,
                        owners,
                    )[k] as int].rtype
            },
        forall|i: int|
            #![trigger owners[i]]
            0 <= i < owners.len() && (exists|c: int|
                0 <= c < children.len() && (#[trigger] children[c]).rid@ == owners[i].rid@
                    && children[c].rtype == owners[i].rtype) ==> owned_positions(children, owners).contains(
                i as usize,
            ),
{
    let all = Seq::new(owners.len(), |i: int| i as usize);
    let pred = |i: usize| rid_views(children).contains(owners[i as int]@);
    let out = all.filter(pred);
    assert(out == owned_positions(children, owners));
    let idx = lemma_filter_picks(all, pred);
    assert forall|k: int| 0 <= k < out.len() implies out[k] as int == idx[k] by {
        assert(0 <= idx[k] < all.len());
        assert(out[k] == all[idx[k]]);
    }
    assert forall|a: int, b: int| 0 <= a < b < out.len() implies #[trigger] out[a] < #[trigger] out[b] by {
        assert(idx[a] < idx[b]);
        assert(out[a] as int == idx[a]);
        assert(out[b] as int == idx[b]);
    }
    assert forall|k: int| 0 <= k < out.len() implies {
        &&& #[trigger] out[k] < owners.len()
        &&& exists|c: int|
            0 <= c < children.len() && (#[trigger] children[c]).rid@ == owners[out[k] as int].rid@
                && children[c].rtype == owners[out[k] as int].rtype
    } by {
        let j = idx[k];
        assert(0 <= j < all.len());
        assert(out[k] as int == j);
        assert(all[j] == out[k]);
        assert(idx.contains(j));
        assert(pred(all[j]));
        lemma_rid_views_contains(children, owners[j].rid@, owners[j].rtype);
    }
    assert forall|i: int|
        #![trigger owners[i]]
        0 <= i < owners.len() && (exists|c: int|
            0 <= c < children.len() && (#[trigger] children[c]).rid@ == owners[i].rid@
                && children[c].rtype == owners[i].rtype) implies out.contains(i as usize) by {
        lemma_rid_views_contains(children, owners[i].rid@, owners[i].rtype);
        assert(all[i] == i as usize);
        assert(pred(all[i]));
        assert(idx.contains(i));
        let k = choose|k: int| 0 <= k < idx.len() && idx[k] == i;
        assert(out[k] as int == i);
    }
}

/// A zone selects exactly its children among the bridge's devices, each once
/// and in the bridge's order: the result is the bridge's devices at strictly
/// increasing positions, and those positions are exactly the ones whose
/// device some child names (same id, type device).
pub proof fn lemma_child_devices(children: Seq<ResourceIdentifier>, devices: Seq<Device>)
    ensures
        exists|idx: Seq<int>|
            {
                &&& #[trigger] picked_from(devices, child_devices(children, devices), idx)
                &&& forall|j: int|
                    0 <= j < devices.len() ==> (idx.contains(j) <==> exists|c: int|
                        0 <= c < children.len() && (#[trigger] children[c]).rid@ == (
                        #[trigger] devices[j]).data.id@ && children[c].rtype == ResourceType::Device)
            },
{
    let pred = |d: Device| rid_views(children).contains(d.spec_rid()@);
    let idx = lemma_filter_picks(devices, pred);
    assert(devices.filter(pred) == child_devices(children, devices));
    assert forall|j: int| 0 <= j < devices.len() implies (idx.contains(j) <==> exists|c: int|
        0 <= c < children.len() && (#[trigger] children[c]).rid@ == (#[trigger] devices[j]).data.id@
            && children[c].rtype == ResourceType::Device) by {
        assert(pred(devices[j]) <==> idx.contains(j));
        lemma_rid_views_contains(children, devices[j].data.id@, ResourceType::Device);
    }
    assert(picked_from(devices, child_devices(children, devices), idx));
}

/// A zone selects exactly its own scenes among the bridge's scenes, each once
/// and in the bridge's order: the result is the bridge's scenes at strictly
/// increasing positions, and those positions are exactly the ones whose
/// scene's group is `owner` (same id and type).
pub proof fn lemma_scenes_of(owner: ResourceIdentifier, scenes: Seq<Scene>)
    ensures
        exists|idx: Seq<int>|
            {
                &&& #[trigger] picked_from(scenes, scenes_of(owner, scenes), idx)
                &&& forall|j: int|
                    0 <= j < scenes.len() ==> (idx.contains(j) <==> ((#[trigger] scenes[j]).data.group.rid@
                        == owner.rid@ && scenes[j].data.group.rtype == owner.rtype))
            },
{
    let pred = |s: Scene| s.data.group@ == owner@;
    let idx = lemma_filter_picks(scenes, pred);
    assert(scenes.filter(pred) == scenes_of(owner, scenes));
    assert forall|j: int| 0 <= j < scenes.len() implies (idx.contains(j) <==> ((#[trigger] scenes[j]).data.group.rid@
        == owner.rid@ && scenes[j].data.group.rtype == owner.rtype)) by {
        assert(pred(scenes[j]) <==> idx.contains(j));
    }
    assert(picked_from(scenes, scenes_of(owner, scenes), idx));
}

/// A zone, a room and the home each name themselves by their own id, with
/// the type zone, room and bridge home respectively.
pub proof fn lemma_rid_kinds(zone: ZoneData, room: Room, home: HomeData)
    ensures
        zone.spec_rid().rid == zone.id,
        zone.spec_rid().rtype == ResourceType::Zone,
        room.spec_rid().rid == room.spec_data().id,
        room.spec_rid().rtype == ResourceType::Room,
        home.spec_rid().rid == home.id,
        home.spec_rid().rtype == ResourceType::BridgeHome,
{
}

/// A zone and a room made from the same data never share a scene: a scene
/// belongs to the zone or to the room, not both.
pub proof fn lemma_zone_room_scenes_disjoint(data: ZoneData, room: Room, scenes: Seq<Scene>, s: Scene)
    requires
        room.spec_data() == data,
    ensures
        !(scenes_of(data.spec_rid(), scenes).contains(s) && scenes_of(room.spec_rid(), scenes).contains(s)),
{
    broadcast use vstd::seq_lib::group_filter_ensures;
    let zs = scenes_of(data.spec_rid(), scenes);
    let rs = scenes_of(room.spec_rid(), scenes);
    if zs.contains(s) && rs.contains(s) {
        let a = choose|a: int| 0 <= a < zs.len() && zs[a] == s;
        let b = choose|b: int| 0 <= b < rs.len() && rs[b] == s;
        assert(zs[a].data.group@ == data.spec_rid()@);
        assert(rs[b].data.group@ == room.spec_rid()@);
        assert(false);
    }
}

/// The group of a zone is a group of the bridge that one of the zone's
/// services of type group names; a zone has a group exactly when it has such
/// a service (and that service names a group of the bridge).
pub proof fn lemma_zone_group(services: Seq<ResourceIdentifier>, groups: Seq<Group>)
    requires
        group_resolvable(services, groups),
    ensures
        zone_group(services, groups) is Some <==> exists|k: int|
            0 <= k < services.len() && (#[trigger] services[k]).rtype == ResourceType::Group,
        zone_group(services, groups) matches Some(g) ==> {
            &&& groups.contains(g)
            &&& rid_views(services).contains(g.spec_rid()@)
        },
        zone_group(services, groups) matches Some(g) ==> exists|k: int, j: int|
            {
                &&& 0 <= k < services.len()
                &&& (#[trigger] services[k]).rtype == ResourceType::Group
                &&& forall|i: int| 0 <= i < k ==> services[i].rtype != ResourceType::Group
                &&& 0 <= j < groups.len()
                &&& #[trigger] groups[j] == g
                &&& g.data.id@ == services[k].rid@
                &&& forall|i: int| 0 <= i < j ==> groups[i].data.id@ != services[k].rid@
            },
{
    if exists|k: int| 0 <= k < services.len() && (#[trigger] services[k]).rtype == ResourceType::Group {
        let k0 = choose|k: int| 0 <= k < services.len() && (#[trigger] services[k]).rtype == ResourceType::Group;
        lemma_first_group_service_exists(services, k0);
        let k = choose|k: int| is_first_group_service(services, k);
        lemma_first_group_service(services, k);
        let r = services[k];
        let j0 = choose|j: int| 0 <= j < groups.len() && groups[j].spec_rid()@ == r@;
        lemma_first_group_named_exists(groups, r, j0);
        let j = choose|j: int| is_first_group_named(groups, r, j);
        lemma_first_group_named(groups, r, j);
        assert(groups[j].spec_rid()@ == r@);
        assert(rid_views(services)[k] == r@);
        assert(groups.contains(groups[j]));
        assert forall|i: int| 0 <= i < j implies groups[i].data.id@ != services[k].rid@ by {
            assert(groups[i].spec_rid()@ != r@);
        }
        assert(groups[j] == zone_group(services, groups)->Some_0);
    } else {
        lemma_no_group_service(services);
    }
}

proof fn lemma_first_group_service_exists(services: Seq<ResourceIdentifier>, k0: int)
    requires
        0 <= k0 < services.len(),
        services[k0].rtype == ResourceType::Group,
    ensures
        exists|k: int| is_first_group_service(services, k),
    decreases k0,
{
    if forall|i: int| 0 <= i < k0 ==> services[i].rtype != ResourceType::Group {
        assert(is_first_group_service(services, k0));
    } else {
        let i = choose|i: int| 0 <= i < k0 && services[i].rtype == ResourceType::Group;
        lemma_first_group_service_exists(services, i);
    }
}

proof fn lemma_first_group_named_exists(groups: Seq<Group>, rid: ResourceIdentifier, j0: int)
    requires
        0 <= j0 < groups.len(),
        groups[j0].spec_rid()@ == rid@,
    ensures
        exists|j: int| is_first_group_named(groups, rid, j),
    decreases j0,
{
    if forall|i: int| 0 <= i < j0 ==> groups[i].spec_rid()@ != rid@ {
        assert(is_first_group_named(groups, rid, j0));
    } else {
        let i = choose|i: int| 0 <= i < j0 && groups[i].spec_rid()@ == rid@;
        lemma_first_group_named_exists(groups, rid, i);
    }
}

// ---------------------------------------------------------------------------
// Data types
// ---------------------------------------------------------------------------

/// Possible archetypes of a zone.
#[derive(Copy, Clone, Debug, PartialEq, Eq, Structural, Hash)]
pub enum ZoneArchetype {
    Attic,
    Balcony,
    Barbecue,
    Bathroom,
    Bedroom,
    Carport,
    Closet,
    Computer,
    Dining,
    Downstairs,
    Driveway,
    FrontDoor,
    Garage,
    Garden,
    GuestRoom,
    Gym,
    Hallway,
    Home,
    KidsBedroom,
    Kitchen,
    LaundryRoom,
    LivingRoom,
    Lounge,
    ManCave,
    Music,
    Nursery,
    Office,
    Pool,
    Porch,
    Reading,
    Recreation,
    Staircase,
    Storage,
    Studio,
    Terrace,
    Toilet,
    TopFloor,
    Tv,
    Upstairs,
    Other,
}

/// Configuration for a zone object.
#[derive(Clone, Debug)]
pub struct ZoneMetadata {
    /// Human readable name of a resource.
    pub name: String,
    /// Possible archetypes of a zone.
    pub archetype: ZoneArchetype,
}

/// Internal representation of a [Zone] or [Room].
#[derive(Clone, Debug)]
pub struct ZoneData {
    /// Unique identifier representing a specific resource instance.
    pub id: String,
    /// Clip v1 resource identifier.
    pub id_v1: Option<String>,
    /// Child devices/services to group by the derived group.
    pub children: Vec<ResourceIdentifier>,
    /// References all services aggregating control and state of children in the group.
    ///
    /// Supported `rtype`: [ResourceType::Group]
    pub services: Vec<ResourceIdentifier>,
    /// Configuration for a zone object.
    pub metadata: ZoneMetadata,
}

impl ZoneData {
    /// The identifier under which other resources refer to this zone.
    pub open spec fn spec_rid(&self) -> ResourceIdentifier {
        ResourceIdentifier { rid: self.id, rtype: ResourceType::Zone }
    }

    pub fn rid(&self) -> (res: ResourceIdentifier)
        ensures
            res == self.spec_rid(),
            res.rid == self.id,
            res.rtype == ResourceType::Zone,
    {
        ResourceIdentifier { rid: self.id.clone(), rtype: ResourceType::Zone }
    }
}

/// A virtual device that groups services.
#[derive(Debug)]
pub struct Zone<'a> {
    bridge: &'a Bridge,
    pub data: ZoneData,
}

impl<'a> Zone<'a> {
    /// What the bridge reports of this zone.
    pub closed spec fn spec_data(&self) -> ZoneData {
        self.data
    }

    /// The bridge whose resources this zone is looked up in.
    pub closed spec fn bridge(&self) -> &'a Bridge {
        self.bridge
    }

    pub fn new(bridge: &'a Bridge, data: ZoneData) -> (res: Self)
        ensures
            res.bridge() == bridge,
            res.spec_data() == data,
    {
        Zone { bridge, data }
    }

    pub fn data(&self) -> (res: &ZoneData)
        ensures
            *res == self.spec_data(),
    {
        &self.data
    }

    pub fn id(&self) -> (res: &str)
        ensures
            res@ == self.spec_data().id@,
    {
        self.data.id.as_str()
    }

    pub fn rid(&self) -> (res: ResourceIdentifier)
        ensures
            res == self.spec_data().spec_rid(),
            res.rid == self.spec_data().id,
            res.rtype == ResourceType::Zone,
    {
        self.data.rid()
    }

    pub fn name(&self) -> (res: &str)
        ensures
            res@ == self.spec_data().metadata.name@,
    {
        self.data.metadata.name.as_str()
    }

    pub fn archetype(&self) -> (res: ZoneArchetype)
        ensures
            res == self.spec_data().metadata.archetype,
    {
        self.data.metadata.archetype
    }

    /// The bridge's devices that are children of this zone, in the bridge's order.
    pub fn devices(&self) -> (res: Vec<Device>)
        ensures
            res@ == child_devices(self.spec_data().children@, self.bridge().devices@),
            exists|idx: Seq<int>|
                {
                    &&& #[trigger] picked_from(self.bridge().devices@, res@, idx)
                    &&& forall|j: int|
                        0 <= j < self.bridge().devices@.len() ==> (idx.contains(j) <==> exists|c: int|
                            0 <= c < self.spec_data().children@.len() && (
                            #[trigger] self.spec_data().children@[c]).rid@ == (
                            #[trigger] self.bridge().devices@[j]).data.id@
                                && self.spec_data().children@[c].rtype == ResourceType::Device)
                },
    {
        let res = select_child_devices(&self.data.children, &self.bridge.devices);
        proof {
            lemma_child_devices(self.data.children@, self.bridge.devices@);
        }
        res
    }

    /// The lights of this zone: given the owners of the bridge's lights, in
    /// the bridge's order, the positions of those lights whose owner is one of
    /// the zone's children.
    pub fn lights(&self, light_owners: &Vec<ResourceIdentifier>) -> (res: Vec<usize>)
        ensures
            res@ == owned_positions(self.spec_data().children@, light_owners@),
            forall|a: int, b: int| 0 <= a < b < res@.len() ==> #[trigger] res@[a] < #[trigger] res@[b],
            forall|k: int|
                0 <= k < res@.len() ==> {
                    &&& #[trigger] res@[k] < light_owners@.len()
                    &&& exists|c: int|
                        0 <= c < self.spec_data().children@.len() && (
                        #[trigger] self.spec_data().children@[c]).rid@ == light_owners@[res@[k] as int].rid@
                            && self.spec_data().children@[c].rtype == light_owners@[res@[k] as int].rtype
                },
            forall|i: int|
                #![trigger light_owners@[i]]
                0 <= i < light_owners@.len() && (exists|c: int|
                    0 <= c < self.spec_data().children@.len() && (
                    #[trigger] self.spec_data().children@[c]).rid@ == light_owners@[i].rid@
                        && self.spec_data().children@[c].rtype == light_owners@[i].rtype) ==> res@.contains(
                    i as usize,
                ),
    {
        let n = light_owners.len();
        let res = select_owned(&self.data.children, light_owners);
        proof {
            lemma_owned_positions(self.data.children@, light_owners@);
        }
        res
    }

    /// The bridge's scenes that belong to this zone, in the bridge's order.
    pub fn scenes(&self) -> (res: Vec<Scene>)
        ensures
            res@ == scenes_of(self.spec_data().spec_rid(), self.bridge().scenes@),
            exists|idx: Seq<int>|
                {
                    &&& #[trigger] picked_from(self.bridge().scenes@, res@, idx)
                    &&& forall|j: int|
                        0 <= j < self.bridge().scenes@.len() ==> (idx.contains(j) <==> ((
                        #[trigger] self.bridge().scenes@[j]).data.group.rid@ == self.spec_data().id@
                            && self.bridge().scenes@[j].data.group.rtype == ResourceType::Zone))
                },
    {
        let rid = self.rid();
        let res = select_scenes(&rid, &self.bridge.scenes);
        proof {
            lemma_scenes_of(rid, self.bridge.scenes@);
        }
        res
    }

    /// The group that aggregates this zone's lights: the bridge's group named by
    /// the first of the zone's services whose type is group. That service, if
    /// there is one, must name a group of the bridge.
    pub fn group(&self) -> (res: Option<Group>)
        requires
            group_resolvable(self.spec_data().services@, self.bridge().groups@),
        ensures
            res == zone_group(self.spec_data().services@, self.bridge().groups@),
            res is Some <==> exists|k: int|
                0 <= k < self.spec_data().services@.len() && (#[trigger] self.spec_data().services@[k]).rtype
                    == ResourceType::Group,
            res matches Some(g) ==> exists|k: int, j: int|
                {
                    &&& 0 <= k < self.spec_data().services@.len()
                    &&& (#[trigger] self.spec_data().services@[k]).rtype == ResourceType::Group
                    &&& forall|i: int|
                        0 <= i < k ==> self.spec_data().services@[i].rtype != ResourceType::Group
                    &&& 0 <= j < self.bridge().groups@.len()
                    &&& #[trigger] self.bridge().groups@[j] == g
                    &&& g.data.id@ == self.spec_data().services@[k].rid@
                    &&& forall|i: int|
                        0 <= i < j ==> self.bridge().groups@[i].data.id@ != self.spec_data().services@[k].rid@
                },
    {
        proof {
            lemma_zone_group(self.data.services@, self.bridge.groups@);
        }
        find_group(&self.data.services, &self.bridge.groups)
    }

    /// A builder for a new zone with this name and archetype.
    pub fn builder(name: String, archetype: ZoneArchetype) -> (res: ZoneBuilder)
        ensures
            res.metadata.name == name,
            res.metadata.archetype == archetype,
            res.children@.len() == 0,
    {
        ZoneBuilder::new(name, archetype)
    }
}

/// A virtual device that groups services in physical proximity.
#[derive(Debug, Clone)]
pub struct Room<'a> {
    bridge: &'a Bridge,
    pub data: ZoneData,
}

impl<'a> Room<'a> {
    /// What the bridge reports of this room.
    pub closed spec fn spec_data(&self) -> ZoneData {
        self.data
    }

    /// The bridge whose resources this room is looked up in.
    pub closed spec fn bridge(&self) -> &'a Bridge {
        self.bridge
    }

    /// The identifier under which other resources refer to this room.
    pub open spec fn spec_rid(&self) -> ResourceIdentifier {
        ResourceIdentifier { rid: self.spec_data().id, rtype: ResourceType::Room }
    }

    pub fn new(bridge: &'a Bridge, data: ZoneData) -> (res: Self)
        ensures
            res.bridge() == bridge,
            res.spec_data() == data,
    {
        Room { bridge, data }
    }

    pub fn data(&self) -> (res: &ZoneData)
        ensures
            *res == self.spec_data(),
    {
        &self.data
    }

    pub fn id(&self) -> (res: &str)
        ensures
            res@ == self.spec_data().id@,
    {
        self.data.id.as_str()
    }

    pub fn rid(&self) -> (res: ResourceIdentifier)
        ensures
            res == self.spec_rid(),
            res.rid == self.spec_data().id,
            res.rtype == ResourceType::Room,
    {
        ResourceIdentifier { rid: self.data.id.clone(), rtype: ResourceType::Room }
    }

    pub fn name(&self) -> (res: &str)
        ensures
            res@ == self.spec_data().metadata.name@,
    {
        self.data.metadata.name.as_str()
    }

    pub fn archetype(&self) -> (res: ZoneArchetype)
        ensures
            res == self.spec_data().metadata.archetype,
    {
        self.data.metadata.archetype
    }

    /// The bridge's devices that are children of this room, in the bridge's order.
    pub fn devices(&self) -> (res: Vec<Device>)
        ensures
            res@ == child_devices(self.spec_data().children@, self.bridge().devices@),
            exists|idx: Seq<int>|
                {
                    &&& #[trigger] picked_from(self.bridge().devices@, res@, idx)
                    &&& forall|j: int|
                        0 <= j < self.bridge().devices@.len() ==> (idx.contains(j) <==> exists|c: int|
                            0 <= c < self.spec_data().children@.len() && (
                            #[trigger] self.spec_data().children@[c]).rid@ == (
                            #[trigger] self.bridge().devices@[j]).data.id@
                                && self.spec_data().children@[c].rtype == ResourceType::Device)
                },
    {
        let res = select_child_devices(&self.data.children, &self.bridge.devices);
        proof {
            lemma_child_devices(self.data.children@, self.bridge.devices@);
        }
        res
    }

    /// The lights of this room: given the owners of the bridge's lights, in
    /// the bridge's order, the positions of those lights whose owner is one of
    /// the room's children.
    pub fn lights(&self, light_owners: &Vec<ResourceIdentifier>) -> (res: Vec<usize>)
        ensures
            res@ == owned_positions(self.spec_data().children@, light_owners@),
            forall|a: int, b: int| 0 <= a < b < res@.len() ==> #[trigger] res@[a] < #[trigger] res@[b],
            forall|k: int|
                0 <= k < res@.len() ==> {
                    &&& #[trigger] res@[k] < light_owners@.len()
                    &&& exists|c: int|
                        0 <= c < self.spec_data().children@.len() && (
                        #[trigger] self.spec_data().children@[c]).rid@ == light_owners@[res@[k] as int].rid@
                            && self.spec_data().children@[c].rtype == light_owners@[res@[k] as int].rtype
                },
            forall|i: int|
                #![trigger light_owners@[i]]
                0 <= i < light_owners@.len() && (exists|c: int|
                    0 <= c < self.spec_data().children@.len() && (
                    #[trigger] self.spec_data().children@[c]).rid@ == light_owners@[i].rid@
                        && self.spec_data().children@[c].rtype == light_owners@[i].rtype) ==> res@.contains(
                    i as usize,
                ),
    {
        let n = light_owners.len();
        let res = select_owned(&self.data.children, light_owners);
        proof {
            lemma_owned_positions(self.data.children@, light_owners@);
        }
        res
    }

    /// The bridge's scenes that belong to this room, in the bridge's order.
    pub fn scenes(&self) -> (res: Vec<Scene>)
        ensures
            res@ == scenes_of(self.spec_rid(), self.bridge().scenes@),
            exists|idx: Seq<int>|
                {
                    &&& #[trigger] picked_from(self.bridge().scenes@, res@, idx)
                    &&& forall|j: int|
                        0 <= j < self.bridge().scenes@.len() ==> (idx.contains(j) <==> ((
                        #[trigger] self.bridge().scenes@[j]).data.group.rid@ == self.spec_data().id@
                            && self.bridge().scenes@[j].data.group.rtype == ResourceType::Room))
                },
    {
        let rid = self.rid();
        let res = select_scenes(&rid, &self.bridge.scenes);
        proof {
            lemma_scenes_of(rid, self.bridge.scenes@);
        }
        res
    }

    /// The group that aggregates this room's lights: the bridge's group named by
    /// the first of the room's services whose type is group. That service, if
    /// there is one, must name a group of the bridge.
    pub fn group(&self) -> (res: Option<Group>)
        requires
            group_resolvable(self.spec_data().services@, self.bridge().groups@),
        ensures
            res == zone_group(self.spec_data().services@, self.bridge().groups@),
            res is Some <==> exists|k: int|
                0 <= k < self.spec_data().services@.len() && (#[trigger] self.spec_data().services@[k]).rtype
                    == ResourceType::Group,
            res matches Some(g) ==> exists|k: int, j: int|
                {
                    &&& 0 <= k < self.spec_data().services@.len()
                    &&& (#[trigger] self.spec_data().services@[k]).rtype == ResourceType::Group
                    &&& forall|i: int|
                        0 <= i < k ==> self.spec_data().services@[i].rtype != ResourceType::Group
                    &&& 0 <= j < self.bridge().groups@.len()
                    &&& #[trigger] self.bridge().groups@[j] == g
                    &&& g.data.id@ == self.spec_data().services@[k].rid@
                    &&& forall|i: int|
                        0 <= i < j ==> self.bridge().groups@[i].data.id@ != self.spec_data().services@[k].rid@
                },
    {
        proof {
            lemma_zone_group(self.data.services@, self.bridge.groups@);
        }
        find_group(&self.data.services, &self.bridge.groups)
    }

    /// A builder for a new room with this name and archetype.
    pub fn builder(name: String, archetype: ZoneArchetype) -> (res: ZoneBuilder)
        ensures
            res.metadata.name == name,
            res.metadata.archetype == archetype,
            res.children@.len() == 0,
    {
        ZoneBuilder::new(name, archetype)
    }
}

/// The description of a zone or room to be created.
#[derive(Debug)]
pub struct ZoneBuilder {
    pub metadata: ZoneMetadata,
    pub children: Vec<ResourceIdentifier>,
}

impl ZoneBuilder {
    pub fn new(name: String, archetype: ZoneArchetype) -> (res: Self)
        ensures
            res.metadata.name == name,
            res.metadata.archetype == archetype,
            res.children@.len() == 0,
    {
        ZoneBuilder { metadata: ZoneMetadata { name, archetype }, children: Vec::new() }
    }

    /// The same builder with these children.
    pub fn children(self, children: Vec<ResourceIdentifier>) -> (res: Self)
        ensures
            res.metadata == self.metadata,
            res.children == children,
    {
        let mut b = self;
        b.children = children;
        b
    }
}

/// A virtual device representing the full tree of devices and services on the
/// Hue Bridge.
#[derive(Debug)]
pub struct Home {
    data: HomeData,
}

impl Home {
    /// What the bridge reports of the home.
    pub closed spec fn spec_data(&self) -> HomeData {
        self.data
    }

    pub fn new(data: HomeData) -> (res: Self)
        ensures
            res.spec_data() == data,
    {
        Home { data }
    }

    pub fn data(&self) -> (res: &HomeData)
        ensures
            *res == self.spec_data(),
    {
        &self.data
    }

    pub fn id(&self) -> (res: &str)
        ensures
            res@ == self.spec_data().id@,
    {
        self.data.id.as_str()
    }

    pub fn rid(&self) -> (res: ResourceIdentifier)
        ensures
            res == self.spec_data().spec_rid(),
            res.rid == self.spec_data().id,
            res.rtype == ResourceType::BridgeHome,
    {
        self.data.rid()
    }
}

/// Internal representation of a [Home].
#[derive(Clone, Debug)]
pub struct HomeData {
    /// Unique identifier representing a specific resource instance.
    pub id: String,
    /// Clip v1 resource identifier.
    pub id_v1: Option<String>,
    /// Child devices/services to group by the derived group.
    pub children: Vec<ResourceIdentifier>,
    /// References all services aggregating control and state of children in the group.
    ///
    /// Supported `rtype`: [ResourceType::Group]
    pub services: Vec<ResourceIdentifier>,
}

impl HomeData {
    /// The identifier under which other resources refer to the home.
    pub open spec fn spec_rid(&self) -> ResourceIdentifier {
        ResourceIdentifier { rid: self.id, rtype: ResourceType::BridgeHome }
    }

    pub fn rid(&self) -> (res: ResourceIdentifier)
        ensures
            res == self.spec_rid(),
            res.rid == self.id,
            res.rtype == ResourceType::BridgeHome,
    {
        ResourceIdentifier { rid: self.id.clone(), rtype: ResourceType::BridgeHome }
    }
}

} // verus!
