use vstd::prelude::*;

verus! {

/// The kind of resource that a [`ResourceIdentifier`] points at.
#[derive(Clone, Copy, Debug, PartialEq, Eq, Structural, Hash)]
pub enum ResourceType {
    AuthV1,
    BehaviorInstance,
    BehaviorScript,
    Bridge,
    BridgeHome,
    Button,
    Device,
    DevicePower,
    Entertainment,
    EntertainmentConfiguration,
    Geofence,
    GeofenceClient,
    Geolocation,
    Group,
    Homekit,
    Light,
    LightLevel,
    Motion,
    PublicImage,
    RelativeRotary,
    Room,
    Scene,
    SmartScene,
    Temperature,
    ZgpConnectivity,
    ZigbeeConnectivity,
    ZigbeeDeviceDiscovery,
    Zone,
}

/// A reference to another resource: its unique id and its type.
#[derive(Clone, Debug)]
pub struct ResourceIdentifier {
    /// Unique identifier of the referenced resource.
    pub rid: String,
    /// Type of the referenced resource.
    pub rtype: ResourceType,
}

impl View for ResourceIdentifier {
    type V = (Seq<char>, ResourceType);

    open spec fn view(&self) -> (Seq<char>, ResourceType) {
        (self.rid@, self.rtype)
    }
}

impl ResourceIdentifier {
    /// Builds an identifier from an id and a type.
    pub fn new(rid: String, rtype: ResourceType) -> (res: Self)
        ensures
            res.rid == rid,
            res.rtype == rtype,
    {
        ResourceIdentifier { rid, rtype }
    }

    /// A copy of this identifier, equal to it field by field.
    pub fn duplicate(&self) -> (res: Self)
        ensures
            res == *self,
    {
        ResourceIdentifier { rid: self.rid.clone(), rtype: self.rtype }
    }
}

impl PartialEq for ResourceIdentifier {
    fn eq(&self, other: &Self) -> (res: bool) {
        self.rtype == other.rtype && self.rid == other.rid
    }
}

impl vstd::std_specs::cmp::PartialEqSpecImpl for ResourceIdentifier {
    open spec fn obeys_eq_spec() -> bool {
        true
    }

    open spec fn eq_spec(&self, other: &ResourceIdentifier) -> bool {
        self@ == other@
    }
}

/// The views of a sequence of identifiers.
pub open spec fn rid_views(s: Seq<ResourceIdentifier>) -> Seq<(Seq<char>, ResourceType)> {
    s.map_values(|r: ResourceIdentifier| r@)
}

/// Whether `v` holds an identifier equal to `target`.
pub fn contains_rid(v: &Vec<ResourceIdentifier>, target: &ResourceIdentifier) -> (res: bool)
    ensures
        res == rid_views(v@).contains(target@),
        res <==> exists|i: int|
            0 <= i < v@.len() && (#[trigger] v@[i]).rid@ == target.rid@ && v@[i].rtype == target.rtype,
{
    let mut i: usize = 0;
    while i < v.len()
        invariant
            0 <= i <= v.len(),
            forall|j: int| 0 <= j < i ==> v@[j]@ != target@,
        decreases v.len() - i,
    {
        if v[i] == *target {
            assert(rid_views(v@)[i as int] == target@);
            assert(v@[i as int].rid@ == target.rid@);
            return true;
        }
        i += 1;
    }
    proof {
        if rid_views(v@).contains(target@) {
            let k = choose|k: int| 0 <= k < rid_views(v@).len() && rid_views(v@)[k] == target@;
            assert(v@[k]@ == target@);
        }
    }
    false
}

} // verus!
