use vstd::prelude::*;
use crate::resource::{ResourceIdentifier, ResourceType};

verus! {

/// The product archetypes that a light or device can report.
#[derive(Clone, Copy, Debug, PartialEq, Eq, Structural, Hash)]
pub enum ProductArchetype {
    BridgeV2,
    UnknownArchetype,
    ClassicBulb,
    SultanBulb,
    FloodBulb,
    SpotBulb,
    CandleBulb,
    LusterBulb,
    PendantRound,
    PendantLong,
    CeilingRound,
    CeilingSquare,
    FloorShade,
    FloorLantern,
    TableShade,
    RecessedCeiling,
    RecessedFloor,
    SingleSpot,
    DoubleSpot,
    TableWash,
    WallLantern,
    WallShade,
    FlexibleLamp,
    GroundSpot,
    WallSpot,
    Plug,
    HueGo,
    HueLightstrip,
    HueIris,
    HueBloom,
    Bollard,
    WallWasher,
    HuePlay,
    VintageBulb,
    VintageCandleBulb,
    EllipseBulb,
    TriangleBulb,
    SmallGlobeBulb,
    LargeGlobeBulb,
    EdisonBulb,
    ChristmasTree,
    StringLight,
    HueCentris,
    HueLightstripTv,
    HueLightstripPc,
    HueTube,
    HueSigne,
    PendantSpot,
    CeilingHorizontal,
    CeilingTube,
}

/// What the bridge reports of a physical device.
#[derive(Clone, Debug)]
pub struct DeviceData {
    /// Unique identifier representing a specific resource instance.
    pub id: String,
}

/// A physical device known to the bridge.
#[derive(Clone, Debug)]
pub struct Device {
    pub data: DeviceData,
}

impl Device {
    /// The identifier under which other resources refer to this device.
    pub open spec fn spec_rid(&self) -> ResourceIdentifier {
        ResourceIdentifier { rid: self.data.id, rtype: ResourceType::Device }
    }

    pub fn new(data: DeviceData) -> (res: Self)
        ensures
            res.data == data,
    {
        Device { data }
    }

    pub fn data(&self) -> (res: &DeviceData)
        ensures
            *res == self.data,
    {
        &self.data
    }

    pub fn id(&self) -> (res: &str)
        ensures
            res@ == self.data.id@,
    {
        self.data.id.as_str()
    }

    pub fn rid(&self) -> (res: ResourceIdentifier)
        ensures
            res == self.spec_rid(),
            res.rid == self.data.id,
            res.rtype == ResourceType::Device,
    {
        ResourceIdentifier { rid: self.data.id.clone(), rtype: ResourceType::Device }
    }

    /// A copy of this device, equal to it field by field.
    pub fn duplicate(&self) -> (res: Self)
        ensures
            res == *self,
    {
        Device { data: DeviceData { id: self.data.id.clone() } }
    }
}

} // verus!
