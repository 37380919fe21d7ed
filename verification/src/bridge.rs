use vstd::prelude::*;
use crate::device::Device;
use crate::group::Group;
use crate::scene::Scene;

verus! {

/// The resources that a bridge holds: its devices, scenes and groups.
#[derive(Debug)]
pub struct Bridge {
    pub devices: Vec<Device>,
    pub scenes: Vec<Scene>,
    pub groups: Vec<Group>,
}

impl Bridge {
    pub fn new(devices: Vec<Device>, scenes: Vec<Scene>, groups: Vec<Group>) -> (res: Self)
        ensures
            res.devices@ == devices@,
            res.scenes@ == scenes@,
            res.groups@ == groups@,
    {
        Bridge { devices, scenes, groups }
    }

    /// All devices of the bridge, in the bridge's order.
    pub fn devices(&self) -> (res: Vec<Device>)
        ensures
            res@ == self.devices@,
    {
        let mut res: Vec<Device> = Vec::new();
        let mut i: usize = 0;
        while i < self.devices.len()
            invariant
                0 <= i <= self.devices.len(),
                res@ == self.devices@.take(i as int),
            decreases self.devices.len() - i,
        {
            res.push(self.devices[i].duplicate());
            i += 1;
            assert(res@ =~= self.devices@.take(i as int));
        }
        assert(self.devices@.take(i as int) =~= self.devices@);
        res
    }

    /// All scenes of the bridge, in the bridge's order.
    pub fn scenes(&self) -> (res: Vec<Scene>)
        ensures
            res@ == self.scenes@,
    {
        let mut res: Vec<Scene> = Vec::new();
        let mut i: usize = 0;
        while i < self.scenes.len()
            invariant
                0 <= i <= self.scenes.len(),
                res@ == self.scenes@.take(i as int),
            decreases self.scenes.len() - i,
        {
            res.push(self.scenes[i].duplicate());
            i += 1;
            assert(res@ =~= self.scenes@.take(i as int));
        }
        assert(self.scenes@.take(i as int) =~= self.scenes@);
        res
    }

    /// All groups of the bridge, in the bridge's order.
    pub fn groups(&self) -> (res: Vec<Group>)
        ensures
            res@ == self.groups@,
    {
        let mut res: Vec<Group> = Vec::new();
        let mut i: usize = 0;
        while i < self.groups.len()
            invariant
                0 <= i <= self.groups.len(),
                res@ == self.groups@.take(i as int),
            decreases self.groups.len() - i,
        {
            res.push(self.groups[i].duplicate());
            i += 1;
            assert(res@ =~= self.groups@.take(i as int));
        }
        assert(self.groups@.take(i as int) =~= self.groups@);
        res
    }
}

} // verus!
