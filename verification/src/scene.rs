use vstd::prelude::*;
use crate::resource::{ResourceIdentifier, ResourceType};

verus! {

/// What the bridge reports of a scene.
#[derive(Clone, Debug)]
pub struct SceneData {
    /// Unique identifier representing a specific resource instance.
    pub id: String,
    /// The zone or room that the scene belongs to.
    pub group: ResourceIdentifier,
}

/// A scene stored on the bridge.
#[derive(Clone, Debug)]
pub struct Scene {
    pub data: SceneData,
}

impl Scene {
    pub fn new(data: SceneData) -> (res: Self)
        ensures
            res.data == data,
    {
        Scene { data }
    }

    pub fn data(&self) -> (res: &SceneData)
        ensures
            *res == self.data,
    {
        &self.data
    }

    pub fn id(&self) -> (res: &str)
        ensures
            res@ == self.data.id@,
    {
        self.data.id.as_str()
    }

    /// The identifier under which other resources refer to this scene.
    pub fn rid(&self) -> (res: ResourceIdentifier)
        ensures
            res == (ResourceIdentifier { rid: self.data.id, rtype: ResourceType::Scene }),
    {
        ResourceIdentifier { rid: self.data.id.clone(), rtype: ResourceType::Scene }
    }

    /// The zone or room that this scene belongs to.
    pub fn group(&self) -> (res: ResourceIdentifier)
        ensures
            res == self.data.group,
    {
        self.data.group.duplicate()
    }

    /// A copy of this scene, equal to it field by field.
    pub fn duplicate(&self) -> (res: Self)
        ensures
            res == *self,
    {
        Scene { data: SceneData { id: self.data.id.clone(), group: self.data.group.duplicate() } }
    }
}

} // verus!
