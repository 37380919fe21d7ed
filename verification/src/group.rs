use vstd::prelude::*;
use crate::resource::{ResourceIdentifier, ResourceType};

verus! {

/// What the bridge reports of a group of lights controlled together.
#[derive(Clone, Debug)]
pub struct GroupData {
    /// Unique identifier representing a specific resource instance.
    pub id: String,
}

/// A group of lights controlled together.
#[derive(Clone, Debug)]
pub struct Group {
    pub data: GroupData,
}

impl Group {
    /// The identifier under which other resources refer to this group.
    pub open spec fn spec_rid(&self) -> ResourceIdentifier {
        ResourceIdentifier { rid: self.data.id, rtype: ResourceType::Group }
    }

    pub fn new(data: GroupData) -> (res: Self)
        ensures
            res.data == data,
    {
        Group { data }
    }

    pub fn data(&self) -> (res: &GroupData)
        ensures
            *res == self.data,
    {
        &self.data
    }

    pub fn id(&self) -> (res: &str)
        ensures
            res@ == self.data.id@,
    {
        self.data.id.as_str()
    }

    pub fn rid(&self) -> (res: ResourceIdentifier)
        ensures
            res == self.spec_rid(),
            res.rid == self.data.id,
            res.rtype == ResourceType::Group,
    {
        ResourceIdentifier { rid: self.data.id.clone(), rtype: ResourceType::Group }
    }

    /// A copy of this group, equal to it field by field.
    pub fn duplicate(&self) -> (res: Self)
        ensures
            res == *self,
    {
        Group { data: GroupData { id: self.data.id.clone() } }
    }
}

} // verus!
