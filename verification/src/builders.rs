//! Builder for a tag about to be persisted.

use vstd::prelude::*;

verus! {

/// The fields of a tag to create: its name, its content and the identifier
/// of the member who owns it.
#[derive(Clone, Debug)]
pub struct CreateTag {
    pub name: String,
    pub content: String,
    pub owner: u64,
}

impl CreateTag {
    /// A builder carrying the given fields.
    pub fn new(name: &str, content: &str, owner: u64) -> (r: CreateTag)
        ensures
            r.name@ == name@,
            r.content@ == content@,
            r.owner == owner,
    {
        CreateTag { name: String::from_str(name), content: String::from_str(content), owner }
    }

    /// Replace the name.
    pub fn name(self, name: &str) -> (r: CreateTag)
        ensures
            r.name@ == name@,
            r.content == self.content,
            r.owner == self.owner,
    {
        CreateTag { name: String::from_str(name), ..self }
    }

    /// Replace the content.
    pub fn content(self, content: &str) -> (r: CreateTag)
        ensures
            r.content@ == content@,
            r.name == self.name,
            r.owner == self.owner,
    {
        CreateTag { content: String::from_str(content), ..self }
    }

    /// Replace the owner.
    pub fn owner(self, owner: u64) -> (r: CreateTag)
        ensures
            r.owner == owner,
            r.name == self.name,
            r.content == self.content,
    {
        CreateTag { owner, ..self }
    }
}

} // verus!
