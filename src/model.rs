use vstd::prelude::*;

verus! {

/// One member of a message definition: its declared type and its name.
#[derive(Debug, PartialEq, Clone)]
pub struct MsgMember {
    pub member_type: String,
    pub member_name: String,
}

impl MsgMember {
    pub fn default() -> (r: Self)
        ensures
            r.member_type@.len() == 0,
            r.member_name@.len() == 0,
    {
        Self { member_type: String::new(), member_name: String::new() }
    }
}

/// A message definition: its name and its members in order.
#[derive(Debug, PartialEq)]
pub struct MsgModelDefinition {
    pub name: String,
    pub members: Vec<MsgMember>,
}

impl MsgModelDefinition {
    pub fn default() -> (r: Self)
        ensures
            r.name@.len() == 0,
            r.members@.len() == 0,
    {
        MsgModelDefinition { name: String::new(), members: Vec::new() }
    }
}

} // verus!
