//! Classes, class members and instances.

use crate::ir::function::FunctionId;
use crate::ir::type_signature::TypeSignatureId;
use crate::location_info::LocationId;
use crate::util::str_equal;
use vstd::prelude::*;

verus! {

#[derive(Debug, Clone, Copy, PartialEq, Eq, PartialOrd, Ord, Structural)]
pub struct ClassId {
    pub id: usize,
}

#[derive(Debug, Clone, Copy, PartialEq, Eq, PartialOrd, Ord, Structural)]
pub struct ClassMemberId {
    pub id: usize,
}

#[derive(Debug, Clone, Copy, PartialEq, Eq, PartialOrd, Ord, Structural)]
pub struct InstanceId {
    pub id: usize,
}

/// A class: its members in declaration order, each by name, and the classes
/// that its one type argument must belong to as well.
#[derive(Debug, Clone)]
pub struct Class {
    pub id: ClassId,
    pub name: String,
    /// The index by which the signatures of the members refer to the
    /// class's type argument.
    pub type_arg: usize,
    pub members: Vec<(String, ClassMemberId)>,
    pub constraints: Vec<ClassId>,
    pub location_id: LocationId,
}

/// One operation that a class declares.
#[derive(Debug, Clone)]
pub struct ClassMember {
    pub id: ClassMemberId,
    pub class_id: ClassId,
    pub name: String,
    pub type_signature: TypeSignatureId,
    pub default_implementation: Option<FunctionId>,
    pub location_id: LocationId,
}

/// The function that implements one member in an instance.
#[derive(Debug, Clone, Copy, PartialEq, Eq, Structural)]
pub struct InstanceMember {
    pub function_id: FunctionId,
}

/// An instance of a class at a head type, with the members it implements.
#[derive(Debug, Clone)]
pub struct Instance {
    pub id: InstanceId,
    pub class_id: ClassId,
    pub type_signature: TypeSignatureId,
    pub members: Vec<(String, InstanceMember)>,
    pub location_id: LocationId,
}

/// The first entry of `members` under `name`.
pub open spec fn member_named<T>(members: Seq<(String, T)>, name: Seq<char>) -> Option<T>
    decreases members.len(),
{
    if members.len() == 0 {
        None
    } else if members[0].0@ == name {
        Some(members[0].1)
    } else {
        member_named(members.drop_first(), name)
    }
}

/// Looks `name` up in a list of named entries: the first entry under it.
pub fn find_member<T: Copy>(members: &Vec<(String, T)>, name: &str) -> (r: Option<T>)
    ensures
        r == member_named(members@, name@),
{
    let mut i: usize = 0;
    assert(members@.subrange(0, members.len() as int) =~= members@);
    while i < members.len()
        invariant
            i <= members.len(),
            member_named(members@, name@) == member_named(
                members@.subrange(i as int, members.len() as int),
                name@,
            ),
        decreases members.len() - i,
    {
        let ghost rest = members@.subrange(i as int, members.len() as int);
        assert(rest.drop_first() =~= members@.subrange(i + 1, members.len() as int));
        if str_equal(members[i].0.as_str(), name) {
            return Some(members[i].1);
        }
        i = i + 1;
    }
    None
}

impl Class {
    /// The member of the class that is called `name`.
    pub fn get_member(&self, name: &str) -> (r: Option<ClassMemberId>)
        ensures
            r == member_named(self.members@, name@),
    {
        find_member(&self.members, name)
    }
}

impl Instance {
    /// The implementation that the instance gives of the member called `name`.
    pub fn get_member(&self, name: &str) -> (r: Option<InstanceMember>)
        ensures
            r == member_named(self.members@, name@),
    {
        find_member(&self.members, name)
    }
}

} // verus!
