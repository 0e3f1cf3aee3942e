//! The members of an instance against the members of its class: an
//! instance implements only what the class declares, each member once, and
//! every member that has no default implementation.

use crate::ir::class::find_member;
use crate::ir::class::member_named;
use crate::ir::class::Class;
use crate::ir::class::ClassMemberId;
use crate::ir::class::Instance;
use crate::ir::class::InstanceMember;
use crate::ir::function::FunctionId;
use crate::ir::function::FunctionInfo;
use crate::ir::program::Declarations;
use crate::ir::program::Program;
use crate::location_info::LocationId;
use crate::name_resolution::error::member_errors;
use crate::name_resolution::error::MemberErrorModel;
use crate::name_resolution::error::ResolverError;
use crate::util::str_equal;
use vstd::prelude::*;

verus! {

/// Whether one of the first `upto` entries stands under `name`.
pub open spec fn named_before<T>(members: Seq<(String, T)>, name: Seq<char>, upto: int) -> bool {
    exists|k: int| 0 <= k < upto && k < members.len() && (#[trigger] members[k]).0@ == name
}

/// The place of a named function; `fallback` for what is no named function
/// of the program.
pub open spec fn member_place(program: Declarations, id: FunctionId, fallback: LocationId) -> LocationId {
    if program.functions.contains(id.id) {
        match program.functions.item(id.id).info {
            FunctionInfo::NamedFunction(info) => info.location_id,
            _ => fallback,
        }
    } else {
        fallback
    }
}

/// Whether the class member has a default implementation.
pub open spec fn has_default(program: Declarations, id: ClassMemberId) -> bool {
    program.class_members.contains(id.id) && program.class_members.item(
        id.id,
    ).default_implementation.is_some()
}

/// The errors of what an instance implements from position `from` on,
/// behind `found`: for each entry, in order, that its name is no member of
/// the class, then that an entry before it has the same name.
pub open spec fn implemented_errors(
    program: Declarations,
    class: Class,
    instance: Instance,
    from: int,
    found: Seq<MemberErrorModel>,
) -> Seq<MemberErrorModel>
    decreases instance.members@.len() - from,
{
    if from < 0 || from >= instance.members@.len() {
        found
    } else {
        let name = instance.members@[from].0@;
        let place = member_place(program, instance.members@[from].1.function_id, instance.location_id);
        let found1 = if member_named(class.members@, name).is_none() {
            found.push(MemberErrorModel::NotAClassMember(name, class.name@, place))
        } else {
            found
        };
        let found2 = if named_before(instance.members@, name, from) {
            found1.push(MemberErrorModel::ImplementedMultipleTimes(name, place))
        } else {
            found1
        };
        implemented_errors(program, class, instance, from + 1, found2)
    }
}

/// The errors of the members of a class from position `from` on, behind
/// `found`: one for each member without a default implementation that the
/// instance does not implement.
pub open spec fn missing_errors(
    program: Declarations,
    class: Class,
    instance: Instance,
    from: int,
    found: Seq<MemberErrorModel>,
) -> Seq<MemberErrorModel>
    decreases class.members@.len() - from,
{
    if from < 0 || from >= class.members@.len() {
        found
    } else {
        let name = class.members@[from].0@;
        missing_errors(
            program,
            class,
            instance,
            from + 1,
            if !has_default(program, class.members@[from].1) && member_named(
                instance.members@,
                name,
            ).is_none() {
                found.push(MemberErrorModel::Missing(name, class.name@, instance.location_id))
            } else {
                found
            },
        )
    }
}

/// The errors of the members of an instance: those of its implementations,
/// then those of the members that it lacks. An instance of a class that
/// the program does not have has none.
pub open spec fn instance_errors(program: Declarations, instance: Instance) -> Seq<MemberErrorModel> {
    if program.classes.contains(instance.class_id.id) {
        let class = program.classes.item(instance.class_id.id);
        missing_errors(
            program,
            class,
            instance,
            0,
            implemented_errors(program, class, instance, 0, Seq::empty()),
        )
    } else {
        Seq::empty()
    }
}

/// The errors of the members of the instances of a program from position
/// `from` on, behind `found`, in the order of the instances.
pub open spec fn program_errors(program: Declarations, from: int, found: Seq<MemberErrorModel>) -> Seq<
    MemberErrorModel,
>
    decreases program.instances.allocated() - from,
{
    if from < 0 || from >= program.instances.allocated() {
        found
    } else if program.instances.contains(from as usize) {
        program_errors(
            program,
            from + 1,
            found + instance_errors(program, program.instances.item(from as usize)),
        )
    } else {
        program_errors(program, from + 1, found)
    }
}

/// Adds an error to a list of errors.
fn push_error(errors: &mut Vec<ResolverError>, error: ResolverError)
    ensures
        member_errors(final(errors)@) == member_errors(old(errors)@).push(error.member_error()),
{
    errors.push(error);
    assert(member_errors(errors@) =~= member_errors(old(errors)@).push(error.member_error()));
}

/// Whether one of the first `upto` implementations stands under `name`.
fn implemented_before(members: &Vec<(String, InstanceMember)>, name: &str, upto: usize) -> (r: bool)
    requires
        upto <= members@.len(),
    ensures
        r == named_before(members@, name@, upto as int),
{
    let mut k: usize = 0;
    while k < upto
        invariant
            k <= upto,
            upto <= members@.len(),
            !named_before(members@, name@, k as int),
        decreases upto - k,
    {
        if str_equal(members[k].0.as_str(), name) {
            assert(members@[k as int].0@ == name@);
            return true;
        }
        assert forall|q: int| 0 <= q < k + 1 && q < members@.len() implies (#[trigger] members@[q]).0@
            != name@ by {
            if q < k {
                assert(!named_before(members@, name@, k as int));
            }
        }
        k = k + 1;
    }
    false
}

/// The place of a named function.
fn place_of(program: &Program, id: FunctionId, fallback: LocationId) -> (r: LocationId)
    ensures
        r == member_place(program.declarations(), id, fallback),
{
    match program.functions.get(id.id) {
        Some(function) => match &function.info {
            FunctionInfo::NamedFunction(info) => info.location_id,
            _ => fallback,
        },
        None => fallback,
    }
}

/// Checks the members of an instance against the members of its class.
#[verifier::loop_isolation(false)]
pub fn check_instance_members(program: &Program, instance: &Instance, errors: &mut Vec<ResolverError>)
    ensures
        member_errors(final(errors)@) == member_errors(old(errors)@) + instance_errors(
            program.declarations(),
            *instance,
        ),
{
    let ghost d = program.declarations();
    let ghost start = member_errors(errors@);
    let class = match program.classes.get(instance.class_id.id) {
        Some(class) => class,
        None => {
            assert(start + Seq::<MemberErrorModel>::empty() =~= start);
            return ;
        },
    };
    let mut found: Vec<ResolverError> = Vec::new();
    assert(member_errors(found@) =~= Seq::<MemberErrorModel>::empty());
    let mut i: usize = 0;
    while i < instance.members.len()
        invariant
            i <= instance.members@.len(),
            implemented_errors(d, *class, *instance, 0, Seq::empty()) == implemented_errors(
                d,
                *class,
                *instance,
                i as int,
                member_errors(found@),
            ),
        decreases instance.members@.len() - i,
    {
        let name = instance.members[i].0.as_str();
        let place = place_of(program, instance.members[i].1.function_id, instance.location_id);
        if find_member(&class.members, name).is_none() {
            push_error(
                &mut found,
                ResolverError::NotAClassMember(
                    instance.members[i].0.clone(),
                    class.name.clone(),
                    place,
                ),
            );
        }
        if implemented_before(&instance.members, name, i) {
            push_error(
                &mut found,
                ResolverError::ClassMemberImplementedMultipleTimes(instance.members[i].0.clone(), place),
            );
        }
        i = i + 1;
    }
    let mut j: usize = 0;
    while j < class.members.len()
        invariant
            j <= class.members@.len(),
            instance_errors(d, *instance) == missing_errors(
                d,
                *class,
                *instance,
                j as int,
                member_errors(found@),
            ),
        decreases class.members@.len() - j,
    {
        let has_default = match program.class_members.get(class.members[j].1.id) {
            Some(member) => member.default_implementation.is_some(),
            None => false,
        };
        if !has_default && find_member(&instance.members, class.members[j].0.as_str()).is_none() {
            push_error(
                &mut found,
                ResolverError::MissingClassMemberInInstance(
                    class.members[j].0.clone(),
                    class.name.clone(),
                    instance.location_id,
                ),
            );
        }
        j = j + 1;
    }
    let ghost all = member_errors(found@);
    errors.append(&mut found);
    assert(member_errors(errors@) =~= start + all);
}

/// Checks the members of every instance of a program, in the order of the
/// instances.
#[verifier::loop_isolation(false)]
pub fn check_instances(program: &Program) -> (errors: Vec<ResolverError>)
    ensures
        member_errors(errors@) == program_errors(program.declarations(), 0, Seq::empty()),
{
    let mut errors: Vec<ResolverError> = Vec::new();
    assert(member_errors(errors@) =~= Seq::<MemberErrorModel>::empty());
    let mut i: usize = 0;
    while i < program.instances.len()
        invariant
            i <= program.instances.allocated(),
            program_errors(program.declarations(), 0, Seq::empty()) == program_errors(
                program.declarations(),
                i as int,
                member_errors(errors@),
            ),
        decreases program.instances.allocated() - i,
    {
        match program.instances.get(i) {
            Some(instance) => {
                check_instance_members(program, instance, &mut errors);
            },
            None => {},
        }
        i = i + 1;
    }
    errors
}

} // verus!
