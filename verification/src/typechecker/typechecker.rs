//! The type checker: type synthesis for every function, class member and
//! instance, inference group by group, and the discharge of the
//! obligations that inference left open.

use crate::constants::MAIN_FUNCTION;
use crate::constants::MAIN_MODULE;
use crate::interpreter::interpreter::get_func_arg_types;
use crate::interpreter::semantics::func_arg_types;
use crate::ir::class::ClassId;
use crate::ir::class::InstanceId;
use crate::ir::concrete::SubstitutionContext;
use crate::ir::data::TypeDef;
use crate::ir::function::FunctionId;
use crate::ir::function::FunctionInfo;
use crate::ir::program::Declarations;
use crate::ir::program::Program;
use crate::ir::type_var_generator::TypeVarGenerator;
use crate::ir::types::type_models;
use crate::ir::types::Type;
use crate::ir::types::TypeModel;
use crate::ir::unifier::ConstraintModel;
use crate::ir::unifier::SubstitutionModel;
use crate::ir::unifier::Unifier;
use crate::location_info::LocationId;
use crate::typechecker::common::copy_types;
use crate::typechecker::common::rename_index;
use crate::typechecker::common::FunctionTypeInfo;
use crate::typechecker::common::FunctionTypeInfoModel;
use crate::typechecker::common::FunctionTypeInfoStore;
use crate::typechecker::error::error_models;
use crate::typechecker::error::push_error;
use crate::typechecker::error::TypecheckError;
use crate::typechecker::error::TypecheckErrorModel;
use crate::typechecker::dependency_processor::dependency_groups;
use crate::typechecker::dependency_processor::dependency_groups_of;
use crate::typechecker::dependency_processor::group_items;
use crate::typechecker::expression_checker::DependencyGroup;
use crate::typechecker::expression_checker::ExpressionChecker;
use crate::typechecker::inference;
use crate::typechecker::instance_resolver::conflicts;
use crate::typechecker::instance_resolver::dependency_errors;
use crate::typechecker::instance_resolver::instance_check;
use crate::typechecker::instance_resolver::InstanceModel;
use crate::typechecker::instance_resolver::Resolution;
use crate::typechecker::instance_resolver::unifier_models;
use crate::typechecker::instance_resolver::InstanceResolver;
use crate::typechecker::instance_resolver::ResolutionResult;
use crate::typechecker::type_processor::create_general_function_type;
use crate::typechecker::type_processor::curried;
use crate::typechecker::type_processor::data_types;
use crate::typechecker::type_processor::field_signatures;
use crate::typechecker::type_processor::function_type_from;
use crate::typechecker::type_processor::general_info;
use crate::typechecker::type_processor::item_signatures;
use crate::typechecker::type_processor::placed_models;
use crate::typechecker::type_processor::process_record;
use crate::typechecker::type_processor::process_type_signature;
use crate::typechecker::type_processor::process_variant;
use crate::typechecker::type_processor::signature_type;
use crate::typechecker::type_store::StoreModel;
use crate::typechecker::type_store::TypeStore;
use crate::util::str_equal;
use crate::util::table_get;
use crate::util::table_insert;
use crate::typechecker::common::function_types_of;
use crate::typechecker::common::member_type_models;
use crate::typechecker::type_store::table_models;
use crate::util::ItemContainer;
use crate::typechecker::inference::Context;
use crate::ir::class::Class;
use crate::typechecker::instance_resolver::class_name;
use crate::typechecker::instance_resolver::name_of_class;
use vstd::prelude::*;

verus! {

/// The place of a function: that of a named function or a lambda; the
/// place 0 for a constructor and for a function that the program lacks.
pub open spec fn function_place(program: Declarations, id: usize) -> LocationId {
    if program.functions.contains(id) {
        match program.functions.item(id).info {
            FunctionInfo::NamedFunction(info) => info.location_id,
            FunctionInfo::Lambda(info) => info.location_id,
            _ => LocationId { id: 0 },
        }
    } else {
        LocationId { id: 0 }
    }
}

/// The type that a named function is declared with, and the next fresh
/// index: that of the class member whose default implementation it is, or
/// else that of its signature, if it has one. The outer `None` stands for
/// a declaration that gives no type: a member without a type, a signature
/// that the program lacks.
pub open spec fn declared_type(
    program: Declarations,
    members: Seq<Option<(TypeModel, TypeModel)>>,
    info: crate::ir::function::NamedFunctionInfo,
    next: nat,
    depth: nat,
) -> Option<Option<(TypeModel, nat)>> {
    match info.kind {
        crate::ir::function::NamedFunctionKind::DefaultClassMember(member_id) => match table_get(
            members,
            member_id.id,
        ) {
            Some(types) => Some(Some((types.0, next))),
            None => None,
        },
        _ => match info.type_signature {
            Some(signature) => match signature_type(program, signature, Seq::empty(), next, depth) {
                Some((ty, _, n)) => Some(Some((ty, n))),
                None => None,
            },
            None => Some(None),
        },
    }
}

/// The type information that type synthesis gives a function, and the
/// next fresh index.
///
/// - The default implementation of a class member has the type of the
///   member, with the member's own variables, so that the context of a call
///   of the member is the context of the implementation.
/// - Another named function with a signature has the type of its
///   signature; either type must have an argument type for each argument.
/// - A named function without a signature, and a lambda, has a fresh
///   variable for each argument and for the result.
/// - The constructor of a record is the function from the types of the
///   fields to the type of the record; that of a variant, from the types of
///   its items to the type of its data type.
pub open spec fn function_info(
    program: Declarations,
    members: Seq<Option<(TypeModel, TypeModel)>>,
    id: usize,
    next: nat,
    depth: nat,
) -> Option<(FunctionTypeInfoModel, nat)> {
    if !program.functions.contains(id) || program.functions.item(id).arity() > usize::MAX {
        None
    } else {
        let function = program.functions.item(id);
        match function.info {
            FunctionInfo::NamedFunction(info) => match declared_type(
                program,
                members,
                info,
                next,
                depth,
            ) {
                Some(Some((ty, n))) => {
                    let (args, result) = func_arg_types(ty, function.arity());
                    if args.len() == function.arity() {
                        Some(
                            (
                                FunctionTypeInfoModel {
                                    displayed_name: info.name@,
                                    args,
                                    typed: true,
                                    result,
                                    function_type: ty,
                                    body: info.body,
                                    location_id: info.location_id,
                                },
                                n,
                            ),
                        )
                    } else {
                        None
                    }
                },
                Some(None) => general_info(
                    info.name@,
                    function.arity(),
                    info.body,
                    info.location_id,
                    next,
                ),
                None => None,
            },
            FunctionInfo::Lambda(info) => general_info(
                info.host_info@,
                function.arity(),
                Some(info.body),
                info.location_id,
                next,
            ),
            FunctionInfo::RecordConstructor(info) => {
                if !program.typedefs.contains(info.type_id.id) {
                    None
                } else {
                    match program.typedefs.item(info.type_id.id) {
                        TypeDef::Record(record) => match data_types(
                            program,
                            record.name@,
                            record.id,
                            record.type_args@,
                            field_signatures(&record),
                            next,
                            depth,
                        ) {
                            Some((record_type, fields, n)) => Some(
                                (
                                    FunctionTypeInfoModel {
                                        displayed_name: record.name@,
                                        args: fields,
                                        typed: true,
                                        result: record_type,
                                        function_type: curried(fields, 0, record_type),
                                        body: None,
                                        location_id: record.location_id,
                                    },
                                    n,
                                ),
                            ),
                            None => None,
                        },
                        TypeDef::Adt(_) => None,
                    }
                }
            },
            FunctionInfo::VariantConstructor(info) => {
                if !program.typedefs.contains(info.type_id.id) {
                    None
                } else {
                    match program.typedefs.item(info.type_id.id) {
                        TypeDef::Adt(adt) => if info.index < adt.variants@.len() {
                            match data_types(
                                program,
                                adt.name@,
                                adt.id,
                                adt.type_args@,
                                item_signatures(&adt, info.index as int),
                                next,
                                depth,
                            ) {
                                Some((variant_type, items, n)) => Some(
                                    (
                                        FunctionTypeInfoModel {
                                            displayed_name: adt.variants@[info.index as int].name@,
                                            args: items,
                                            typed: true,
                                            result: variant_type,
                                            function_type: curried(items, 0, variant_type),
                                            body: None,
                                            location_id: LocationId { id: 0 },
                                        },
                                        n,
                                    ),
                                ),
                                None => None,
                            }
                        } else {
                            None
                        },
                        TypeDef::Record(_) => None,
                    }
                }
            },
        }
    }
}

/// The types alone of a list of types with their places.
fn plain_types(items: &Vec<(Type, LocationId)>) -> (r: Vec<Type>)
    ensures
        type_models(r@) == placed_models(items@),
{
    let mut r: Vec<Type> = Vec::new();
    let mut i: usize = 0;
    while i < items.len()
        invariant
            i <= items.len(),
            r.len() == i,
            forall|k: int| 0 <= k < i ==> (#[trigger] r@[k])@ == items@[k].0@,
        decreases items.len() - i,
    {
        r.push(items[i].0.copy());
        i = i + 1;
    }
    assert(type_models(r@) =~= placed_models(items@));
    r
}

/// The type information of one function.
pub fn process_function_type(
    program: &Program,
    members: &ItemContainer<(Type, Type)>,
    id: usize,
    generator: &mut TypeVarGenerator,
    depth: usize,
) -> (r: Option<FunctionTypeInfo>)
    ensures
        match function_info(
            program.declarations(),
            member_type_models(members.items@),
            id,
            old(generator).next_index(),
            depth as nat,
        ) {
            Some((info, next)) => r.is_some() && r.unwrap()@ == info && final(generator).next_index() == next,
            None => r.is_none() && final(generator).next_index() == old(generator).next_index(),
        },
{
    let saved = generator.copy();
    let function = match program.functions.get(id) {
        Some(f) => f,
        None => {
            return None;
        },
    };
    let arity = match function.arg_locations.len().checked_add(function.implicit_arg_count) {
        Some(n) => n,
        None => {
            return None;
        },
    };
    let result = match &function.info {
        FunctionInfo::NamedFunction(info) => {
            let declared = match info.kind {
                crate::ir::function::NamedFunctionKind::DefaultClassMember(member_id) => {
                    assert(table_get(member_type_models(members.items@), member_id.id) == (
                    match table_get(members.items@, member_id.id) {
                        Some(types) => Some((types.0@, types.1@)),
                        None => None,
                    }));
                    match members.get(member_id.id) {
                        Some(types) => Some(Some(types.0.copy())),
                        None => None,
                    }
                },
                _ => match &info.type_signature {
                    Some(signature) => {
                        let mut arg_map: Vec<(usize, usize)> = Vec::new();
                        match process_type_signature(
                            signature,
                            program,
                            &mut arg_map,
                            generator,
                            depth,
                        ) {
                            Some(ty) => Some(Some(ty)),
                            None => None,
                        }
                    },
                    None => Some(None),
                },
            };
            match declared {
                Some(Some(ty)) => {
                    let (args, result) = get_func_arg_types(&ty, arity);
                    assert(type_models(args@).len() == args@.len());
                    if args.len() == arity {
                        Some(
                            FunctionTypeInfo {
                                displayed_name: info.name.clone(),
                                args,
                                typed: true,
                                result,
                                function_type: ty,
                                body: info.body,
                                location_id: info.location_id,
                            },
                        )
                    } else {
                        None
                    }
                },
                Some(None) => create_general_function_type(
                    info.name.clone(),
                    arity,
                    info.body,
                    info.location_id,
                    generator,
                ),
                None => None,
            }
        },
        FunctionInfo::Lambda(info) => create_general_function_type(
            info.host_info.clone(),
            arity,
            Some(info.body),
            info.location_id,
            generator,
        ),
        FunctionInfo::RecordConstructor(info) => match program.typedefs.get(info.type_id.id) {
            Some(TypeDef::Record(record)) => match process_record(program, record, generator, depth) {
                Some(record_info) => {
                    let args = plain_types(&record_info.field_types);
                    let function_type = function_type_from(&args, &record_info.record_type);
                    Some(
                        FunctionTypeInfo {
                            displayed_name: record.name.clone(),
                            args,
                            typed: true,
                            result: record_info.record_type,
                            function_type,
                            body: None,
                            location_id: record.location_id,
                        },
                    )
                },
                None => None,
            },
            _ => None,
        },
        FunctionInfo::VariantConstructor(info) => match program.typedefs.get(info.type_id.id) {
            Some(TypeDef::Adt(adt)) => {
                if info.index < adt.variants.len() {
                    match process_variant(program, adt, info.index, generator, depth) {
                        Some(variant_info) => {
                            let args = plain_types(&variant_info.item_types);
                            let function_type = function_type_from(&args, &variant_info.variant_type);
                            Some(
                                FunctionTypeInfo {
                                    displayed_name: adt.variants[info.index].name.clone(),
                                    args,
                                    typed: true,
                                    result: variant_info.variant_type,
                                    function_type,
                                    body: None,
                                    location_id: LocationId { id: 0 },
                                },
                            )
                        },
                        None => None,
                    }
                } else {
                    None
                }
            },
            _ => None,
        },
    };
    if result.is_none() {
        *generator = saved;
    }
    result
}

/// The type information of the functions from position `from` on, each
/// added to `table` under its id, an error for each that type synthesis
/// gives none, and the next fresh index.
pub open spec fn function_infos(
    program: Declarations,
    members: Seq<Option<(TypeModel, TypeModel)>>,
    from: int,
    table: Seq<Option<FunctionTypeInfoModel>>,
    errors: Seq<TypecheckErrorModel>,
    next: nat,
    depth: nat,
) -> (Seq<Option<FunctionTypeInfoModel>>, Seq<TypecheckErrorModel>, nat)
    decreases program.functions.allocated() - from,
{
    if from < 0 || from >= program.functions.allocated() || from >= usize::MAX {
        (table, errors, next)
    } else if !program.functions.contains(from as usize) {
        function_infos(program, members, from + 1, table, errors, next, depth)
    } else {
        match function_info(program, members, from as usize, next, depth) {
            Some((info, n)) => function_infos(
                program,
                members,
                from + 1,
                table_insert(table, from as usize, info),
                errors,
                n,
                depth,
            ),
            None => function_infos(
                program,
                members,
                from + 1,
                table,
                errors.push(
                    TypecheckErrorModel::InvalidProgram(function_place(program, from as usize)),
                ),
                next,
                depth,
            ),
        }
    }
}

/// The place of a function.
fn get_function_place(program: &Program, id: usize) -> (r: LocationId)
    ensures
        r == function_place(program.declarations(), id),
{
    match program.functions.get(id) {
        Some(function) => match &function.info {
            FunctionInfo::NamedFunction(info) => info.location_id,
            FunctionInfo::Lambda(info) => info.location_id,
            _ => LocationId { id: 0 },
        },
        None => LocationId { id: 0 },
    }
}

/// The type information of every function of the program.
#[verifier::loop_isolation(false)]
pub fn process_functions(
    program: &Program,
    members: &ItemContainer<(Type, Type)>,
    store: &mut FunctionTypeInfoStore,
    errors: &mut Vec<TypecheckError>,
    generator: &mut TypeVarGenerator,
    depth: usize,
)
    ensures
        (final(store)@, error_models(final(errors)@), final(generator).next_index())
            == function_infos(
            program.declarations(),
            member_type_models(members.items@),
            0,
            old(store)@,
            error_models(old(errors)@),
            old(generator).next_index(),
            depth as nat,
        ),
{
    let mut i: usize = 0;
    while i < program.functions.len() && i < usize::MAX
        invariant
            i <= program.functions.allocated(),
            function_infos(
                program.declarations(),
                member_type_models(members.items@),
                0,
                old(store)@,
                error_models(old(errors)@),
                old(generator).next_index(),
                depth as nat,
            ) == function_infos(
                program.declarations(),
                member_type_models(members.items@),
                i as int,
                store@,
                error_models(errors@),
                generator.next_index(),
                depth as nat,
            ),
        decreases program.functions.allocated() - i,
    {
        if program.functions.get(i).is_some() {
            match process_function_type(program, members, i, generator, depth) {
                Some(info) => {
                    store.add(FunctionId { id: i }, info);
                },
                None => {
                    let place = get_function_place(program, i);
                    push_error(errors, TypecheckError::InvalidProgram(place));
                },
            }
        }
        i = i + 1;
    }
}

/// The types of a class member: the schematic type of its signature, and
/// the variable that stands in it for the class's type argument, with the
/// class as its constraint.
pub open spec fn class_member_info(program: Declarations, id: usize, next: nat, depth: nat) -> Option<
    (TypeModel, TypeModel, nat),
> {
    if !program.class_members.contains(id) || !program.classes.contains(
        program.class_members.item(id).class_id.id,
    ) {
        None
    } else {
        let member = program.class_members.item(id);
        let class = program.classes.item(member.class_id.id);
        match signature_type(program, member.type_signature, Seq::empty(), next, depth) {
            Some((ty, map, n)) => match rename_index(class.type_arg, map, n) {
                Some((fresh, _, n2)) => Some((ty, TypeModel::Var(fresh, seq![member.class_id]), n2)),
                None => None,
            },
            None => None,
        }
    }
}

/// The types of one class member.
pub fn process_class_member(program: &Program, id: usize, generator: &mut TypeVarGenerator, depth: usize) -> (r:
    Option<(Type, Type)>)
    ensures
        match class_member_info(program.declarations(), id, old(generator).next_index(), depth as nat) {
            Some((ty, class_arg, next)) => r.is_some() && r.unwrap().0@ == ty && r.unwrap().1@
                == class_arg && final(generator).next_index() == next,
            None => r.is_none() && final(generator).next_index() == old(generator).next_index(),
        },
{
    let saved = generator.copy();
    let member = match program.class_members.get(id) {
        Some(m) => m,
        None => {
            return None;
        },
    };
    let class = match program.classes.get(member.class_id.id) {
        Some(c) => c,
        None => {
            return None;
        },
    };
    let mut arg_map: Vec<(usize, usize)> = Vec::new();
    let ty = match process_type_signature(
        &member.type_signature,
        program,
        &mut arg_map,
        generator,
        depth,
    ) {
        Some(ty) => ty,
        None => {
            *generator = saved;
            return None;
        },
    };
    let mut type_args: Vec<usize> = Vec::new();
    type_args.push(class.type_arg);
    match crate::typechecker::type_processor::rename_one(class.type_arg, &mut arg_map, generator) {
        Some(fresh) => {
            let mut constraints: Vec<ClassId> = Vec::new();
            constraints.push(member.class_id);
            assert(constraints@ =~= seq![member.class_id]);
            Some((ty, Type::Var(fresh, constraints)))
        },
        None => {
            *generator = saved;
            None
        },
    }
}

/// Whether the program has the function `main` of module `Main`.
pub open spec fn has_main(program: Declarations, from: int) -> bool
    decreases program.functions.allocated() - from,
{
    if from < 0 || from >= program.functions.allocated() {
        false
    } else if program.functions.contains(from as usize) && (program.functions.item(
        from as usize,
    ).info matches FunctionInfo::NamedFunction(info) && info.module@ == MAIN_MODULE@ && info.name@
        == MAIN_FUNCTION@) {
        true
    } else {
        has_main(program, from + 1)
    }
}

/// The types of the class members from position `from` on, each added to
/// `table` under its id, an error for each that type synthesis gives none,
/// and the next fresh index.
pub open spec fn class_member_infos(
    program: Declarations,
    from: int,
    table: Seq<Option<(TypeModel, TypeModel)>>,
    errors: Seq<TypecheckErrorModel>,
    next: nat,
    depth: nat,
) -> (Seq<Option<(TypeModel, TypeModel)>>, Seq<TypecheckErrorModel>, nat)
    decreases program.class_members.allocated() - from,
{
    if from < 0 || from >= program.class_members.allocated() || from >= usize::MAX {
        (table, errors, next)
    } else if !program.class_members.contains(from as usize) {
        class_member_infos(program, from + 1, table, errors, next, depth)
    } else {
        match class_member_info(program, from as usize, next, depth) {
            Some((ty, class_arg, n)) => class_member_infos(
                program,
                from + 1,
                table_insert(table, from as usize, (ty, class_arg)),
                errors,
                n,
                depth,
            ),
            None => class_member_infos(
                program,
                from + 1,
                table,
                errors.push(
                    TypecheckErrorModel::InvalidProgram(
                        program.class_members.item(from as usize).location_id,
                    ),
                ),
                next,
                depth,
            ),
        }
    }
}

/// The types of every class member of the program.
#[verifier::loop_isolation(false)]
pub fn process_class_members(
    program: &Program,
    table: &mut ItemContainer<(Type, Type)>,
    errors: &mut Vec<TypecheckError>,
    generator: &mut TypeVarGenerator,
    depth: usize,
)
    ensures
        (
            member_type_models(final(table).items@),
            error_models(final(errors)@),
            final(generator).next_index(),
        ) == class_member_infos(
            program.declarations(),
            0,
            member_type_models(old(table).items@),
            error_models(old(errors)@),
            old(generator).next_index(),
            depth as nat,
        ),
{
    let mut i: usize = 0;
    while i < program.class_members.len() && i < usize::MAX
        invariant
            i <= program.class_members.allocated(),
            class_member_infos(
                program.declarations(),
                0,
                member_type_models(old(table).items@),
                error_models(old(errors)@),
                old(generator).next_index(),
                depth as nat,
            ) == class_member_infos(
                program.declarations(),
                i as int,
                member_type_models(table.items@),
                error_models(errors@),
                generator.next_index(),
                depth as nat,
            ),
        decreases program.class_members.allocated() - i,
    {
        match program.class_members.get(i) {
            Some(member) => {
                match process_class_member(program, i, generator, depth) {
                    Some(types) => {
                        let ghost before = member_type_models(table.items@);
                        let ghost entry = (types.0@, types.1@);
                        table.insert(i, types);
                        assert(member_type_models(table.items@) =~= table_insert(before, i, entry));
                    },
                    None => {
                        push_error(errors, TypecheckError::InvalidProgram(member.location_id));
                    },
                }
            },
            None => {},
        }
        i = i + 1;
    }
}

/// The instances of the program from position `from` on, behind
/// `instances`: each under its class and the base type of its head, with
/// its place and its id; an error for each instance whose signature gives
/// no type; and the next fresh index.
pub open spec fn instance_heads(
    program: Declarations,
    from: int,
    instances: Seq<InstanceModel>,
    errors: Seq<TypecheckErrorModel>,
    next: nat,
    depth: nat,
) -> (Seq<InstanceModel>, Seq<TypecheckErrorModel>, nat)
    decreases program.instances.allocated() - from,
{
    if from < 0 || from >= program.instances.allocated() {
        (instances, errors, next)
    } else if !program.instances.contains(from as usize) {
        instance_heads(program, from + 1, instances, errors, next, depth)
    } else {
        let instance = program.instances.item(from as usize);
        match signature_type(program, instance.type_signature, Seq::empty(), next, depth) {
            Some((ty, _, n)) => instance_heads(
                program,
                from + 1,
                instances.push(
                    InstanceModel {
                        class_id: instance.class_id,
                        base_type: ty.base_type(),
                        head: Some(ty),
                        place: Some(instance.location_id),
                        resolution: ResolutionResult::UserDefined(instance.id),
                    },
                ),
                errors,
                n,
                depth,
            ),
            None => instance_heads(
                program,
                from + 1,
                instances,
                errors.push(TypecheckErrorModel::InvalidProgram(instance.location_id)),
                next,
                depth,
            ),
        }
    }
}

/// Files the instances of the program with a resolver.
#[verifier::loop_isolation(false)]
pub fn add_instances(
    program: &Program,
    resolver: &mut InstanceResolver,
    errors: &mut Vec<TypecheckError>,
    generator: &mut TypeVarGenerator,
    depth: usize,
)
    ensures
        (final(resolver).instances(), error_models(final(errors)@), final(generator).next_index())
            == instance_heads(
            program.declarations(),
            0,
            old(resolver).instances(),
            error_models(old(errors)@),
            old(generator).next_index(),
            depth as nat,
        ),
        final(resolver).auto_derived_instances == old(resolver).auto_derived_instances,
        final(resolver).cache == old(resolver).cache,
{
    let mut i: usize = 0;
    while i < program.instances.len()
        invariant
            i <= program.instances.allocated(),
            resolver.auto_derived_instances == old(resolver).auto_derived_instances,
            resolver.cache == old(resolver).cache,
            instance_heads(
                program.declarations(),
                0,
                old(resolver).instances(),
                error_models(old(errors)@),
                old(generator).next_index(),
                depth as nat,
            ) == instance_heads(
                program.declarations(),
                i as int,
                resolver.instances(),
                error_models(errors@),
                generator.next_index(),
                depth as nat,
            ),
        decreases program.instances.allocated() - i,
    {
        match program.instances.get(i) {
            Some(instance) => {
                let saved = generator.copy();
                let mut arg_map: Vec<(usize, usize)> = Vec::new();
                match process_type_signature(
                    &instance.type_signature,
                    program,
                    &mut arg_map,
                    generator,
                    depth,
                ) {
                    Some(ty) => {
                        resolver.add_user_defined(
                            instance.class_id,
                            ty,
                            instance.id,
                            instance.location_id,
                        );
                    },
                    None => {
                        *generator = saved;
                        push_error(errors, TypecheckError::InvalidProgram(instance.location_id));
                    },
                }
            },
            None => {},
        }
        i = i + 1;
    }
}

/// The state after the groups from position `from` on were inferred, in
/// order.
pub open spec fn process_groups(
    program: Declarations,
    members: Seq<Option<(TypeModel, TypeModel)>>,
    groups: Seq<Seq<FunctionId>>,
    from: int,
    st: StoreModel,
    depth_limit: usize,
) -> StoreModel
    decreases groups.len() - from,
{
    if 0 <= from < groups.len() {
        process_groups(
            program,
            members,
            groups,
            from + 1,
            inference::process_group(
                Context { program, members, group: groups[from], depth_limit },
                st,
                0,
            ),
            depth_limit,
        )
    } else {
        st
    }
}

/// Infers the groups of the program, in order.
#[verifier::loop_isolation(false)]
pub fn check_groups(
    program: &Program,
    member_types: &ItemContainer<(Type, Type)>,
    groups: &Vec<DependencyGroup>,
    store: &mut TypeStore,
    depth_limit: usize,
)
    ensures
        final(store)@ == process_groups(
            program.declarations(),
            member_type_models(member_types.items@),
            group_items(groups@),
            0,
            old(store)@,
            depth_limit,
        ),
{
    let mut i: usize = 0;
    while i < groups.len()
        invariant
            i <= groups.len(),
            process_groups(
                program.declarations(),
                member_type_models(member_types.items@),
                group_items(groups@),
                0,
                old(store)@,
                depth_limit,
            ) == process_groups(
                program.declarations(),
                member_type_models(member_types.items@),
                group_items(groups@),
                i as int,
                store@,
                depth_limit,
            ),
        decreases groups.len() - i,
    {
        let checker = ExpressionChecker::new(program, member_types, &groups[i], depth_limit);
        checker.process_dep_group(store);
        i = i + 1;
    }
}

/// What discharging the obligations from position `from` on finds: a
/// missing instance, behind `errors`, for each obligation that does not
/// hold; and what the resolution has found.
pub open spec fn discharge(
    classes: ItemContainer<Class>,
    instances: Seq<InstanceModel>,
    deferred: Seq<(ConstraintModel, LocationId)>,
    from: int,
    errors: Seq<TypecheckErrorModel>,
    state: Resolution,
    depth: nat,
) -> (Seq<TypecheckErrorModel>, Resolution)
    decreases deferred.len() - from,
{
    if from < 0 || from >= deferred.len() {
        (errors, state)
    } else {
        let (ok, state1) = instance_check(
            instances,
            deferred[from].0.class_id,
            deferred[from].0.ty,
            state,
            depth,
        );
        discharge(
            classes,
            instances,
            deferred,
            from + 1,
            if ok {
                errors
            } else {
                errors.push(
                    TypecheckErrorModel::MissingInstance(
                        class_name(classes, deferred[from].0.class_id),
                        deferred[from].0.ty,
                        deferred[from].1,
                    ),
                )
            },
            state1,
            depth,
        )
    }
}

/// The state with the substitutions from position `from` on applied, in order.
pub open spec fn apply_each(st: StoreModel, subs: Seq<SubstitutionModel>, from: int, group: Seq<FunctionId>) -> StoreModel
    decreases subs.len() - from,
{
    if 0 <= from < subs.len() {
        apply_each(st.apply(subs[from], group), subs, from + 1, group)
    } else {
        st
    }
}

/// The state after the obligations that inference left open were
/// discharged, and what was resolved at concrete types: the substitutions
/// that discharging finds are applied to the types of the state, and its
/// errors are added.
pub open spec fn discharged(
    classes: ItemContainer<Class>,
    instances: Seq<InstanceModel>,
    st: StoreModel,
    cache: Seq<(ClassId, TypeModel, ResolutionResult)>,
    group: Seq<FunctionId>,
    depth: nat,
) -> (StoreModel, Seq<(ClassId, TypeModel, ResolutionResult)>) {
    let (errors, state) = discharge(
        classes,
        instances,
        st.deferred,
        0,
        st.errors,
        Resolution { found: Seq::empty(), cache, next: st.next },
        depth,
    );
    (apply_each(StoreModel { errors, next: state.next, ..st }, state.found, 0, group), state.cache)
}

/// Discharges the obligations that inference left open.
#[verifier::loop_isolation(false)]
pub fn discharge_constraints(
    classes: &ItemContainer<Class>,
    resolver: &mut InstanceResolver,
    store: &mut TypeStore,
    group: &Vec<FunctionId>,
    depth: usize,
)
    ensures
        (final(store)@, final(resolver).cache@) == discharged(
            *classes,
            old(resolver).instances(),
            old(store)@,
            old(resolver).cache@,
            group@,
            depth as nat,
        ),
        final(resolver).instance_map == old(resolver).instance_map,
        final(resolver).auto_derived_instances == old(resolver).auto_derived_instances,
{
    let ghost instances = old(resolver).instances();
    let ghost st0 = store@;
    let mut unifiers: Vec<(Unifier, LocationId)> = Vec::new();
    assert(unifier_models(unifiers@) =~= Seq::<SubstitutionModel>::empty());
    let ghost start = discharge(
        *classes,
        instances,
        st0.deferred,
        0,
        st0.errors,
        Resolution { found: Seq::empty(), cache: old(resolver).cache@, next: st0.next },
        depth as nat,
    );
    let mut i: usize = 0;
    while i < store.deferred.len()
        invariant
            i <= store.deferred.len(),
            resolver.instance_map == old(resolver).instance_map,
            resolver.auto_derived_instances == old(resolver).auto_derived_instances,
            store@ == (StoreModel { errors: store@.errors, next: store@.next, ..st0 }),
            start == discharge(
                *classes,
                instances,
                st0.deferred,
                i as int,
                store@.errors,
                resolver.resolution(unifiers@, &store.type_var_generator),
                depth as nat,
            ),
        decreases store.deferred.len() - i,
    {
        let class_id = store.deferred[i].0.class_id;
        let ty = store.deferred[i].0.ty.copy();
        let place = store.deferred[i].1;
        if !resolver.check_instance(
            class_id,
            &ty,
            place,
            &mut unifiers,
            &mut store.type_var_generator,
            depth,
        ) {
            store.add_error(
                TypecheckError::MissingInstance(name_of_class(classes, class_id), ty, place),
            );
        }
        i = i + 1;
    }
    let ghost st1 = store@;
    let mut k: usize = 0;
    while k < unifiers.len()
        invariant
            k <= unifiers.len(),
            apply_each(st1, unifier_models(unifiers@), 0, group@) == apply_each(
                store@,
                unifier_models(unifiers@),
                k as int,
                group@,
            ),
        decreases unifiers.len() - k,
    {
        store.apply(&unifiers[k].0.substitution, group);
        k = k + 1;
    }
}

/// What type synthesis makes of a program: the types of the class members
/// and of the functions, the instances, the errors found, among them the
/// conflicts of the instances and their missing dependencies, what was
/// resolved at concrete types, and the next fresh index.
pub ghost struct Synthesis {
    pub members: Seq<Option<(TypeModel, TypeModel)>>,
    pub functions: Seq<Option<FunctionTypeInfoModel>>,
    pub instances: Seq<InstanceModel>,
    pub errors: Seq<TypecheckErrorModel>,
    pub cache: Seq<(ClassId, TypeModel, ResolutionResult)>,
    pub next: nat,
}

/// Type synthesis: first the class members, then the functions, then the
/// instances, each drawing its fresh variables behind those of the one
/// before; then the conflicts of the instances, and their dependencies.
pub open spec fn synthesis(program: Declarations, depth: nat) -> Synthesis {
    let (members, errors1, next1) = class_member_infos(
        program,
        0,
        Seq::empty(),
        Seq::empty(),
        program.type_var_generator.next_index(),
        depth,
    );
    let (functions, errors2, next2) = function_infos(
        program,
        members,
        0,
        Seq::empty(),
        errors1,
        next1,
        depth,
    );
    let (instances, errors3, next3) = instance_heads(
        program,
        0,
        Seq::empty(),
        errors2,
        next2,
        depth,
    );
    let errors4 = conflicts(program.classes, instances, 0, errors3, next3);
    let (errors5, state) = dependency_errors(
        instances,
        program,
        0,
        errors4,
        Resolution { found: Seq::empty(), cache: Seq::empty(), next: next3 },
        depth,
    );
    Synthesis { members, functions, instances, errors: errors5, cache: state.cache, next: state.next }
}

/// All function ids below `count`, in order.
pub open spec fn all_functions(count: nat) -> Seq<FunctionId> {
    Seq::new(count, |i: int| FunctionId { id: i as usize })
}

/// The state at the start of inference: the types of the functions, and
/// nothing else.
pub open spec fn start_of_inference(functions: Seq<Option<FunctionTypeInfoModel>>, next: nat) -> StoreModel {
    StoreModel {
        expr_types: Seq::empty(),
        pattern_types: Seq::empty(),
        functions,
        deferred: Seq::empty(),
        next,
        errors: Seq::empty(),
    }
}

/// What inference makes of a program after type synthesis, and what was
/// resolved at concrete types: the groups are inferred in order, the
/// obligations left open are discharged, and a program without a function
/// `main` in module `Main` is an error.
pub open spec fn inferred(
    program: Declarations,
    groups: Seq<Seq<FunctionId>>,
    synthesis: Synthesis,
    depth_limit: usize,
) -> (StoreModel, Seq<(ClassId, TypeModel, ResolutionResult)>) {
    let (st, cache) = discharged(
        program.classes,
        synthesis.instances,
        process_groups(
            program,
            synthesis.members,
            groups,
            0,
            start_of_inference(synthesis.functions, synthesis.next),
            depth_limit,
        ),
        synthesis.cache,
        all_functions(program.functions.allocated()),
        depth_limit as nat,
    );
    if has_main(program, 0) {
        (st, cache)
    } else {
        (st.error(TypecheckErrorModel::MainNotFound), cache)
    }
}

/// The instances at concrete types that a cache holds, from position `from`
/// on: for each entry of a user's instance whose type is concrete, the
/// class, the concrete type and the instance.
pub open spec fn cached_instances(
    cache: Seq<(ClassId, TypeModel, ResolutionResult)>,
    from: int,
    found: Seq<(ClassId, crate::ir::concrete::ConcreteModel, InstanceId)>,
) -> Seq<(ClassId, crate::ir::concrete::ConcreteModel, InstanceId)>
    decreases cache.len() - from,
{
    if from < 0 || from >= cache.len() {
        found
    } else {
        match (cache[from].2, cache[from].1.concretize(Map::empty())) {
            (ResolutionResult::UserDefined(id), Some(concrete)) => cached_instances(
                cache,
                from + 1,
                found.push((cache[from].0, concrete, id)),
            ),
            _ => cached_instances(cache, from + 1, found),
        }
    }
}

/// The instances that a program's instance map holds, in the order they
/// were added.
pub open spec fn instance_map_models(program: &Program) -> Seq<
    (ClassId, crate::ir::concrete::ConcreteModel, InstanceId),
> {
    Seq::new(
        program.type_instance_resolver.instance_map@.len(),
        |i: int|
            (
                program.type_instance_resolver.instance_map@[i].0,
                program.type_instance_resolver.instance_map@[i].1@,
                program.type_instance_resolver.instance_map@[i].2,
            ),
    )
}

/// Whether `later` is `earlier` with what a check found attached: the
/// types of the class members, of the expressions and of the functions,
/// and the instances at the concrete types that were met. Nothing else
/// differs.
pub open spec fn types_attached(
    earlier: Program,
    later: Program,
    members: Seq<Option<(TypeModel, TypeModel)>>,
    st: StoreModel,
    cache: Seq<(ClassId, TypeModel, ResolutionResult)>,
) -> bool {
    &&& later == (Program {
        class_member_types: later.class_member_types,
        expr_types: later.expr_types,
        function_types: later.function_types,
        type_instance_resolver: later.type_instance_resolver,
        ..earlier
    })
    &&& member_type_models(later.class_member_types.items@) == members
    &&& table_models(later.expr_types.items@) == st.expr_types
    &&& table_models(later.function_types.items@) == function_types_of(st.functions)
    &&& instance_map_models(&later) == cached_instances(cache, 0, instance_map_models(&earlier))
}

/// What a check makes of a program. The errors of type synthesis end it
/// before inference, and so do the errors of inference before anything is
/// attached: both leave the program as it was. Where there is no error, the
/// types that were found are attached to the program.
pub open spec fn checked(
    before: Program,
    after: Program,
    groups: Seq<Seq<FunctionId>>,
    errors: Option<Seq<TypecheckErrorModel>>,
    depth_limit: usize,
) -> bool {
    let synthesis = synthesis(before.declarations(), depth_limit as nat);
    let (st, cache) = inferred(before.declarations(), groups, synthesis, depth_limit);
    if synthesis.errors.len() > 0 {
        errors == Some(synthesis.errors) && after == before
    } else if st.errors.len() > 0 {
        errors == Some(st.errors) && after == before
    } else {
        errors.is_none() && types_attached(before, after, synthesis.members, st, cache)
    }
}

/// A check changes nothing of what a program declares.
pub proof fn lemma_check_keeps_declarations(
    before: Program,
    after: Program,
    groups: Seq<Seq<FunctionId>>,
    errors: Option<Seq<TypecheckErrorModel>>,
    depth_limit: usize,
)
    requires
        checked(before, after, groups, errors, depth_limit),
    ensures
        after.declarations() == before.declarations(),
{
}

/// Inference is idempotent: a second check of a program that passed a
/// check passes too, and finds on every expression, function and class
/// member the type that the first check attached to it.
pub proof fn lemma_check_is_idempotent(
    first: Program,
    second: Program,
    third: Program,
    groups: Seq<Seq<FunctionId>>,
    errors: Option<Seq<TypecheckErrorModel>>,
    depth_limit: usize,
)
    requires
        checked(first, second, groups, None, depth_limit),
        checked(second, third, groups, errors, depth_limit),
    ensures
        errors.is_none(),
        table_models(third.expr_types.items@) == table_models(second.expr_types.items@),
        table_models(third.function_types.items@) == table_models(second.function_types.items@),
        member_type_models(third.class_member_types.items@) == member_type_models(
            second.class_member_types.items@,
        ),
{
    lemma_check_keeps_declarations(first, second, groups, None, depth_limit);
}

/// A second check of a program that passed a check, each with the
/// dependency groups of the program it is given, passes too, and finds on
/// every expression, function and class member the type that the first
/// check attached to it.
pub proof fn lemma_check_twice(
    first: Program,
    second: Program,
    third: Program,
    errors: Option<Seq<TypecheckErrorModel>>,
    depth_limit: usize,
)
    requires
        checked(first, second, dependency_groups_of(first.declarations()), None, depth_limit),
        checked(second, third, dependency_groups_of(second.declarations()), errors, depth_limit),
    ensures
        errors.is_none(),
        table_models(third.expr_types.items@) == table_models(second.expr_types.items@),
        table_models(third.function_types.items@) == table_models(second.function_types.items@),
        member_type_models(third.class_member_types.items@) == member_type_models(
            second.class_member_types.items@,
        ),
{
    lemma_check_keeps_declarations(
        first,
        second,
        dependency_groups_of(first.declarations()),
        None,
        depth_limit,
    );
}

/// Inference is a function of what the program declares: two checks of
/// one program give the same errors, and attach the same type to every
/// expression, function and class member.
pub proof fn lemma_check_is_determined(
    program: Program,
    first: Program,
    second: Program,
    groups: Seq<Seq<FunctionId>>,
    first_errors: Option<Seq<TypecheckErrorModel>>,
    second_errors: Option<Seq<TypecheckErrorModel>>,
    depth_limit: usize,
)
    requires
        checked(program, first, groups, first_errors, depth_limit),
        checked(program, second, groups, second_errors, depth_limit),
    ensures
        first_errors == second_errors,
        table_models(first.expr_types.items@) == table_models(second.expr_types.items@),
        table_models(first.function_types.items@) == table_models(second.function_types.items@),
        member_type_models(first.class_member_types.items@) == member_type_models(
            second.class_member_types.items@,
        ),
{
}

/// The type checker.
#[derive(Debug)]
pub struct Typechecker {}

impl Typechecker {
    pub fn new() -> Typechecker {
        Typechecker {  }
    }

    /// Reports that the program has no function `main` in module `Main`,
    /// where it has none.
    #[verifier::loop_isolation(false)]
    pub fn check_main(&self, program: &Program, errors: &mut Vec<TypecheckError>)
        ensures
            error_models(final(errors)@) == (if has_main(program.declarations(), 0) {
                error_models(old(errors)@)
            } else {
                error_models(old(errors)@).push(TypecheckErrorModel::MainNotFound)
            }),
    {
        let mut i: usize = 0;
        while i < program.functions.len()
            invariant
                i <= program.functions.allocated(),
                has_main(program.declarations(), 0) == has_main(program.declarations(), i as int),
            decreases program.functions.allocated() - i,
        {
            match program.functions.get(i) {
                Some(function) => match &function.info {
                    FunctionInfo::NamedFunction(info) => {
                        if str_equal(info.module.as_str(), MAIN_MODULE) && str_equal(
                            info.name.as_str(),
                            MAIN_FUNCTION,
                        ) {
                            return ;
                        }
                    },
                    _ => {},
                },
                None => {},
            }
            i = i + 1;
        }
        push_error(errors, TypecheckError::MainNotFound);
    }

    /// The function ids below `count`, in order.
    fn collect_functions(count: usize) -> (r: Vec<FunctionId>)
        ensures
            r@ == all_functions(count as nat),
    {
        let mut r: Vec<FunctionId> = Vec::new();
        let mut i: usize = 0;
        while i < count
            invariant
                i <= count,
                r@ == all_functions(i as nat),
            decreases count - i,
        {
            r.push(FunctionId { id: i });
            assert(r@ =~= all_functions((i + 1) as nat));
            i = i + 1;
        }
        r
    }

    /// Type synthesis: the types of the class members and of the
    /// functions; the instances, with their conflicts and missing
    /// dependencies.
    pub fn synthesize(&self, program: &Program, depth_limit: usize) -> (r: (
        ItemContainer<(Type, Type)>,
        FunctionTypeInfoStore,
        InstanceResolver,
        TypeVarGenerator,
        Vec<TypecheckError>,
    ))
        ensures
            member_type_models(r.0.items@) == synthesis(program.declarations(), depth_limit as nat).members,
            r.1@ == synthesis(program.declarations(), depth_limit as nat).functions,
            r.2.instances() == synthesis(program.declarations(), depth_limit as nat).instances,
            r.2.cache@ == synthesis(program.declarations(), depth_limit as nat).cache,
            r.3.next_index() == synthesis(program.declarations(), depth_limit as nat).next,
            error_models(r.4@) == synthesis(program.declarations(), depth_limit as nat).errors,
    {
        let mut errors: Vec<TypecheckError> = Vec::new();
        assert(error_models(errors@) =~= Seq::<TypecheckErrorModel>::empty());
        let mut generator = program.type_var_generator.copy();
        let mut member_types: ItemContainer<(Type, Type)> =
            ItemContainer::new();
        assert(member_type_models(member_types.items@) =~= Seq::<
            Option<(TypeModel, TypeModel)>,
        >::empty());
        process_class_members(program, &mut member_types, &mut errors, &mut generator, depth_limit);
        let mut store = FunctionTypeInfoStore::new();
        assert(store@ =~= Seq::<Option<FunctionTypeInfoModel>>::empty());
        process_functions(
            program,
            &member_types,
            &mut store,
            &mut errors,
            &mut generator,
            depth_limit,
        );
        let mut resolver = InstanceResolver::new();
        add_instances(program, &mut resolver, &mut errors, &mut generator, depth_limit);
        resolver.check_conflicts(&program.classes, &mut errors, &generator);
        let ghost none = Seq::<(Unifier, LocationId)>::empty();
        assert(unifier_models(none) =~= Seq::<SubstitutionModel>::empty());
        resolver.check_instance_dependencies(program, &mut errors, &mut generator, depth_limit);
        (member_types, store, resolver, generator, errors)
    }

    /// Inference: the groups are inferred in order, the obligations left
    /// open are discharged, and the function `main` is looked for.
    pub fn infer(
        &self,
        program: &Program,
        groups: &Vec<DependencyGroup>,
        member_types: &ItemContainer<(Type, Type)>,
        function_type_info_store: FunctionTypeInfoStore,
        resolver: &mut InstanceResolver,
        generator: TypeVarGenerator,
        depth_limit: usize,
    ) -> (store: TypeStore)
        ensures
            final(resolver).instance_map == old(resolver).instance_map,
            final(resolver).auto_derived_instances == old(resolver).auto_derived_instances,
            (store@, final(resolver).cache@) == inferred(
                program.declarations(),
                group_items(groups@),
                (Synthesis {
                    members: member_type_models(member_types.items@),
                    functions: function_type_info_store@,
                    instances: old(resolver).instances(),
                    errors: Seq::empty(),
                    cache: old(resolver).cache@,
                    next: generator.next_index(),
                }),
                depth_limit,
            ),
    {
        let mut store = TypeStore::new(function_type_info_store, generator);
        assert(store@.expr_types =~= Seq::empty());
        assert(store@.pattern_types =~= Seq::empty());
        assert(store@.deferred =~= Seq::empty());
        assert(store@.errors =~= Seq::empty());
        check_groups(program, member_types, groups, &mut store, depth_limit);
        let functions = Self::collect_functions(program.functions.len());
        discharge_constraints(&program.classes, resolver, &mut store, &functions, depth_limit);
        self.check_main(program, &mut store.errors);
        store
    }

    /// Attaches to the program the types that a check found: those of the
    /// class members, of the expressions and of the functions, and the
    /// instances at the concrete types that were met.
    #[verifier::loop_isolation(false)]
    pub fn save_types(
        &self,
        program: &mut Program,
        member_types: ItemContainer<(Type, Type)>,
        store: TypeStore,
        resolver: &InstanceResolver,
    )
        ensures
            types_attached(
                *old(program),
                *final(program),
                member_type_models(member_types.items@),
                store@,
                resolver.cache@,
            ),
    {
        let TypeStore {
            expr_types,
            pattern_types,
            function_type_info_store,
            deferred,
            type_var_generator,
            errors,
        } = store;
        program.class_member_types = member_types;
        program.expr_types = ItemContainer { items: expr_types };
        function_type_info_store.save_function_types(program);
        let context = SubstitutionContext::new();
        let mut j: usize = 0;
        while j < resolver.cache.items.len()
            invariant
                j <= resolver.cache.items.len(),
                context@ == Map::<usize, crate::ir::concrete::ConcreteModel>::empty(),
                *program == (Program {
                    class_member_types: program.class_member_types,
                    expr_types: program.expr_types,
                    function_types: program.function_types,
                    type_instance_resolver: program.type_instance_resolver,
                    ..*old(program)
                }),
                program.class_member_types == member_types,
                table_models(program.expr_types.items@) == store@.expr_types,
                table_models(program.function_types.items@) == function_types_of(store@.functions),
                cached_instances(resolver.cache@, 0, instance_map_models(old(program)))
                    == cached_instances(resolver.cache@, j as int, instance_map_models(program)),
            decreases resolver.cache.items.len() - j,
        {
            match resolver.cache.items[j].2 {
                ResolutionResult::UserDefined(id) => {
                    match resolver.cache.items[j].1.to_concrete_type(&context) {
                        Some(concrete) => {
                            let ghost before = instance_map_models(program);
                            let ghost entry = (resolver.cache.items@[j as int].0, concrete@, id);
                            program.type_instance_resolver.instance_map.push(
                                (resolver.cache.items[j].0, concrete, id),
                            );
                            assert(instance_map_models(program) =~= before.push(entry));
                        },
                        None => {},
                    }
                },
                ResolutionResult::AutoDerived => {},
            }
            j = j + 1;
        }
    }

    /// Checks a program with its functions grouped as given: type
    /// synthesis, then inference of the groups in the order given, then the
    /// discharge of the obligations left open. Where there is no error, the
    /// types are attached to the program. The program's own supply of type
    /// variables is left as it was, so that a second check draws the same
    /// variables.
    pub fn check_with_groups(
        &self,
        program: &mut Program,
        groups: &Vec<DependencyGroup>,
        depth_limit: usize,
    ) -> (r: Result<(), Vec<TypecheckError>>)
        ensures
            checked(
                *old(program),
                *final(program),
                group_items(groups@),
                match r {
                    Ok(()) => None,
                    Err(errors) => Some(error_models(errors@)),
                },
                depth_limit,
            ),
    {
        let (member_types, function_type_info_store, mut resolver, generator, errors) =
            self.synthesize(program, depth_limit);
        assert(error_models(errors@).len() == errors@.len());
        if errors.len() > 0 {
            return Err(errors);
        }
        let store = self.infer(
            program,
            groups,
            &member_types,
            function_type_info_store,
            &mut resolver,
            generator,
            depth_limit,
        );
        assert(error_models(store.errors@).len() == store.errors@.len());
        if store.errors.len() > 0 {
            let TypeStore {
                expr_types,
                pattern_types,
                function_type_info_store,
                deferred,
                type_var_generator,
                errors,
            } = store;
            return Err(errors);
        }
        self.save_types(program, member_types, store, &resolver);
        Ok(())
    }

    /// Checks a program: its functions are put into their dependency
    /// groups, and the program is checked with these.
    pub fn check(&self, program: &mut Program, depth_limit: usize) -> (r: Result<
        (),
        Vec<TypecheckError>,
    >)
        ensures
            checked(
                *old(program),
                *final(program),
                dependency_groups_of(old(program).declarations()),
                match r {
                    Ok(()) => None,
                    Err(errors) => Some(error_models(errors@)),
                },
                depth_limit,
            ),
    {
        let groups = dependency_groups(program);
        self.check_with_groups(program, &groups, depth_limit)
    }
}

} // verus!
