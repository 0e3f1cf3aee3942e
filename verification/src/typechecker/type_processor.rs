//! Type synthesis: the schematic types of functions, constructors and class
//! members, made from their type signatures.

use crate::ir::class::ClassId;
use crate::ir::class::ClassMemberId;
use crate::ir::data::Adt;
use crate::ir::data::Record;
use crate::ir::data::TypeDef;
use crate::ir::function::FunctionId;
use crate::ir::function::FunctionInfo;
use crate::ir::program::Declarations;
use crate::ir::program::Program;
use crate::ir::type_signature::TypeSignature;
use crate::ir::type_signature::TypeSignatureId;
use crate::ir::type_var_generator::TypeVarGenerator;
use crate::ir::types::copy_class_ids;
use crate::ir::types::type_models;
use crate::ir::types::Type;
use crate::ir::types::TypeModel;
use crate::location_info::LocationId;
use crate::typechecker::common::copy_types;
use crate::typechecker::common::rename_index;
use crate::typechecker::common::ClassMemberTypeInfo;
use crate::typechecker::common::FunctionTypeInfo;
use crate::typechecker::common::FunctionTypeInfoModel;
use vstd::prelude::*;

verus! {

/// The schematic type that a type signature stands for, the renaming, and
/// the next fresh index. A type argument gives a rigid variable, the same
/// one for the same argument under the renaming `map`; a wildcard gives a
/// fresh free variable. There is none where the signature refers to a
/// signature that the program lacks, is that of a variant, nests deeper
/// than `depth`, or needs more fresh indices than are left.
pub open spec fn signature_type(
    program: Declarations,
    id: TypeSignatureId,
    map: Seq<(usize, usize)>,
    next: nat,
    depth: nat,
) -> Option<(TypeModel, Seq<(usize, usize)>, nat)>
    decreases depth, 0nat, 0nat,
{
    if depth == 0 || !program.type_signatures.contains(id.id) {
        None
    } else {
        let inner = (depth - 1) as nat;
        match program.type_signatures.item(id.id).item {
            TypeSignature::Tuple(items) => match signature_types(
                program,
                items@,
                0,
                Seq::empty(),
                map,
                next,
                inner,
            ) {
                Some((types, m, n)) => Some((TypeModel::Tuple(types), m, n)),
                None => None,
            },
            TypeSignature::Function(from, to) => match signature_type(
                program,
                from,
                map,
                next,
                inner,
            ) {
                Some((f, m1, n1)) => match signature_type(program, to, m1, n1, inner) {
                    Some((t, m2, n2)) => Some(
                        (TypeModel::Function(Box::new(f), Box::new(t)), m2, n2),
                    ),
                    None => None,
                },
                None => None,
            },
            TypeSignature::TypeArgument(index, name, constraints) => match rename_index(
                index,
                map,
                next,
            ) {
                Some((fresh, m, n)) => Some((TypeModel::FixedVar(fresh, name@, constraints@), m, n)),
                None => None,
            },
            TypeSignature::Named(name, typedef_id, items) => match signature_types(
                program,
                items@,
                0,
                Seq::empty(),
                map,
                next,
                inner,
            ) {
                Some((types, m, n)) => Some((TypeModel::Named(name@, typedef_id, types), m, n)),
                None => None,
            },
            TypeSignature::Variant(_, _) => None,
            TypeSignature::Wildcard => if next >= usize::MAX {
                None
            } else {
                Some((TypeModel::Var(next as usize, Seq::empty()), map, next + 1))
            },
        }
    }
}

/// `types`, then the schematic types of the signatures of `ids` from
/// position `from` on.
pub open spec fn signature_types(
    program: Declarations,
    ids: Seq<TypeSignatureId>,
    from: int,
    types: Seq<TypeModel>,
    map: Seq<(usize, usize)>,
    next: nat,
    depth: nat,
) -> Option<(Seq<TypeModel>, Seq<(usize, usize)>, nat)>
    decreases depth, 1nat, ids.len() - from,
{
    if 0 <= from < ids.len() {
        match signature_type(program, ids[from], map, next, depth) {
            Some((ty, m, n)) => signature_types(program, ids, from + 1, types.push(ty), m, n, depth),
            None => None,
        }
    } else {
        Some((types, map, next))
    }
}

/// The curried function type from the argument types from position `from`
/// on to the result type.
pub open spec fn curried(args: Seq<TypeModel>, from: int, result: TypeModel) -> TypeModel
    decreases args.len() - from,
{
    if 0 <= from < args.len() {
        TypeModel::Function(Box::new(args[from]), Box::new(curried(args, from + 1, result)))
    } else {
        result
    }
}

/// `count` fresh free variables without constraints, from index `next` on.
pub open spec fn fresh_vars(next: nat, count: nat) -> Seq<TypeModel> {
    Seq::new(count, |i: int| TypeModel::Var((next + i) as usize, Seq::empty()))
}

/// The type information of a function of `arg_count` arguments without a
/// signature: a fresh variable for each argument and for the result.
pub open spec fn general_info(
    displayed_name: Seq<char>,
    arg_count: nat,
    body: Option<crate::ir::expr::ExprId>,
    location_id: LocationId,
    next: nat,
) -> Option<(FunctionTypeInfoModel, nat)> {
    if next + arg_count >= usize::MAX {
        None
    } else {
        let args = fresh_vars(next, arg_count);
        let result = TypeModel::Var((next + arg_count) as usize, Seq::empty());
        Some(
            (
                FunctionTypeInfoModel {
                    displayed_name,
                    args,
                    typed: false,
                    result,
                    function_type: curried(args, 0, result),
                    body,
                    location_id,
                },
                next + arg_count + 1,
            ),
        )
    }
}

/// The curried function type from the argument types to the result type.
pub fn function_type_from(args: &Vec<Type>, result: &Type) -> (r: Type)
    ensures
        r@ == curried(type_models(args@), 0, result@),
{
    let mut r = result.copy();
    let mut i: usize = args.len();
    while i > 0
        invariant
            i <= args.len(),
            r@ == curried(type_models(args@), i as int, result@),
        decreases i,
    {
        i = i - 1;
        r = Type::Function(Box::new(args[i].copy()), Box::new(r));
    }
    r
}

/// The type information of a function of `arg_count` arguments without a
/// signature.
pub fn create_general_function_type(
    displayed_name: String,
    arg_count: usize,
    body: Option<crate::ir::expr::ExprId>,
    location_id: LocationId,
    generator: &mut TypeVarGenerator,
) -> (r: Option<FunctionTypeInfo>)
    ensures
        match general_info(
            displayed_name@,
            arg_count as nat,
            body,
            location_id,
            old(generator).next_index(),
        ) {
            Some((info, next)) => r.is_some() && r.unwrap()@ == info && final(generator).next_index() == next,
            None => r.is_none(),
        },
{
    let start = generator.peek();
    if arg_count >= usize::MAX - start {
        return None;
    }
    let mut args: Vec<Type> = Vec::new();
    let mut i: usize = 0;
    while i < arg_count
        invariant
            i <= arg_count,
            start + arg_count < usize::MAX,
            generator.next_index() == start + i,
            args.len() == i,
            forall|k: int|
                0 <= k < i ==> (#[trigger] args@[k])@ == TypeModel::Var(
                    (start + k) as usize,
                    Seq::empty(),
                ),
        decreases arg_count - i,
    {
        let index = generator.get_new_index().unwrap();
        args.push(Type::Var(index, Vec::new()));
        i = i + 1;
    }
    let index = generator.get_new_index().unwrap();
    let result = Type::Var(index, Vec::new());
    assert(type_models(args@) =~= fresh_vars(start as nat, arg_count as nat));
    let function_type = function_type_from(&args, &result);
    Some(
        FunctionTypeInfo {
            displayed_name,
            args,
            typed: false,
            result,
            function_type,
            body,
            location_id,
        },
    )
}

/// The index that stands for `index` under the renaming.
pub fn rename_one(index: usize, map: &mut Vec<(usize, usize)>, generator: &mut TypeVarGenerator) -> (r:
    Option<usize>)
    ensures
        match rename_index(index, old(map)@, old(generator).next_index()) {
            Some((fresh, m, n)) => r == Some(fresh) && final(map)@ == m && final(generator).next_index() == n,
            None => r.is_none(),
        },
{
    rename_arg(index, map, generator)
}

/// The index that stands for `index` under the renaming.
fn rename_arg(index: usize, map: &mut Vec<(usize, usize)>, generator: &mut TypeVarGenerator) -> (r:
    Option<usize>)
    ensures
        match rename_index(index, old(map)@, old(generator).next_index()) {
            Some((fresh, m, n)) => r == Some(fresh) && final(map)@ == m && final(generator).next_index() == n,
            None => r.is_none(),
        },
{
    let mut j: usize = map.len();
    assert(map@.subrange(0, j as int) =~= map@);
    while j > 0
        invariant
            j <= map.len(),
            crate::typechecker::common::renamed(map@, index)
                == crate::typechecker::common::renamed(map@.subrange(0, j as int), index),
        decreases j,
    {
        let ghost prefix = map@.subrange(0, j as int);
        assert(prefix.drop_last() =~= map@.subrange(0, j - 1));
        if map[j - 1].0 == index {
            return Some(map[j - 1].1);
        }
        j = j - 1;
    }
    match generator.get_new_index() {
        Some(fresh) => {
            map.push((index, fresh));
            Some(fresh)
        },
        None => None,
    }
}

/// The schematic type that a type signature stands for.
pub fn process_type_signature(
    type_signature_id: &TypeSignatureId,
    program: &Program,
    arg_map: &mut Vec<(usize, usize)>,
    generator: &mut TypeVarGenerator,
    depth: usize,
) -> (r: Option<Type>)
    ensures
        match signature_type(
            program.declarations(),
            *type_signature_id,
            old(arg_map)@,
            old(generator).next_index(),
            depth as nat,
        ) {
            Some((ty, m, n)) => r.is_some() && r.unwrap()@ == ty && final(arg_map)@ == m && final(generator).next_index() == n,
            None => r.is_none(),
        },
    decreases depth, 0nat, 0nat,
{
    if depth == 0 {
        return None;
    }
    let signature = match program.type_signatures.get(type_signature_id.id) {
        Some(info) => &info.item,
        None => {
            return None;
        },
    };
    match signature {
        TypeSignature::Tuple(items) => {
            match process_type_signatures(items, program, arg_map, generator, depth - 1) {
                Some(types) => Some(Type::Tuple(types)),
                None => None,
            }
        },
        TypeSignature::Function(from, to) => {
            let f = match process_type_signature(from, program, arg_map, generator, depth - 1) {
                Some(f) => f,
                None => {
                    return None;
                },
            };
            match process_type_signature(to, program, arg_map, generator, depth - 1) {
                Some(t) => Some(Type::Function(Box::new(f), Box::new(t))),
                None => None,
            }
        },
        TypeSignature::TypeArgument(index, name, constraints) => {
            match rename_arg(*index, arg_map, generator) {
                Some(fresh) => Some(Type::FixedVar(fresh, name.clone(), copy_class_ids(constraints))),
                None => None,
            }
        },
        TypeSignature::Named(name, typedef_id, items) => {
            match process_type_signatures(items, program, arg_map, generator, depth - 1) {
                Some(types) => Some(Type::Named(name.clone(), *typedef_id, types)),
                None => None,
            }
        },
        TypeSignature::Variant(_, _) => None,
        TypeSignature::Wildcard => match generator.get_new_index() {
            Some(index) => Some(Type::Var(index, Vec::new())),
            None => None,
        },
    }
}

/// The schematic types of a list of type signatures.
#[verifier::loop_isolation(false)]
pub fn process_type_signatures(
    ids: &Vec<TypeSignatureId>,
    program: &Program,
    arg_map: &mut Vec<(usize, usize)>,
    generator: &mut TypeVarGenerator,
    depth: usize,
) -> (r: Option<Vec<Type>>)
    ensures
        match signature_types(
            program.declarations(),
            ids@,
            0,
            Seq::empty(),
            old(arg_map)@,
            old(generator).next_index(),
            depth as nat,
        ) {
            Some((types, m, n)) => r.is_some() && type_models(r.unwrap()@) == types && final(arg_map)@ == m && final(generator).next_index() == n,
            None => r.is_none(),
        },
    decreases depth, 1nat, ids.len(),
{
    let mut types: Vec<Type> = Vec::new();
    assert(type_models(types@) =~= Seq::<TypeModel>::empty());
    let mut i: usize = 0;
    while i < ids.len()
        invariant
            i <= ids.len(),
            signature_types(
                program.declarations(),
                ids@,
                0,
                Seq::empty(),
                old(arg_map)@,
                old(generator).next_index(),
                depth as nat,
            ) == signature_types(
                program.declarations(),
                ids@,
                i as int,
                type_models(types@),
                arg_map@,
                generator.next_index(),
                depth as nat,
            ),
        decreases ids.len() - i,
    {
        let ghost before = type_models(types@);
        match process_type_signature(&ids[i], program, arg_map, generator, depth) {
            Some(ty) => {
                types.push(ty);
                assert(type_models(types@) =~= before.push(ty@));
            },
            None => {
                return None;
            },
        }
        i = i + 1;
    }
    Some(types)
}

/// The type of a data type at its own type arguments: the named type whose
/// arguments are the variables that the renaming gives the type's arguments
/// from position `from` on, behind `args`.
pub open spec fn own_type_args(
    type_args: Seq<usize>,
    from: int,
    args: Seq<TypeModel>,
    map: Seq<(usize, usize)>,
    next: nat,
) -> Option<(Seq<TypeModel>, Seq<(usize, usize)>, nat)>
    decreases type_args.len() - from,
{
    if 0 <= from < type_args.len() {
        match rename_index(type_args[from], map, next) {
            Some((fresh, m, n)) => own_type_args(
                type_args,
                from + 1,
                args.push(TypeModel::Var(fresh, Seq::empty())),
                m,
                n,
            ),
            None => None,
        }
    } else {
        Some((args, map, next))
    }
}

/// The variables that stand for the type arguments of a data type.
fn process_type_args(
    type_args: &Vec<usize>,
    arg_map: &mut Vec<(usize, usize)>,
    generator: &mut TypeVarGenerator,
) -> (r: Option<Vec<Type>>)
    ensures
        match own_type_args(
            type_args@,
            0,
            Seq::empty(),
            old(arg_map)@,
            old(generator).next_index(),
        ) {
            Some((args, m, n)) => r.is_some() && type_models(r.unwrap()@) == args && final(arg_map)@ == m && final(generator).next_index() == n,
            None => r.is_none(),
        },
{
    let mut args: Vec<Type> = Vec::new();
    assert(type_models(args@) =~= Seq::<TypeModel>::empty());
    let mut i: usize = 0;
    while i < type_args.len()
        invariant
            i <= type_args.len(),
            own_type_args(type_args@, 0, Seq::empty(), old(arg_map)@, old(generator).next_index())
                == own_type_args(
                type_args@,
                i as int,
                type_models(args@),
                arg_map@,
                generator.next_index(),
            ),
        decreases type_args.len() - i,
    {
        let ghost before = type_models(args@);
        match rename_arg(type_args[i], arg_map, generator) {
            Some(fresh) => {
                let ty = Type::Var(fresh, Vec::new());
                args.push(ty);
                assert(type_models(args@) =~= before.push(TypeModel::Var(fresh, Seq::empty())));
            },
            None => {
                return None;
            },
        }
        i = i + 1;
    }
    Some(args)
}

/// The type of a record and the types of its fields, in order.
#[derive(Debug)]
pub struct RecordTypeInfo {
    pub record_type: Type,
    pub field_types: Vec<(Type, LocationId)>,
}

/// The type of an algebraic data type and the types of the items of one of
/// its variants, in order.
#[derive(Debug)]
pub struct VariantTypeInfo {
    pub variant_type: Type,
    pub item_types: Vec<(Type, LocationId)>,
}

/// The types of a list of types with their places.
pub open spec fn placed_models(items: Seq<(Type, LocationId)>) -> Seq<TypeModel> {
    Seq::new(items.len(), |i: int| items[i].0@)
}

/// The signatures of the fields of a record, in order.
pub open spec fn field_signatures(record: &Record) -> Seq<TypeSignatureId> {
    Seq::new(record.fields@.len(), |i: int| record.fields@[i].type_signature_id)
}

/// The signatures of the items of the variant at position `index`, in order.
pub open spec fn item_signatures(adt: &Adt, index: int) -> Seq<TypeSignatureId> {
    Seq::new(
        adt.variants@[index].items@.len(),
        |i: int| adt.variants@[index].items@[i].type_signature_id,
    )
}

/// The types of a data type's parts and of the type itself: the schematic
/// types of the signatures of the parts, and the named type at the
/// variables that stand for the type's arguments in them.
pub open spec fn data_types(
    program: Declarations,
    name: Seq<char>,
    id: crate::ir::data::TypeDefId,
    type_args: Seq<usize>,
    parts: Seq<TypeSignatureId>,
    next: nat,
    depth: nat,
) -> Option<(TypeModel, Seq<TypeModel>, nat)> {
    match signature_types(program, parts, 0, Seq::empty(), Seq::empty(), next, depth) {
        Some((types, m, n)) => match own_type_args(type_args, 0, Seq::empty(), m, n) {
            Some((args, _, n2)) => Some((TypeModel::Named(name, id, args), types, n2)),
            None => None,
        },
        None => None,
    }
}

/// The place of a type signature; the place 0 where the program lacks it.
pub open spec fn signature_place(program: Declarations, id: TypeSignatureId) -> LocationId {
    if program.type_signatures.contains(id.id) {
        program.type_signatures.item(id.id).location_id
    } else {
        LocationId { id: 0 }
    }
}

/// Pairs each type with the place of its signature.
fn place_types(types: Vec<Type>, ids: &Vec<TypeSignatureId>, program: &Program) -> (r: Vec<
    (Type, LocationId),
>)
    requires
        types@.len() == ids@.len(),
    ensures
        placed_models(r@) == type_models(types@),
        r@.len() == ids@.len(),
        forall|i: int| 0 <= i < ids@.len() ==> (#[trigger] r@[i]).1 == signature_place(program.declarations(), ids@[i]),
{
    let mut r: Vec<(Type, LocationId)> = Vec::new();
    let mut i: usize = 0;
    while i < types.len()
        invariant
            i <= types.len(),
            types@.len() == ids@.len(),
            r.len() == i,
            forall|k: int| 0 <= k < i ==> (#[trigger] r@[k]).0@ == types@[k]@,
            forall|k: int| 0 <= k < i ==> (#[trigger] r@[k]).1 == signature_place(program.declarations(), ids@[k]),
        decreases types.len() - i,
    {
        let place = match program.type_signatures.get(ids[i].id) {
            Some(info) => info.location_id,
            None => LocationId { id: 0 },
        };
        r.push((types[i].copy(), place));
        i = i + 1;
    }
    assert(placed_models(r@) =~= type_models(types@));
    r
}

/// The type information of a record.
pub fn process_record(program: &Program, record: &Record, generator: &mut TypeVarGenerator, depth: usize) -> (r:
    Option<RecordTypeInfo>)
    ensures
        match data_types(
            program.declarations(),
            record.name@,
            record.id,
            record.type_args@,
            field_signatures(record),
            old(generator).next_index(),
            depth as nat,
        ) {
            Some((record_type, field_types, next)) => r.is_some() && r.unwrap().record_type@
                == record_type && placed_models(r.unwrap().field_types@) == field_types && final(generator).next_index() == next,
            None => r.is_none(),
        },
{
    let mut ids: Vec<TypeSignatureId> = Vec::new();
    let mut i: usize = 0;
    while i < record.fields.len()
        invariant
            i <= record.fields.len(),
            ids@ == field_signatures(record).take(i as int),
        decreases record.fields.len() - i,
    {
        ids.push(record.fields[i].type_signature_id);
        assert(ids@ =~= field_signatures(record).take(i + 1));
        i = i + 1;
    }
    assert(ids@ =~= field_signatures(record));
    let mut arg_map: Vec<(usize, usize)> = Vec::new();
    let types = match process_type_signatures(&ids, program, &mut arg_map, generator, depth) {
        Some(types) => types,
        None => {
            return None;
        },
    };
    proof {
        lemma_signature_types_length(
            program.declarations(),
            ids@,
            0,
            Seq::empty(),
            Seq::empty(),
            old(generator).next_index(),
            depth as nat,
        );
    }
    let args = match process_type_args(&record.type_args, &mut arg_map, generator) {
        Some(args) => args,
        None => {
            return None;
        },
    };
    let field_types = place_types(types, &ids, program);
    Some(RecordTypeInfo { record_type: Type::Named(record.name.clone(), record.id, args), field_types })
}

/// The type information of the variant at position `index` of an algebraic
/// data type.
pub fn process_variant(
    program: &Program,
    adt: &Adt,
    index: usize,
    generator: &mut TypeVarGenerator,
    depth: usize,
) -> (r: Option<VariantTypeInfo>)
    requires
        index < adt.variants@.len(),
    ensures
        match data_types(
            program.declarations(),
            adt.name@,
            adt.id,
            adt.type_args@,
            item_signatures(adt, index as int),
            old(generator).next_index(),
            depth as nat,
        ) {
            Some((variant_type, item_types, next)) => r.is_some() && r.unwrap().variant_type@
                == variant_type && placed_models(r.unwrap().item_types@) == item_types && final(generator).next_index() == next,
            None => r.is_none(),
        },
{
    let variant = &adt.variants[index];
    let mut ids: Vec<TypeSignatureId> = Vec::new();
    let mut i: usize = 0;
    while i < variant.items.len()
        invariant
            i <= variant.items.len(),
            *variant == adt.variants@[index as int],
            ids@ == item_signatures(adt, index as int).take(i as int),
        decreases variant.items.len() - i,
    {
        ids.push(variant.items[i].type_signature_id);
        assert(ids@ =~= item_signatures(adt, index as int).take(i + 1));
        i = i + 1;
    }
    assert(ids@ =~= item_signatures(adt, index as int));
    let mut arg_map: Vec<(usize, usize)> = Vec::new();
    let types = match process_type_signatures(&ids, program, &mut arg_map, generator, depth) {
        Some(types) => types,
        None => {
            return None;
        },
    };
    proof {
        lemma_signature_types_length(
            program.declarations(),
            ids@,
            0,
            Seq::empty(),
            Seq::empty(),
            old(generator).next_index(),
            depth as nat,
        );
    }
    let args = match process_type_args(&adt.type_args, &mut arg_map, generator) {
        Some(args) => args,
        None => {
            return None;
        },
    };
    let item_types = place_types(types, &ids, program);
    Some(VariantTypeInfo { variant_type: Type::Named(adt.name.clone(), adt.id, args), item_types })
}

/// The types of a list of signatures are as many as the signatures.
pub proof fn lemma_signature_types_length(
    program: Declarations,
    ids: Seq<TypeSignatureId>,
    from: int,
    types: Seq<TypeModel>,
    map: Seq<(usize, usize)>,
    next: nat,
    depth: nat,
)
    requires
        0 <= from <= ids.len(),
    ensures
        signature_types(program, ids, from, types, map, next, depth).is_some() ==> signature_types(
            program,
            ids,
            from,
            types,
            map,
            next,
            depth,
        ).unwrap().0.len() == types.len() + ids.len() - from,
    decreases ids.len() - from,
{
    if from < ids.len() {
        match signature_type(program, ids[from], map, next, depth) {
            Some((ty, m, n)) => {
                lemma_signature_types_length(program, ids, from + 1, types.push(ty), m, n, depth);
            },
            None => {},
        }
    }
}

} // verus!
