//! What inference makes of the state, stated over the models: the
//! obligations that each form of expression and pattern generates, and the
//! order in which the expressions and patterns of a body are visited.

use crate::constants::BOOL_MODULE_NAME;
use crate::constants::BOOL_TYPE_NAME;
use crate::constants::FLOAT_MODULE_NAME;
use crate::constants::FLOAT_TYPE_NAME;
use crate::constants::INT_MODULE_NAME;
use crate::constants::INT_TYPE_NAME;
use crate::constants::STRING_MODULE_NAME;
use crate::constants::STRING_TYPE_NAME;
use crate::interpreter::semantics::format_pieces;
use crate::ir::class::ClassMemberId;
use crate::ir::data::TypeDefId;
use crate::ir::expr::Case;
use crate::ir::expr::Expr;
use crate::ir::expr::ExprId;
use crate::ir::expr::FieldAccessInfo;
use crate::ir::expr::RecordFieldValueExpr;
use crate::ir::expr::RecordUpdateInfo;
use crate::ir::function::FunctionId;
use crate::ir::pattern::Pattern;
use crate::ir::pattern::PatternId;
use crate::ir::program::list_schematic;
use crate::ir::program::plain_schematic;
use crate::ir::types::TypeModel;
use crate::ir::unifier::empty_substitution;
use crate::ir::unifier::unify;
use crate::ir::unifier::SubstitutionModel;
use crate::location_info::LocationId;
use crate::typechecker::common::apply_to_types;
use crate::typechecker::common::duplicate_items;
use crate::util::table_get;
use crate::util::table_insert;
use crate::typechecker::error::TypecheckErrorModel;
use crate::typechecker::type_processor::curried;
use crate::typechecker::type_processor::fresh_vars;
use crate::typechecker::type_processor::signature_type;
use crate::typechecker::type_store::StoreModel;
use crate::ir::program::Declarations;
use crate::interpreter::show::digits;
use crate::typechecker::type_text::type_text;
use vstd::prelude::*;

verus! {

/// What inference reads and does not change: what the program declares,
/// the types of its class members, the group that is inferred, and the
/// depth to which expressions are walked.
pub ghost struct Context {
    pub program: Declarations,
    pub members: Seq<Option<(TypeModel, TypeModel)>>,
    pub group: Seq<FunctionId>,
    pub depth_limit: usize,
}

/// The place of an expression; the place 0 where the program lacks it.
pub open spec fn expr_place(c: Context, id: ExprId) -> LocationId {
    if c.program.exprs.contains(id.id) {
        c.program.exprs.item(id.id).location_id
    } else {
        LocationId { id: 0 }
    }
}

/// The place of a pattern; the place 0 where the program lacks it.
pub open spec fn pattern_place(c: Context, id: PatternId) -> LocationId {
    if c.program.patterns.contains(id.id) {
        c.program.patterns.item(id.id).location_id
    } else {
        LocationId { id: 0 }
    }
}

/// The empty tuple type.
pub open spec fn unit_type() -> TypeModel {
    TypeModel::Tuple(Seq::empty())
}

/// The state after the type of an expression was unified with `expected`.
pub open spec fn unify_expr(c: Context, st: StoreModel, expected: TypeModel, id: ExprId) -> (
    StoreModel,
    Option<SubstitutionModel>,
) {
    match st.expr_type(id) {
        Some(found) => st.unify(expected, found, expr_place(c, id), c.group),
        None => (st.error(TypecheckErrorModel::InvalidProgram(expr_place(c, id))), None),
    }
}

/// The state after the type of a pattern was unified with `expected`.
pub open spec fn unify_pattern(
    c: Context,
    st: StoreModel,
    expected: TypeModel,
    id: PatternId,
) -> (StoreModel, Option<SubstitutionModel>) {
    match st.pattern_type(id) {
        Some(found) => st.unify(expected, found, pattern_place(c, id), c.group),
        None => (st.error(TypecheckErrorModel::InvalidProgram(pattern_place(c, id))), None),
    }
}

/// The state after the types of two expressions were unified; an error is
/// placed at the second.
pub open spec fn unify_exprs(c: Context, st: StoreModel, first: ExprId, second: ExprId) -> StoreModel {
    match st.expr_type(first) {
        Some(expected) => unify_expr(c, st, expected, second).0,
        None => st.error(TypecheckErrorModel::InvalidProgram(expr_place(c, first))),
    }
}

/// The state after the type of an expression and that of a pattern were
/// unified; an error is placed at the pattern.
pub open spec fn unify_expr_pattern(
    c: Context,
    st: StoreModel,
    expr_id: ExprId,
    pattern_id: PatternId,
) -> StoreModel {
    match st.expr_type(expr_id) {
        Some(expected) => unify_pattern(c, st, expected, pattern_id).0,
        None => st.error(TypecheckErrorModel::InvalidProgram(expr_place(c, expr_id))),
    }
}

/// The state after the type of an expression was unified with the type
/// without arguments that `module` declares under `name`.
pub open spec fn unify_expr_named(
    c: Context,
    st: StoreModel,
    module: Seq<char>,
    name: Seq<char>,
    id: ExprId,
) -> StoreModel {
    match plain_schematic(c.program, module, name) {
        Some(ty) => unify_expr(c, st, ty, id).0,
        None => st.error(TypecheckErrorModel::InvalidProgram(expr_place(c, id))),
    }
}

/// The same of a pattern.
pub open spec fn unify_pattern_named(
    c: Context,
    st: StoreModel,
    module: Seq<char>,
    name: Seq<char>,
    id: PatternId,
) -> StoreModel {
    match plain_schematic(c.program, module, name) {
        Some(ty) => unify_pattern(c, st, ty, id).0,
        None => st.error(TypecheckErrorModel::InvalidProgram(pattern_place(c, id))),
    }
}

/// The types of a list of expressions; the empty tuple type stands for one
/// that has none.
pub open spec fn types_of(st: StoreModel, ids: Seq<ExprId>) -> Seq<TypeModel> {
    Seq::new(
        ids.len(),
        |i: int|
            match st.expr_type(ids[i]) {
                Some(ty) => ty,
                None => unit_type(),
            },
    )
}

/// The types of a list of patterns; the empty tuple type stands for one
/// that has none.
pub open spec fn pattern_types_of(st: StoreModel, ids: Seq<PatternId>) -> Seq<TypeModel> {
    Seq::new(
        ids.len(),
        |i: int|
            match st.pattern_type(ids[i]) {
                Some(ty) => ty,
                None => unit_type(),
            },
    )
}

/// A data type's own type and the types of its parts, with fresh variables
/// for their variables, the same fresh variable for a variable wherever it
/// stands in them; and the next fresh index.
pub open spec fn fresh_data(own: TypeModel, parts: Seq<TypeModel>, next: nat) -> Option<
    (TypeModel, Seq<TypeModel>, nat),
> {
    match duplicate_items(parts, 0, Seq::empty(), Seq::empty(), next) {
        Some((copies, m, n)) => match own.duplicate(m, n) {
            Some((copy, _, n2)) => Some((copy, copies, n2)),
            None => None,
        },
        None => None,
    }
}

/// A fresh instance of a record: its type and the types of its fields,
/// which are the result and the arguments of its constructor.
pub open spec fn fresh_record(c: Context, st: StoreModel, record_id: TypeDefId) -> Option<
    (TypeModel, Seq<TypeModel>, nat),
> {
    if !c.program.typedefs.contains(record_id.id) {
        None
    } else {
        match c.program.typedefs.item(record_id.id) {
            crate::ir::data::TypeDef::Record(record) => match st.function(record.constructor) {
                Some(info) => fresh_data(info.result, info.args, st.next),
                None => None,
            },
            crate::ir::data::TypeDef::Adt(_) => None,
        }
    }
}

/// A fresh instance of a variant: the type of its data type and the types
/// of its items, which are the result and the arguments of its constructor.
pub open spec fn fresh_variant(c: Context, st: StoreModel, type_id: TypeDefId, index: usize) -> Option<
    (TypeModel, Seq<TypeModel>, nat),
> {
    if !c.program.typedefs.contains(type_id.id) {
        None
    } else {
        match c.program.typedefs.item(type_id.id) {
            crate::ir::data::TypeDef::Adt(adt) => if index < adt.variants@.len() {
                match st.function(adt.variants@[index as int].constructor) {
                    Some(info) => fresh_data(info.result, info.args, st.next),
                    None => None,
                }
            } else {
                None
            },
            crate::ir::data::TypeDef::Record(_) => None,
        }
    }
}

/// The type of a function at a call: the function's own type where the
/// function is of the group that is being inferred, a copy of it with
/// fresh variables otherwise.
pub open spec fn function_type_at_call(c: Context, st: StoreModel, id: FunctionId) -> Option<
    (TypeModel, nat),
> {
    match st.function(id) {
        Some(info) => if c.group.contains(id) {
            Some((info.function_type, st.next))
        } else {
            match info.function_type.duplicate(Seq::empty(), st.next) {
                Some((copy, _, n)) => Some((copy, n)),
                None => None,
            }
        },
        None => None,
    }
}

/// The type of a class member at a call: a copy of it with fresh variables.
pub open spec fn member_type_at_call(c: Context, st: StoreModel, id: ClassMemberId) -> Option<
    (TypeModel, nat),
> {
    if 0 <= id.id < c.members.len() && c.members[id.id as int].is_some() {
        match c.members[id.id as int].unwrap().0.duplicate(Seq::empty(), st.next) {
            Some((copy, _, n)) => Some((copy, n)),
            None => None,
        }
    } else {
        None
    }
}

/// Walks a curried function type along the arguments from position `from`
/// on: the type of each argument is unified with the argument type of the
/// function type that is left, `current`. The result is the state and what
/// is left of the function type behind the last argument. Where what is
/// left is no function type, or an argument does not fit, the state has an
/// error of the arguments and the function type `function_type`, and
/// nothing is left.
pub open spec fn call_args(
    c: Context,
    st: StoreModel,
    function_type: TypeModel,
    current: TypeModel,
    args: Seq<ExprId>,
    from: int,
    expr_id: ExprId,
) -> (StoreModel, Option<TypeModel>)
    decreases args.len() - from,
{
    if from < 0 || from >= args.len() {
        (st, Some(current))
    } else {
        match (current, st.expr_type(args[from])) {
            (TypeModel::Function(arg_type, rest), Some(found)) => match unify(
                empty_substitution(),
                st.next,
                *arg_type,
                found,
            ) {
                Ok((sub, next)) => call_args(
                    c,
                    st.adopt(sub, next, expr_place(c, expr_id), c.group),
                    function_type,
                    sub.apply(*rest),
                    args,
                    from + 1,
                    expr_id,
                ),
                Err(_) => (
                    st.error(
                        TypecheckErrorModel::FunctionArgumentMismatch(
                            expr_place(c, expr_id),
                            types_of(st, args),
                            function_type,
                        ),
                    ),
                    None,
                ),
            },
            _ => (
                st.error(
                    TypecheckErrorModel::FunctionArgumentMismatch(
                        expr_place(c, expr_id),
                        types_of(st, args),
                        function_type,
                    ),
                ),
                None,
            ),
        }
    }
}

/// The state after a call of a function of type `function_type` on `args`
/// was checked: the arguments are walked, and what is left of the function
/// type is unified with the type of the call.
pub open spec fn check_call(
    c: Context,
    st: StoreModel,
    function_type: TypeModel,
    args: Seq<ExprId>,
    expr_id: ExprId,
) -> StoreModel {
    match call_args(c, st, function_type, function_type, args, 0, expr_id) {
        (st1, Some(result)) => unify_expr(c, st1, result, expr_id).0,
        (st1, None) => st1,
    }
}

/// The state after each expression of `ids` from position `from` on had its
/// type unified with that of the expression `with`.
pub open spec fn unify_each(c: Context, st: StoreModel, with: ExprId, ids: Seq<ExprId>, from: int) -> StoreModel
    decreases ids.len() - from,
{
    if 0 <= from < ids.len() {
        unify_each(c, unify_exprs(c, st, with, ids[from]), with, ids, from + 1)
    } else {
        st
    }
}

/// The state after the items of a record expression from position `from`
/// on were checked: the type of each is unified with the type of the field
/// at its position, as the unifications before made it.
pub open spec fn record_items(
    c: Context,
    st: StoreModel,
    fields: Seq<TypeModel>,
    items: Seq<RecordFieldValueExpr>,
    from: int,
    expr_id: ExprId,
) -> StoreModel
    decreases items.len() - from,
{
    if from < 0 || from >= items.len() {
        st
    } else if items[from].index >= fields.len() {
        record_items(
            c,
            st.error(TypecheckErrorModel::InvalidProgram(expr_place(c, expr_id))),
            fields,
            items,
            from + 1,
            expr_id,
        )
    } else {
        match unify_expr(c, st, fields[items[from].index as int], items[from].expr_id) {
            (st1, Some(sub)) => record_items(
                c,
                st1,
                apply_to_types(sub, fields),
                items,
                from + 1,
                expr_id,
            ),
            (st1, None) => record_items(c, st1, fields, items, from + 1, expr_id),
        }
    }
}

/// The positions, behind `found`, of the candidates from position `from` on
/// whose record, freshly instantiated, unifies with `receiver`; and the
/// next fresh index.
pub open spec fn field_candidates(
    c: Context,
    st: StoreModel,
    receiver: TypeModel,
    infos: Seq<FieldAccessInfo>,
    from: int,
    found: Seq<int>,
    next: nat,
) -> (Seq<int>, nat)
    decreases infos.len() - from,
{
    if from < 0 || from >= infos.len() {
        (found, next)
    } else {
        match fresh_record(c, StoreModel { next, ..st }, infos[from].record_id) {
            Some((record_type, _, n)) => field_candidates(
                c,
                st,
                receiver,
                infos,
                from + 1,
                if unify(empty_substitution(), n, receiver, record_type).is_ok() {
                    found.push(from)
                } else {
                    found
                },
                n,
            ),
            None => field_candidates(c, st, receiver, infos, from + 1, found, next),
        }
    }
}

/// The name of a type; the empty name for a type that the program lacks.
pub open spec fn typedef_name(program: Declarations, id: TypeDefId) -> Seq<char> {
    if program.typedefs.contains(id.id) {
        program.typedefs.item(id.id).name()
    } else {
        Seq::empty()
    }
}

/// The name of the variant at position `index` of an algebraic data type;
/// the empty name where the program has no such variant.
pub open spec fn variant_name(program: Declarations, id: TypeDefId, index: usize) -> Seq<char> {
    if program.typedefs.contains(id.id) {
        match program.typedefs.item(id.id) {
            crate::ir::data::TypeDef::Adt(adt) => if index < adt.variants@.len() {
                adt.variants@[index as int].name@
            } else {
                Seq::empty()
            },
            crate::ir::data::TypeDef::Record(_) => Seq::empty(),
        }
    } else {
        Seq::empty()
    }
}

/// The names of the records of the candidates at the positions `found`.
pub open spec fn candidate_records(program: Declarations, infos: Seq<FieldAccessInfo>, found: Seq<int>) -> Seq<
    Seq<char>,
> {
    Seq::new(found.len(), |i: int| typedef_name(program, infos[found[i]].record_id))
}

/// The position in `updates`, from `from` on, of the first update that is
/// for the record `id`.
pub open spec fn update_for(updates: Seq<RecordUpdateInfo>, id: TypeDefId, from: int) -> Option<int>
    decreases updates.len() - from,
{
    if from < 0 || from >= updates.len() {
        None
    } else if updates[from].record_id == id {
        Some(from)
    } else {
        update_for(updates, id, from + 1)
    }
}

/// The state after the cases of a case expression from position `from` on
/// were checked: the pattern of each has the type of the scrutinee, the
/// body of each the type of the case expression.
pub open spec fn check_cases(
    c: Context,
    st: StoreModel,
    scrutinee: ExprId,
    cases: Seq<Case>,
    from: int,
    expr_id: ExprId,
) -> StoreModel
    decreases cases.len() - from,
{
    if 0 <= from < cases.len() {
        check_cases(
            c,
            unify_exprs(
                c,
                unify_expr_pattern(c, st, scrutinee, cases[from].pattern_id),
                expr_id,
                cases[from].body,
            ),
            scrutinee,
            cases,
            from + 1,
            expr_id,
        )
    } else {
        st
    }
}

/// The state after the sub-patterns from position `from` on had their types
/// unified with the types at their positions in `parts`, as the
/// unifications before made them.
pub open spec fn unify_parts(
    c: Context,
    st: StoreModel,
    parts: Seq<TypeModel>,
    ids: Seq<PatternId>,
    from: int,
) -> StoreModel
    decreases ids.len() - from,
{
    if from < 0 || from >= ids.len() || from >= parts.len() {
        st
    } else {
        match unify_pattern(c, st, parts[from], ids[from]) {
            (st1, Some(sub)) => unify_parts(c, st1, apply_to_types(sub, parts), ids, from + 1),
            (st1, None) => unify_parts(c, st1, parts, ids, from + 1),
        }
    }
}

/// The obligations of a reference to an argument: its type is that of the
/// argument, which stands behind the implicit arguments unless it is a
/// captured one.
pub open spec fn visit_arg_ref(
    c: Context,
    st: StoreModel,
    arg_ref: crate::ir::expr::FunctionArgumentRef,
    expr_id: ExprId,
) -> StoreModel {
    let invalid = st.error(TypecheckErrorModel::InvalidProgram(expr_place(c, expr_id)));
    if !c.program.functions.contains(arg_ref.id.id) {
        invalid
    } else {
        let position = if arg_ref.captured {
            arg_ref.index as int
        } else {
            c.program.functions.item(arg_ref.id.id).implicit_arg_count + arg_ref.index
        };
        match st.function(arg_ref.id) {
            Some(info) => if position < info.args.len() {
                unify_expr(c, st, info.args[position], expr_id).0
            } else {
                invalid
            },
            None => invalid,
        }
    }
}

/// The obligations of a call of the value of an expression: the type of
/// the expression is unified with a function type of fresh variables, one
/// for each argument and one for the result, and the call is checked
/// against what that makes of it.
pub open spec fn visit_dynamic_call(
    c: Context,
    st: StoreModel,
    function_expr: ExprId,
    args: Seq<ExprId>,
    expr_id: ExprId,
) -> StoreModel {
    let place = expr_place(c, expr_id);
    let invalid = st.error(TypecheckErrorModel::InvalidProgram(place));
    if st.next + args.len() >= usize::MAX {
        invalid
    } else {
        let general = curried(
            fresh_vars(st.next, args.len()),
            0,
            TypeModel::Var((st.next + args.len()) as usize, Seq::empty()),
        );
        match st.expr_type(function_expr) {
            None => invalid,
            Some(found) => {
                let st1 = StoreModel { next: st.next + args.len() + 1, ..st };
                match unify(empty_substitution(), st1.next, found, general) {
                    Err(_) => st1.error(
                        TypecheckErrorModel::FunctionArgumentMismatch(
                            place,
                            types_of(st1, args),
                            found,
                        ),
                    ),
                    Ok((sub, next)) => {
                        let st2 = st1.adopt(sub, next, place, c.group);
                        check_call(c, st2, sub.apply(general), args, expr_id)
                    },
                }
            },
        }
    }
}

/// A type as the substitution of a unification makes it; the type itself
/// where the unification failed.
pub open spec fn applied(sub: Option<SubstitutionModel>, ty: TypeModel) -> TypeModel {
    match sub {
        Some(s) => s.apply(ty),
        None => ty,
    }
}

/// Each type of a list as the substitution of a unification makes it; the
/// list itself where the unification failed.
pub open spec fn applied_types(sub: Option<SubstitutionModel>, types: Seq<TypeModel>) -> Seq<TypeModel> {
    match sub {
        Some(s) => apply_to_types(s, types),
        None => types,
    }
}

/// The obligations of a list: its type is the type of lists of a fresh
/// variable, and each item has the type that the variable stands for. The
/// items are unified also where the list itself has another type.
pub open spec fn visit_list(c: Context, st: StoreModel, items: Seq<ExprId>, expr_id: ExprId) -> StoreModel {
    let invalid = st.error(TypecheckErrorModel::InvalidProgram(expr_place(c, expr_id)));
    if st.next >= usize::MAX {
        invalid
    } else {
        let item_type = TypeModel::Var(st.next as usize, Seq::empty());
        match list_schematic(c.program, item_type) {
            None => invalid,
            Some(list_type) => {
                let st1 = StoreModel { next: st.next + 1, ..st };
                let (st2, sub) = unify_expr(c, st1, list_type, expr_id);
                unify_item_types(c, st2, applied(sub, item_type), items, 0)
            },
        }
    }
}

/// What is expected of the type of a tuple of which the item at position
/// `index` is accessed.
pub open spec fn at_least_text(index: usize) -> Seq<char> {
    "<tuple with at least "@ + digits(index as nat + 1) + " item(s)>"@
}

/// The names from position `from` on, with ` or ` between them.
pub open spec fn joined_names(names: Seq<Seq<char>>, from: int) -> Seq<char>
    decreases names.len() - from,
{
    if 0 <= from < names.len() {
        (if from > 0 {
            " or "@
        } else {
            Seq::<char>::empty()
        }) + names[from] + joined_names(names, from + 1)
    } else {
        Seq::empty()
    }
}

/// The names of the records that the candidates of a field access are for.
pub open spec fn record_names(program: Declarations, infos: Seq<FieldAccessInfo>) -> Seq<Seq<char>> {
    Seq::new(infos.len(), |i: int| typedef_name(program, infos[i].record_id))
}

/// The names of the records that the updates of a record update are for.
pub open spec fn update_names(program: Declarations, updates: Seq<RecordUpdateInfo>) -> Seq<Seq<char>> {
    Seq::new(updates.len(), |i: int| typedef_name(program, updates[i].record_id))
}

/// The obligations of an access to the item at position `index` of a
/// tuple: the type of the tuple must be known to be a tuple type with an
/// item there, and the type of that item is the type of the access. Where
/// it is not, a tuple with at least `index + 1` items was expected.
pub open spec fn visit_tuple_field_access(
    c: Context,
    st: StoreModel,
    index: usize,
    tuple: ExprId,
    expr_id: ExprId,
) -> StoreModel {
    let place = expr_place(c, expr_id);
    match (st.expr_type(tuple), st.expr_type(expr_id)) {
        (Some(TypeModel::Tuple(items)), Some(expected)) => if index < items.len() {
            unify_expr(c, st, items[index as int], expr_id).0
        } else {
            st.error(
                TypecheckErrorModel::TypeMismatch(
                    place,
                    at_least_text(index),
                    type_text(TypeModel::Tuple(items)),
                ),
            )
        },
        (Some(found), Some(expected)) => st.error(
            TypecheckErrorModel::TypeMismatch(place, at_least_text(index), type_text(found)),
        ),
        _ => st.error(TypecheckErrorModel::InvalidProgram(place)),
    }
}

/// The obligations of an access to a field: of the records that can have
/// the field, exactly one must unify with the type of the receiver; then
/// the receiver has the type of that record and the access the type of
/// the field.
pub open spec fn visit_field_access(
    c: Context,
    st: StoreModel,
    infos: Seq<FieldAccessInfo>,
    receiver: ExprId,
    expr_id: ExprId,
) -> StoreModel {
    let place = expr_place(c, expr_id);
    match (st.expr_type(receiver), st.expr_type(expr_id)) {
        (Some(receiver_type), Some(expr_type)) => {
            let (found, next) = field_candidates(c, st, receiver_type, infos, 0, Seq::empty(), st.next);
            let st1 = StoreModel { next, ..st };
            if found.len() == 0 {
                st1.error(
                    TypecheckErrorModel::TypeMismatch(
                        place,
                        joined_names(record_names(c.program, infos), 0),
                        type_text(receiver_type),
                    ),
                )
            } else if found.len() > 1 {
                st1.error(
                    TypecheckErrorModel::AmbiguousFieldAccess(
                        place,
                        candidate_records(c.program, infos, found),
                    ),
                )
            } else {
                chosen_field(c, st1, infos[found[0]], receiver, expr_id)
            }
        },
        _ => st.error(TypecheckErrorModel::InvalidProgram(place)),
    }
}

/// The obligations of an access to the field that `info` names: the
/// receiver has the type of a fresh instance of the record, the access the
/// type of the field.
pub open spec fn chosen_field(
    c: Context,
    st: StoreModel,
    info: FieldAccessInfo,
    receiver: ExprId,
    expr_id: ExprId,
) -> StoreModel {
    let place = expr_place(c, expr_id);
    match fresh_record(c, st, info.record_id) {
        None => st.error(TypecheckErrorModel::InvalidProgram(place)),
        Some((record_type, fields, n)) => {
            let st2 = StoreModel { next: n, ..st };
            if info.index >= fields.len() {
                st2.error(TypecheckErrorModel::InvalidProgram(place))
            } else {
                let (st3, sub) = unify_expr(c, st2, record_type, receiver);
                unify_expr(c, st3, applied(sub, fields[info.index as int]), expr_id).0
            }
        },
    }
}

/// The obligations of a record expression: it has the type of a fresh
/// instance of the record, and each item the type of its field.
pub open spec fn visit_record_initialization(
    c: Context,
    st: StoreModel,
    type_id: TypeDefId,
    items: Seq<RecordFieldValueExpr>,
    expr_id: ExprId,
) -> StoreModel {
    match fresh_record(c, st, type_id) {
        None => st.error(TypecheckErrorModel::InvalidProgram(expr_place(c, expr_id))),
        Some((record_type, fields, n)) => {
            let (st1, sub) = unify_expr(c, StoreModel { next: n, ..st }, record_type, expr_id);
            record_items(c, st1, applied_types(sub, fields), items, 0, expr_id)
        },
    }
}

/// The obligations of a record update: the type of the record must be
/// known to name a record that one of the updates is for; the record has
/// the type of a fresh instance of it, each item of that update the type
/// of its field, and the update the type of the record.
pub open spec fn visit_record_update(
    c: Context,
    st: StoreModel,
    record_expr: ExprId,
    updates: Seq<RecordUpdateInfo>,
    expr_id: ExprId,
) -> StoreModel {
    let place = expr_place(c, expr_id);
    match (st.expr_type(record_expr), st.expr_type(expr_id)) {
        (Some(TypeModel::Named(name, id, items)), Some(expr_type)) => match update_for(
            updates,
            id,
            0,
        ) {
            None => st.error(
                TypecheckErrorModel::TypeMismatch(
                    place,
                    joined_names(update_names(c.program, updates), 0),
                    type_text(TypeModel::Named(name, id, items)),
                ),
            ),
            Some(position) => match fresh_record(c, st, id) {
                None => st.error(TypecheckErrorModel::InvalidProgram(place)),
                Some((record_type, fields, n)) => {
                    let (st1, sub) = unify_expr(
                        c,
                        StoreModel { next: n, ..st },
                        record_type,
                        record_expr,
                    );
                    unify_exprs(
                        c,
                        record_items(
                            c,
                            st1,
                            applied_types(sub, fields),
                            updates[position].items@,
                            0,
                            expr_id,
                        ),
                        record_expr,
                        expr_id,
                    )
                },
            },
        },
        (Some(found), Some(expr_type)) => st.error(
            TypecheckErrorModel::TypeMismatch(
                place,
                joined_names(update_names(c.program, updates), 0),
                type_text(found),
            ),
        ),
        _ => st.error(TypecheckErrorModel::InvalidProgram(place)),
    }
}

/// The obligations of a call of a function or of a class member.
pub open spec fn visit_call(
    c: Context,
    st: StoreModel,
    function_type: Option<(TypeModel, nat)>,
    args: Seq<ExprId>,
    expr_id: ExprId,
) -> StoreModel {
    match function_type {
        Some((ty, next)) => check_call(c, StoreModel { next, ..st }, ty, args, expr_id),
        None => st.error(TypecheckErrorModel::InvalidProgram(expr_place(c, expr_id))),
    }
}

/// The obligations of a format: the markers of the format string and the
/// arguments must be equal in number. No type is constrained: neither that
/// of the format nor those of its arguments.
pub open spec fn visit_formatter(
    c: Context,
    st: StoreModel,
    fmt: Seq<char>,
    args: Seq<ExprId>,
    expr_id: ExprId,
) -> StoreModel {
    if format_pieces(fmt, 0, 0).len() != args.len() + 1 {
        st.error(TypecheckErrorModel::InvalidFormatString(expr_place(c, expr_id)))
    } else {
        st
    }
}

/// The obligations of one expression: the state after they were generated
/// and solved, in the order of the description of each form.
pub open spec fn visit_expr(c: Context, st: StoreModel, expr_id: ExprId) -> StoreModel {
    if !c.program.exprs.contains(expr_id.id) {
        st.error(TypecheckErrorModel::InvalidProgram(expr_place(c, expr_id)))
    } else {
        match c.program.exprs.item(expr_id.id).item {
            Expr::IntegerLiteral(_) => unify_expr_named(
                c,
                st,
                INT_MODULE_NAME@,
                INT_TYPE_NAME@,
                expr_id,
            ),
            Expr::FloatLiteral(_) => unify_expr_named(
                c,
                st,
                FLOAT_MODULE_NAME@,
                FLOAT_TYPE_NAME@,
                expr_id,
            ),
            Expr::BoolLiteral(_) => unify_expr_named(
                c,
                st,
                BOOL_MODULE_NAME@,
                BOOL_TYPE_NAME@,
                expr_id,
            ),
            Expr::StringLiteral(_) => unify_expr_named(
                c,
                st,
                STRING_MODULE_NAME@,
                STRING_TYPE_NAME@,
                expr_id,
            ),
            Expr::ArgRef(arg_ref) => visit_arg_ref(c, st, arg_ref, expr_id),
            Expr::StaticFunctionCall(function_id, args) => visit_call(
                c,
                st,
                function_type_at_call(c, st, function_id),
                args@,
                expr_id,
            ),
            Expr::ClassFunctionCall(member_id, args) => visit_call(
                c,
                st,
                member_type_at_call(c, st, member_id),
                args@,
                expr_id,
            ),
            Expr::DynamicFunctionCall(function_expr, args) => visit_dynamic_call(
                c,
                st,
                function_expr,
                args@,
                expr_id,
            ),
            Expr::If(cond, true_branch, false_branch) => {
                let st1 = unify_expr_named(c, st, BOOL_MODULE_NAME@, BOOL_TYPE_NAME@, cond);
                let st2 = unify_exprs(c, st1, true_branch, false_branch);
                unify_exprs(c, st2, expr_id, true_branch)
            },
            Expr::Tuple(items) => unify_expr(
                c,
                st,
                TypeModel::Tuple(types_of(st, items@)),
                expr_id,
            ).0,
            Expr::List(items) => visit_list(c, st, items@, expr_id),
            Expr::TupleFieldAccess(index, tuple) => visit_tuple_field_access(
                c,
                st,
                index,
                tuple,
                expr_id,
            ),
            Expr::FieldAccess(infos, receiver) => visit_field_access(
                c,
                st,
                infos@,
                receiver,
                expr_id,
            ),
            Expr::RecordInitialization(type_id, items) => visit_record_initialization(
                c,
                st,
                type_id,
                items@,
                expr_id,
            ),
            Expr::RecordUpdate(record_expr, updates) => visit_record_update(
                c,
                st,
                record_expr,
                updates@,
                expr_id,
            ),
            Expr::Do(items) => if items@.len() == 0 {
                unify_expr(c, st, unit_type(), expr_id).0
            } else {
                unify_exprs(c, st, items@.last(), expr_id)
            },
            Expr::Bind(pattern_id, rhs) => unify_expr(
                c,
                unify_expr_pattern(c, st, rhs, pattern_id),
                unit_type(),
                expr_id,
            ).0,
            Expr::ExprValue(_, pattern_id) => unify_expr_pattern(c, st, expr_id, pattern_id),
            Expr::CaseOf(scrutinee, cases) => check_cases(c, st, scrutinee, cases@, 0, expr_id),
            Expr::Formatter(fmt, args) => visit_formatter(c, st, fmt@, args@, expr_id),
        }
    }
}

/// The state after each expression of `ids` from position `from` on had its
/// type unified with `item_type`, as the unifications before made it.
pub open spec fn unify_item_types(
    c: Context,
    st: StoreModel,
    item_type: TypeModel,
    ids: Seq<ExprId>,
    from: int,
) -> StoreModel
    decreases ids.len() - from,
{
    if 0 <= from < ids.len() {
        match unify_expr(c, st, item_type, ids[from]) {
            (st1, Some(sub)) => unify_item_types(c, st1, sub.apply(item_type), ids, from + 1),
            (st1, None) => unify_item_types(c, st1, item_type, ids, from + 1),
        }
    } else {
        st
    }
}

/// The obligations of a pattern of a data type with parts: the pattern has
/// the type of a fresh instance of the data type, whose parts must be as
/// many as the sub-patterns, and each sub-pattern has the type of its part.
/// `wrong_count` is the error of another number of sub-patterns. The number
/// is compared, and the sub-patterns are unified, also where the pattern
/// itself has another type.
pub open spec fn visit_data_pattern(
    c: Context,
    st: StoreModel,
    fresh: Option<(TypeModel, Seq<TypeModel>, nat)>,
    items: Seq<PatternId>,
    pattern_id: PatternId,
    wrong_count: TypecheckErrorModel,
) -> StoreModel {
    match fresh {
        None => st.error(TypecheckErrorModel::InvalidProgram(pattern_place(c, pattern_id))),
        Some((own, parts, n)) => {
            let (st1, sub) = unify_pattern(c, StoreModel { next: n, ..st }, own, pattern_id);
            if parts.len() != items.len() {
                st1.error(wrong_count)
            } else {
                unify_parts(c, st1, applied_types(sub, parts), items, 0)
            }
        },
    }
}

/// The state after the type of a pattern was unified with that of the
/// pattern inside it.
pub open spec fn unify_with_inner(c: Context, st: StoreModel, inner: PatternId, pattern_id: PatternId) -> StoreModel {
    match st.pattern_type(inner) {
        Some(inner_type) => unify_pattern(c, st, inner_type, pattern_id).0,
        None => st.error(TypecheckErrorModel::InvalidProgram(pattern_place(c, pattern_id))),
    }
}

/// The obligations of a pattern with a type signature: the pattern has the
/// type of the pattern inside it, which has the type of the signature.
pub open spec fn visit_typed_pattern(
    c: Context,
    st: StoreModel,
    inner: PatternId,
    signature: crate::ir::type_signature::TypeSignatureId,
    pattern_id: PatternId,
) -> StoreModel {
    let st1 = unify_with_inner(c, st, inner, pattern_id);
    match signature_type(c.program, signature, Seq::empty(), st1.next, c.depth_limit as nat) {
        Some((ty, _, n)) => unify_pattern(c, StoreModel { next: n, ..st1 }, ty, inner).0,
        None => st1.error(TypecheckErrorModel::InvalidProgram(pattern_place(c, pattern_id))),
    }
}

/// The number of parts of a fresh instance.
pub open spec fn part_count(fresh: Option<(TypeModel, Seq<TypeModel>, nat)>) -> usize {
    match fresh {
        Some((_, parts, _)) => parts.len() as usize,
        None => 0,
    }
}

/// The obligations of one pattern.
pub open spec fn visit_pattern(c: Context, st: StoreModel, pattern_id: PatternId) -> StoreModel {
    let place = pattern_place(c, pattern_id);
    if !c.program.patterns.contains(pattern_id.id) {
        st.error(TypecheckErrorModel::InvalidProgram(place))
    } else {
        match c.program.patterns.item(pattern_id.id).item {
            Pattern::Binding(_) => st,
            Pattern::Wildcard => st,
            Pattern::IntegerLiteral(_) => unify_pattern_named(
                c,
                st,
                INT_MODULE_NAME@,
                INT_TYPE_NAME@,
                pattern_id,
            ),
            Pattern::FloatLiteral(_) => unify_pattern_named(
                c,
                st,
                FLOAT_MODULE_NAME@,
                FLOAT_TYPE_NAME@,
                pattern_id,
            ),
            Pattern::StringLiteral(_) => unify_pattern_named(
                c,
                st,
                STRING_MODULE_NAME@,
                STRING_TYPE_NAME@,
                pattern_id,
            ),
            Pattern::BoolLiteral(_) => unify_pattern_named(
                c,
                st,
                BOOL_MODULE_NAME@,
                BOOL_TYPE_NAME@,
                pattern_id,
            ),
            Pattern::Tuple(items) => unify_pattern(
                c,
                st,
                TypeModel::Tuple(pattern_types_of(st, items@)),
                pattern_id,
            ).0,
            Pattern::Record(type_id, items) => visit_data_pattern(
                c,
                st,
                fresh_record(c, st, type_id),
                items@,
                pattern_id,
                TypecheckErrorModel::InvalidRecordPattern(
                    place,
                    typedef_name(c.program, type_id),
                    part_count(fresh_record(c, st, type_id)),
                    items@.len() as usize,
                ),
            ),
            Pattern::Variant(type_id, index, items) => visit_data_pattern(
                c,
                st,
                fresh_variant(c, st, type_id, index),
                items@,
                pattern_id,
                TypecheckErrorModel::InvalidVariantPattern(
                    place,
                    variant_name(c.program, type_id, index),
                    part_count(fresh_variant(c, st, type_id, index)),
                    items@.len() as usize,
                ),
            ),
            Pattern::Guarded(inner, guard) => unify_expr_named(
                c,
                unify_with_inner(c, st, inner, pattern_id),
                BOOL_MODULE_NAME@,
                BOOL_TYPE_NAME@,
                guard,
            ),
            Pattern::Typed(inner, signature) => visit_typed_pattern(
                c,
                st,
                inner,
                signature,
                pattern_id,
            ),
        }
    }
}

/// The state after an expression that has no type yet was given a fresh
/// variable for its type.
pub open spec fn create_expr_var(c: Context, st: StoreModel, id: ExprId) -> StoreModel {
    if st.expr_type(id).is_some() {
        st
    } else if st.next >= usize::MAX || id.id >= usize::MAX {
        st.error(TypecheckErrorModel::InvalidProgram(expr_place(c, id)))
    } else {
        StoreModel {
            expr_types: table_insert(
                st.expr_types,
                id.id,
                TypeModel::Var(st.next as usize, Seq::empty()),
            ),
            next: st.next + 1,
            ..st
        }
    }
}

/// The same of a pattern.
pub open spec fn create_pattern_var(c: Context, st: StoreModel, id: PatternId) -> StoreModel {
    if st.pattern_type(id).is_some() {
        st
    } else if st.next >= usize::MAX || id.id >= usize::MAX {
        st.error(TypecheckErrorModel::InvalidProgram(pattern_place(c, id)))
    } else {
        StoreModel {
            pattern_types: table_insert(
                st.pattern_types,
                id.id,
                TypeModel::Var(st.next as usize, Seq::empty()),
            ),
            next: st.next + 1,
            ..st
        }
    }
}

/// What is done at each expression and pattern of a body: in the first
/// pass each gets a variable for its type, in the second the obligations
/// of each are generated and solved.
#[derive(Debug, Clone, Copy, PartialEq, Eq, Structural)]
pub enum Pass {
    Create,
    Check,
}

/// The state after an expression and all that it holds were visited: first
/// what it holds, in source order, then the expression itself.
pub open spec fn walk_expr(c: Context, pass: Pass, st: StoreModel, id: ExprId, depth: nat) -> StoreModel
    decreases depth, 0nat, 0nat,
{
    if depth == 0 || !c.program.exprs.contains(id.id) {
        st.error(TypecheckErrorModel::InvalidProgram(expr_place(c, id)))
    } else {
        let inner = (depth - 1) as nat;
        let st1 = match c.program.exprs.item(id.id).item {
            Expr::StaticFunctionCall(_, args) => walk_exprs(c, pass, st, args@, 0, inner),
            Expr::ClassFunctionCall(_, args) => walk_exprs(c, pass, st, args@, 0, inner),
            Expr::DynamicFunctionCall(function_expr, args) => walk_exprs(
                c,
                pass,
                walk_expr(c, pass, st, function_expr, inner),
                args@,
                0,
                inner,
            ),
            Expr::If(cond, true_branch, false_branch) => walk_expr(
                c,
                pass,
                walk_expr(c, pass, walk_expr(c, pass, st, cond, inner), true_branch, inner),
                false_branch,
                inner,
            ),
            Expr::Tuple(items) => walk_exprs(c, pass, st, items@, 0, inner),
            Expr::List(items) => walk_exprs(c, pass, st, items@, 0, inner),
            Expr::Do(items) => walk_exprs(c, pass, st, items@, 0, inner),
            Expr::Bind(pattern_id, rhs) => walk_pattern(
                c,
                pass,
                walk_expr(c, pass, st, rhs, inner),
                pattern_id,
                inner,
            ),
            Expr::FieldAccess(_, receiver) => walk_expr(c, pass, st, receiver, inner),
            Expr::TupleFieldAccess(_, tuple) => walk_expr(c, pass, st, tuple, inner),
            Expr::Formatter(_, args) => walk_exprs(c, pass, st, args@, 0, inner),
            Expr::CaseOf(scrutinee, cases) => walk_cases(
                c,
                pass,
                walk_expr(c, pass, st, scrutinee, inner),
                cases@,
                0,
                inner,
            ),
            Expr::RecordInitialization(_, items) => walk_items(c, pass, st, items@, 0, inner),
            Expr::RecordUpdate(record_expr, updates) => walk_updates(
                c,
                pass,
                walk_expr(c, pass, st, record_expr, inner),
                updates@,
                0,
                inner,
            ),
            _ => st,
        };
        match pass {
            Pass::Create => create_expr_var(c, st1, id),
            Pass::Check => visit_expr(c, st1, id),
        }
    }
}

/// The state after the expressions of `ids` from position `from` on were
/// walked, in order.
pub open spec fn walk_exprs(
    c: Context,
    pass: Pass,
    st: StoreModel,
    ids: Seq<ExprId>,
    from: int,
    depth: nat,
) -> StoreModel
    decreases depth, 1nat, ids.len() - from,
{
    if 0 <= from < ids.len() {
        walk_exprs(c, pass, walk_expr(c, pass, st, ids[from], depth), ids, from + 1, depth)
    } else {
        st
    }
}

/// The state after the expressions of the items of a record expression
/// from position `from` on were walked, in order.
pub open spec fn walk_items(
    c: Context,
    pass: Pass,
    st: StoreModel,
    items: Seq<RecordFieldValueExpr>,
    from: int,
    depth: nat,
) -> StoreModel
    decreases depth, 1nat, items.len() - from,
{
    if 0 <= from < items.len() {
        walk_items(c, pass, walk_expr(c, pass, st, items[from].expr_id, depth), items, from + 1, depth)
    } else {
        st
    }
}

/// The state after the items of the updates from position `from` on were
/// walked, in order.
pub open spec fn walk_updates(
    c: Context,
    pass: Pass,
    st: StoreModel,
    updates: Seq<RecordUpdateInfo>,
    from: int,
    depth: nat,
) -> StoreModel
    decreases depth, 2nat, updates.len() - from,
{
    if 0 <= from < updates.len() {
        walk_updates(
            c,
            pass,
            walk_items(c, pass, st, updates[from].items@, 0, depth),
            updates,
            from + 1,
            depth,
        )
    } else {
        st
    }
}

/// The state after the cases from position `from` on were walked: of each
/// first the pattern, then the body.
pub open spec fn walk_cases(
    c: Context,
    pass: Pass,
    st: StoreModel,
    cases: Seq<Case>,
    from: int,
    depth: nat,
) -> StoreModel
    decreases depth, 1nat, cases.len() - from,
{
    if 0 <= from < cases.len() {
        walk_cases(
            c,
            pass,
            walk_expr(
                c,
                pass,
                walk_pattern(c, pass, st, cases[from].pattern_id, depth),
                cases[from].body,
                depth,
            ),
            cases,
            from + 1,
            depth,
        )
    } else {
        st
    }
}

/// The state after a pattern and all that it holds were visited: first
/// what it holds, then the pattern itself.
pub open spec fn walk_pattern(
    c: Context,
    pass: Pass,
    st: StoreModel,
    id: PatternId,
    depth: nat,
) -> StoreModel
    decreases depth, 0nat, 0nat,
{
    if depth == 0 || !c.program.patterns.contains(id.id) {
        st.error(TypecheckErrorModel::InvalidProgram(pattern_place(c, id)))
    } else {
        let inner = (depth - 1) as nat;
        let st1 = match c.program.patterns.item(id.id).item {
            Pattern::Tuple(items) => walk_patterns(c, pass, st, items@, 0, inner),
            Pattern::Record(_, items) => walk_patterns(c, pass, st, items@, 0, inner),
            Pattern::Variant(_, _, items) => walk_patterns(c, pass, st, items@, 0, inner),
            Pattern::Guarded(inner_id, guard) => walk_expr(
                c,
                pass,
                walk_pattern(c, pass, st, inner_id, inner),
                guard,
                inner,
            ),
            Pattern::Typed(inner_id, _) => walk_pattern(c, pass, st, inner_id, inner),
            _ => st,
        };
        match pass {
            Pass::Create => create_pattern_var(c, st1, id),
            Pass::Check => visit_pattern(c, st1, id),
        }
    }
}

/// The state after the patterns of `ids` from position `from` on were
/// walked, in order.
pub open spec fn walk_patterns(
    c: Context,
    pass: Pass,
    st: StoreModel,
    ids: Seq<PatternId>,
    from: int,
    depth: nat,
) -> StoreModel
    decreases depth, 1nat, ids.len() - from,
{
    if 0 <= from < ids.len() {
        walk_patterns(c, pass, walk_pattern(c, pass, st, ids[from], depth), ids, from + 1, depth)
    } else {
        st
    }
}

/// The state after one function was inferred: every expression and pattern
/// of its body gets a variable for its type, the obligations of each are
/// generated and solved, and the type of the body is unified with the
/// result type of the function. A function without a body is left as it is.
pub open spec fn process_function(c: Context, st: StoreModel, id: FunctionId) -> StoreModel {
    match st.function(id) {
        Some(info) => match info.body {
            Some(body) => {
                let st1 = walk_expr(c, Pass::Create, st, body, c.depth_limit as nat);
                let st2 = walk_expr(c, Pass::Check, st1, body, c.depth_limit as nat);
                match st2.function(id) {
                    Some(info2) => unify_expr(c, st2, info2.result, body).0,
                    None => st2,
                }
            },
            None => st,
        },
        None => st.error(TypecheckErrorModel::InvalidProgram(LocationId { id: 0 })),
    }
}

/// The state after the functions of the group from position `from` on were
/// inferred, in order.
pub open spec fn process_group(c: Context, st: StoreModel, from: int) -> StoreModel
    decreases c.group.len() - from,
{
    if 0 <= from < c.group.len() {
        process_group(c, process_function(c, st, c.group[from]), from + 1)
    } else {
        st
    }
}

} // verus!
