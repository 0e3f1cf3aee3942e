//! The type information that the type checker keeps of functions and data
//! types, and its instantiation with fresh variables.

use crate::ir::class::ClassId;
use crate::ir::expr::ExprId;
use crate::ir::function::FunctionId;
use crate::ir::type_var_generator::TypeVarGenerator;
use crate::ir::types::copy_class_ids;
use crate::ir::types::type_models;
use crate::ir::types::Type;
use crate::ir::types::TypeModel;
use crate::ir::unifier::Substitution;
use crate::ir::unifier::SubstitutionModel;
use crate::location_info::LocationId;
use crate::util::table_get;
use crate::util::table_insert;
use crate::ir::program::Program;
use crate::typechecker::type_store::table_models;
use crate::util::ItemContainer;
use vstd::prelude::*;

verus! {

/// The fresh index that a renaming gives `index`: that of its last entry
/// for it.
pub open spec fn renamed(map: Seq<(usize, usize)>, index: usize) -> Option<usize>
    decreases map.len(),
{
    if map.len() == 0 {
        None
    } else if map.last().0 == index {
        Some(map.last().1)
    } else {
        renamed(map.drop_last(), index)
    }
}

/// The index that stands for `index` under a renaming, the renaming, and
/// the next fresh index: the index that the renaming gives it or, where it
/// gives none, the next fresh one, which the renaming then holds for it.
/// There is none where the fresh indices are used up.
pub open spec fn rename_index(index: usize, map: Seq<(usize, usize)>, next: nat) -> Option<
    (usize, Seq<(usize, usize)>, nat),
> {
    match renamed(map, index) {
        Some(fresh) => Some((fresh, map, next)),
        None => if next >= usize::MAX {
            None
        } else {
            Some((next as usize, map.push((index, next as usize)), next + 1))
        },
    }
}

impl TypeModel {
    /// The type with fresh variables for its variables: each variable,
    /// free or rigid, gives way to a free variable with a fresh index and
    /// the same constraints, the same one at each occurrence. The renaming
    /// `map` holds the fresh index of each variable met so far.
    pub open spec fn duplicate(self, map: Seq<(usize, usize)>, next: nat) -> Option<
        (TypeModel, Seq<(usize, usize)>, nat),
    >
        decreases self, 0nat,
    {
        match self {
            TypeModel::Tuple(items) => match duplicate_items(items, 0, Seq::empty(), map, next) {
                Some((copies, m, n)) => Some((TypeModel::Tuple(copies), m, n)),
                None => None,
            },
            TypeModel::Named(name, id, items) => match duplicate_items(
                items,
                0,
                Seq::empty(),
                map,
                next,
            ) {
                Some((copies, m, n)) => Some((TypeModel::Named(name, id, copies), m, n)),
                None => None,
            },
            TypeModel::Function(from, to) => match from.duplicate(map, next) {
                Some((f, m1, n1)) => match to.duplicate(m1, n1) {
                    Some((t, m2, n2)) => Some(
                        (TypeModel::Function(Box::new(f), Box::new(t)), m2, n2),
                    ),
                    None => None,
                },
                None => None,
            },
            TypeModel::Var(index, constraints) => match rename_index(index, map, next) {
                Some((fresh, m, n)) => Some((TypeModel::Var(fresh, constraints), m, n)),
                None => None,
            },
            TypeModel::FixedVar(index, _, constraints) => match rename_index(index, map, next) {
                Some((fresh, m, n)) => Some((TypeModel::Var(fresh, constraints), m, n)),
                None => None,
            },
        }
    }
}

/// `copies`, then the items of `items` from position `from` on with fresh
/// variables for their variables.
pub open spec fn duplicate_items(
    items: Seq<TypeModel>,
    from: int,
    copies: Seq<TypeModel>,
    map: Seq<(usize, usize)>,
    next: nat,
) -> Option<(Seq<TypeModel>, Seq<(usize, usize)>, nat)>
    decreases items, items.len() - from,
{
    if 0 <= from < items.len() {
        match items[from].duplicate(map, next) {
            Some((copy, m, n)) => duplicate_items(items, from + 1, copies.push(copy), m, n),
            None => None,
        }
    } else {
        Some((copies, map, next))
    }
}

/// The fresh index of `index` under a renaming.
fn find_renamed(map: &Vec<(usize, usize)>, index: usize) -> (r: Option<usize>)
    ensures
        r == renamed(map@, index),
{
    let mut j: usize = map.len();
    assert(map@.subrange(0, j as int) =~= map@);
    while j > 0
        invariant
            j <= map.len(),
            renamed(map@, index) == renamed(map@.subrange(0, j as int), index),
        decreases j,
    {
        let ghost prefix = map@.subrange(0, j as int);
        assert(prefix.drop_last() =~= map@.subrange(0, j - 1));
        if map[j - 1].0 == index {
            return Some(map[j - 1].1);
        }
        j = j - 1;
    }
    None
}

/// The index that stands for `index` under the renaming.
fn rename(index: usize, map: &mut Vec<(usize, usize)>, generator: &mut TypeVarGenerator) -> (r:
    Option<usize>)
    ensures
        match rename_index(index, old(map)@, old(generator).next_index()) {
            Some((fresh, m, n)) => r == Some(fresh) && final(map)@ == m && final(generator).next_index() == n,
            None => r.is_none(),
        },
{
    match find_renamed(map, index) {
        Some(fresh) => Some(fresh),
        None => match generator.get_new_index() {
            Some(fresh) => {
                map.push((index, fresh));
                Some(fresh)
            },
            None => None,
        },
    }
}

impl Type {
    /// The type with fresh variables for its variables, under the renaming
    /// `arg_map`, which grows by the variables met for the first time.
    #[verifier::loop_isolation(false)]
    pub fn duplicate(&self, arg_map: &mut Vec<(usize, usize)>, generator: &mut TypeVarGenerator) -> (r:
        Option<Type>)
        ensures
            match self@.duplicate(old(arg_map)@, old(generator).next_index()) {
                Some((copy, m, n)) => r.is_some() && r.unwrap()@ == copy && final(arg_map)@ == m
                    && final(generator).next_index() == n,
                None => r.is_none(),
            },
        decreases self,
    {
        match self {
            Type::Tuple(items) => {
                assert(self@ matches TypeModel::Tuple(ms) ==> ms == type_models(items@));
                let mut copies: Vec<Type> = Vec::new();
                assert(type_models(copies@) =~= Seq::<TypeModel>::empty());
                let mut i: usize = 0;
                while i < items.len()
                    invariant
                        i <= items.len(),
                        duplicate_items(
                            type_models(items@),
                            0,
                            Seq::empty(),
                            old(arg_map)@,
                            old(generator).next_index(),
                        ) == duplicate_items(
                            type_models(items@),
                            i as int,
                            type_models(copies@),
                            arg_map@,
                            generator.next_index(),
                        ),
                    decreases items.len() - i,
                {
                    let ghost before = type_models(copies@);
                    match items[i].duplicate(arg_map, generator) {
                        Some(copy) => {
                            copies.push(copy);
                            assert(type_models(copies@) =~= before.push(copy@));
                        },
                        None => {
                            return None;
                        },
                    }
                    i = i + 1;
                }
                Some(Type::Tuple(copies))
            },
            Type::Named(name, id, items) => {
                assert(self@ matches TypeModel::Named(_, _, ms) ==> ms == type_models(items@));
                let mut copies: Vec<Type> = Vec::new();
                assert(type_models(copies@) =~= Seq::<TypeModel>::empty());
                let mut i: usize = 0;
                while i < items.len()
                    invariant
                        i <= items.len(),
                        duplicate_items(
                            type_models(items@),
                            0,
                            Seq::empty(),
                            old(arg_map)@,
                            old(generator).next_index(),
                        ) == duplicate_items(
                            type_models(items@),
                            i as int,
                            type_models(copies@),
                            arg_map@,
                            generator.next_index(),
                        ),
                    decreases items.len() - i,
                {
                    let ghost before = type_models(copies@);
                    match items[i].duplicate(arg_map, generator) {
                        Some(copy) => {
                            copies.push(copy);
                            assert(type_models(copies@) =~= before.push(copy@));
                        },
                        None => {
                            return None;
                        },
                    }
                    i = i + 1;
                }
                Some(Type::Named(name.clone(), *id, copies))
            },
            Type::Function(from, to) => {
                let f = match from.duplicate(arg_map, generator) {
                    Some(f) => f,
                    None => {
                        return None;
                    },
                };
                match to.duplicate(arg_map, generator) {
                    Some(t) => Some(Type::Function(Box::new(f), Box::new(t))),
                    None => None,
                }
            },
            Type::Var(index, constraints) => match rename(*index, arg_map, generator) {
                Some(fresh) => Some(Type::Var(fresh, copy_class_ids(constraints))),
                None => None,
            },
            Type::FixedVar(index, _, constraints) => match rename(*index, arg_map, generator) {
                Some(fresh) => Some(Type::Var(fresh, copy_class_ids(constraints))),
                None => None,
            },
        }
    }
}

/// A deep copy of a list of types.
pub fn copy_types(items: &Vec<Type>) -> (r: Vec<Type>)
    ensures
        type_models(r@) == type_models(items@),
{
    let mut r: Vec<Type> = Vec::new();
    let mut i: usize = 0;
    while i < items.len()
        invariant
            i <= items.len(),
            r.len() == i,
            forall|k: int| 0 <= k < i ==> (#[trigger] r@[k]).model() == items@[k].model(),
        decreases items.len() - i,
    {
        r.push(items[i].copy());
        i = i + 1;
    }
    assert(type_models(r@) =~= type_models(items@));
    r
}

/// What a substitution makes of each of a list of types.
pub open spec fn apply_to_types(sub: SubstitutionModel, items: Seq<TypeModel>) -> Seq<TypeModel> {
    Seq::new(items.len(), |i: int| sub.apply(items[i]))
}

/// What a substitution makes of each of a list of types.
pub fn apply_types(sub: &Substitution, items: &Vec<Type>) -> (r: Vec<Type>)
    ensures
        type_models(r@) == apply_to_types(sub@, type_models(items@)),
{
    let mut r: Vec<Type> = Vec::new();
    let mut i: usize = 0;
    while i < items.len()
        invariant
            i <= items.len(),
            r.len() == i,
            forall|k: int| 0 <= k < i ==> (#[trigger] r@[k]).model() == sub@.apply(items@[k].model()),
        decreases items.len() - i,
    {
        r.push(sub.apply(&items[i]));
        i = i + 1;
    }
    assert(type_models(r@) =~= apply_to_types(sub@, type_models(items@)));
    r
}

/// A class that was derived for a data type, with the position of the
/// derived instance.
#[derive(Debug, Clone, Copy, PartialEq, Eq, Structural)]
pub struct DeriveInfo {
    pub class_id: ClassId,
    pub instance_index: usize,
}

/// The type of a class member, and the type that stands for the class's
/// argument in it.
#[derive(Debug)]
pub struct ClassMemberTypeInfo {
    pub ty: Type,
    pub class_arg_ty: Type,
}

/// What the type checker knows of the type of a function.
#[derive(Debug)]
pub struct FunctionTypeInfo {
    pub displayed_name: String,
    pub args: Vec<Type>,
    pub typed: bool,
    pub result: Type,
    pub function_type: Type,
    pub body: Option<ExprId>,
    pub location_id: LocationId,
}

/// The mathematical model of the type information of a function.
pub ghost struct FunctionTypeInfoModel {
    pub displayed_name: Seq<char>,
    pub args: Seq<TypeModel>,
    pub typed: bool,
    pub result: TypeModel,
    pub function_type: TypeModel,
    pub body: Option<ExprId>,
    pub location_id: LocationId,
}

impl FunctionTypeInfoModel {
    /// The information with the substitution applied to each of its types.
    pub open spec fn apply(self, sub: SubstitutionModel) -> FunctionTypeInfoModel {
        FunctionTypeInfoModel {
            args: apply_to_types(sub, self.args),
            result: sub.apply(self.result),
            function_type: sub.apply(self.function_type),
            ..self
        }
    }

    /// The information with each rigid variable turned into a free one.
    pub open spec fn remove_fixed(self) -> FunctionTypeInfoModel {
        FunctionTypeInfoModel {
            args: Seq::new(self.args.len(), |i: int| self.args[i].remove_fixed()),
            result: self.result.remove_fixed(),
            function_type: self.function_type.remove_fixed(),
            ..self
        }
    }

    /// The information with fresh variables for its variables, the same
    /// fresh variable for a variable wherever it stands in it; and the
    /// next fresh index.
    pub open spec fn duplicate(self, next: nat) -> Option<(FunctionTypeInfoModel, nat)> {
        match duplicate_items(self.args, 0, Seq::empty(), Seq::empty(), next) {
            Some((args, m1, n1)) => match self.result.duplicate(m1, n1) {
                Some((result, m2, n2)) => match self.function_type.duplicate(m2, n2) {
                    Some((function_type, _, n3)) => Some(
                        (FunctionTypeInfoModel { args, result, function_type, ..self }, n3),
                    ),
                    None => None,
                },
                None => None,
            },
            None => None,
        }
    }
}

impl View for FunctionTypeInfo {
    type V = FunctionTypeInfoModel;

    open spec fn view(&self) -> FunctionTypeInfoModel {
        FunctionTypeInfoModel {
            displayed_name: self.displayed_name@,
            args: type_models(self.args@),
            typed: self.typed,
            result: self.result@,
            function_type: self.function_type@,
            body: self.body,
            location_id: self.location_id,
        }
    }
}

impl FunctionTypeInfo {
    /// Applies a substitution to each type of the information. Returns
    /// whether the substitution has bindings at all.
    pub fn apply(&mut self, sub: &Substitution) -> (changed: bool)
        ensures
            final(self)@ == old(self)@.apply(sub@),
            changed == (sub@.bindings.len() > 0),
    {
        self.args = apply_types(sub, &self.args);
        self.result = sub.apply(&self.result);
        self.function_type = sub.apply(&self.function_type);
        sub.bindings.len() > 0
    }

    /// A deep copy.
    pub fn copy(&self) -> (r: FunctionTypeInfo)
        ensures
            r@ == self@,
    {
        FunctionTypeInfo {
            displayed_name: self.displayed_name.clone(),
            args: copy_types(&self.args),
            typed: self.typed,
            result: self.result.copy(),
            function_type: self.function_type.copy(),
            body: self.body,
            location_id: self.location_id,
        }
    }

    /// The information with fresh variables for its variables.
    #[verifier::loop_isolation(false)]
    pub fn duplicate(&self, type_var_generator: &mut TypeVarGenerator) -> (r: Option<
        FunctionTypeInfo,
    >)
        ensures
            match self@.duplicate(old(type_var_generator).next_index()) {
                Some((copy, next)) => r.is_some() && r.unwrap()@ == copy && final(type_var_generator).next_index() == next,
                None => r.is_none(),
            },
    {
        let mut arg_map: Vec<(usize, usize)> = Vec::new();
        let mut args: Vec<Type> = Vec::new();
        assert(type_models(args@) =~= Seq::<TypeModel>::empty());
        let mut i: usize = 0;
        while i < self.args.len()
            invariant
                i <= self.args.len(),
                duplicate_items(
                    type_models(self.args@),
                    0,
                    Seq::empty(),
                    Seq::empty(),
                    old(type_var_generator).next_index(),
                ) == duplicate_items(
                    type_models(self.args@),
                    i as int,
                    type_models(args@),
                    arg_map@,
                    type_var_generator.next_index(),
                ),
            decreases self.args.len() - i,
        {
            let ghost before = type_models(args@);
            match self.args[i].duplicate(&mut arg_map, type_var_generator) {
                Some(copy) => {
                    args.push(copy);
                    assert(type_models(args@) =~= before.push(copy@));
                },
                None => {
                    return None;
                },
            }
            i = i + 1;
        }
        let result = match self.result.duplicate(&mut arg_map, type_var_generator) {
            Some(t) => t,
            None => {
                return None;
            },
        };
        let function_type = match self.function_type.duplicate(&mut arg_map, type_var_generator) {
            Some(t) => t,
            None => {
                return None;
            },
        };
        Some(
            FunctionTypeInfo {
                displayed_name: self.displayed_name.clone(),
                args,
                typed: self.typed,
                result,
                function_type,
                body: self.body,
                location_id: self.location_id,
            },
        )
    }

    /// The information with each rigid variable turned into a free one.
    pub fn remove_fixed_types(&self) -> (r: FunctionTypeInfo)
        ensures
            r@ == self@.remove_fixed(),
    {
        let mut args: Vec<Type> = Vec::new();
        let mut i: usize = 0;
        while i < self.args.len()
            invariant
                i <= self.args.len(),
                args.len() == i,
                forall|k: int|
                    0 <= k < i ==> (#[trigger] args@[k]).model()
                        == self.args@[k].model().remove_fixed(),
            decreases self.args.len() - i,
        {
            args.push(self.args[i].remove_fixed_types());
            i = i + 1;
        }
        let r = FunctionTypeInfo {
            displayed_name: self.displayed_name.clone(),
            args,
            typed: self.typed,
            result: self.result.remove_fixed_types(),
            function_type: self.function_type.remove_fixed_types(),
            body: self.body,
            location_id: self.location_id,
        };
        assert(r@.args =~= self@.remove_fixed().args);
        r
    }
}

/// The models of a table of function type information.
pub open spec fn info_models(items: Seq<Option<FunctionTypeInfo>>) -> Seq<Option<FunctionTypeInfoModel>> {
    Seq::new(
        items.len(),
        |i: int|
            match items[i] {
                Some(info) => Some(info@),
                None => None,
            },
    )
}

/// The type information of the functions, by function id.
#[derive(Debug)]
pub struct FunctionTypeInfoStore {
    pub function_type_info_map: Vec<Option<FunctionTypeInfo>>,
}

impl View for FunctionTypeInfoStore {
    type V = Seq<Option<FunctionTypeInfoModel>>;

    open spec fn view(&self) -> Seq<Option<FunctionTypeInfoModel>> {
        info_models(self.function_type_info_map@)
    }
}

impl FunctionTypeInfoStore {
    pub fn new() -> (r: FunctionTypeInfoStore)
        ensures
            r@.len() == 0,
    {
        FunctionTypeInfoStore { function_type_info_map: Vec::new() }
    }

    /// Keeps `function_type_info` as the information of the function `id`,
    /// in place of what was kept for it.
    pub fn add(&mut self, id: FunctionId, function_type_info: FunctionTypeInfo)
        requires
            id.id < usize::MAX,
        ensures
            final(self)@ == table_insert(old(self)@, id.id, function_type_info@),
    {
        while self.function_type_info_map.len() < id.id
            invariant
                old(self)@.len() <= self@.len(),
                self@.len() <= id.id || self@.len() == old(self)@.len(),
                self@ =~= old(self)@ + Seq::new(
                    (self@.len() - old(self)@.len()) as nat,
                    |i: int| None::<FunctionTypeInfoModel>,
                ),
            decreases id.id - self.function_type_info_map.len(),
        {
            let ghost before = self@;
            self.function_type_info_map.push(None);
            assert(self@ =~= before.push(None));
        }
        if id.id < self.function_type_info_map.len() {
            self.function_type_info_map.set(id.id, Some(function_type_info));
            assert(self@ =~= table_insert(old(self)@, id.id, function_type_info@));
        } else {
            self.function_type_info_map.push(Some(function_type_info));
            assert(self@ =~= table_insert(old(self)@, id.id, function_type_info@));
        }
    }

    /// The information of the function `id`, which the store must keep.
    pub fn get(&self, id: &FunctionId) -> (r: &FunctionTypeInfo)
        requires
            table_get(self@, id.id) is Some,
        ensures
            table_get(self@, id.id) == Some(r@),
    {
        match self.find(id) {
            Some(info) => info,
            None => vstd::pervasive::unreached(),
        }
    }

    /// The information of the function `id`, if any is kept.
    pub fn find(&self, id: &FunctionId) -> (r: Option<&FunctionTypeInfo>)
        ensures
            match r {
                Some(info) => table_get(self@, id.id) == Some(info@),
                None => table_get(self@, id.id).is_none(),
            },
    {
        if id.id < self.function_type_info_map.len() {
            self.function_type_info_map[id.id].as_ref()
        } else {
            None
        }
    }

    /// The information kept for the function `id`, which the store must
    /// keep, to be changed in place.
    pub fn get_mut(&mut self, id: &FunctionId) -> (r: &mut FunctionTypeInfo)
        requires
            table_get(old(self)@, id.id) is Some,
        ensures
            table_get(old(self)@, id.id) == Some(r@),
            final(self)@ == old(self)@.update(id.id as int, Some(final(r)@)),
    {
        let ghost before = self@;
        let slot = &mut self.function_type_info_map[id.id];
        match slot {
            Some(info) => info,
            None => vstd::pervasive::unreached(),
        }
    }

    /// Puts `function_type_info` in the place of the information kept for
    /// the function `id`. Returns whether any was kept; where none was,
    /// nothing changes.
    pub fn replace(&mut self, id: &FunctionId, function_type_info: FunctionTypeInfo) -> (found: bool)
        ensures
            found == table_get(old(self)@, id.id).is_some(),
            found ==> final(self)@ == old(self)@.update(id.id as int, Some(function_type_info@)),
            !found ==> final(self)@ == old(self)@,
    {
        if id.id < self.function_type_info_map.len() && self.function_type_info_map[id.id].is_some() {
            self.function_type_info_map.set(id.id, Some(function_type_info));
            assert(self@ =~= old(self)@.update(id.id as int, Some(function_type_info@)));
            true
        } else {
            false
        }
    }
}

/// The models of a table of the types of class members.
pub open spec fn member_type_models(items: Seq<Option<(Type, Type)>>) -> Seq<
    Option<(TypeModel, TypeModel)>,
> {
    Seq::new(
        items.len(),
        |i: int|
            match items[i] {
                Some(types) => Some((types.0@, types.1@)),
                None => None,
            },
    )
}

/// The function types of a table of function type information.
pub open spec fn function_types_of(functions: Seq<Option<FunctionTypeInfoModel>>) -> Seq<
    Option<TypeModel>,
> {
    Seq::new(
        functions.len(),
        |i: int|
            match functions[i] {
                Some(info) => Some(info.function_type),
                None => None,
            },
    )
}

impl FunctionTypeInfoStore {
    /// Attaches to the program the types of the functions of the store, in
    /// place of those it held.
    #[verifier::loop_isolation(false)]
    pub fn save_function_types(&self, program: &mut Program)
        ensures
            *final(program) == (Program {
                function_types: final(program).function_types,
                ..*old(program)
            }),
            table_models(final(program).function_types.items@) == function_types_of(self@),
    {
        let mut function_types: Vec<Option<Type>> = Vec::new();
        let mut i: usize = 0;
        while i < self.function_type_info_map.len()
            invariant
                i <= self.function_type_info_map.len(),
                function_types.len() == i,
                forall|k: int|
                    0 <= k < i ==> (#[trigger] table_models(function_types@)[k])
                        == function_types_of(self@)[k],
            decreases self.function_type_info_map.len() - i,
        {
            let entry = match &self.function_type_info_map[i] {
                Some(info) => Some(info.function_type.copy()),
                None => None,
            };
            let ghost before = table_models(function_types@);
            function_types.push(entry);
            assert forall|k: int| 0 <= k < i implies (#[trigger] table_models(function_types@)[k])
                == before[k] by {}
            i = i + 1;
        }
        assert(table_models(function_types@) =~= function_types_of(self@));
        program.function_types = ItemContainer { items: function_types };
    }
}

} // verus!
