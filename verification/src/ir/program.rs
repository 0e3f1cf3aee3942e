//! The program tables.

use crate::ir::class::Class;
use crate::ir::class::ClassId;
use crate::ir::class::ClassMember;
use crate::ir::class::Instance;
use crate::ir::concrete::TypeInstanceResolver;
use crate::ir::data::TypeDef;
use crate::ir::data::TypeDefId;
use crate::ir::expr::Expr;
use crate::ir::function::Function;
use crate::ir::pattern::Pattern;
use crate::ir::type_signature::TypeSignature;
use crate::ir::type_var_generator::TypeVarGenerator;
use crate::constants::BOOL_MODULE_NAME;
use crate::constants::BOOL_TYPE_NAME;
use crate::constants::FLOAT_MODULE_NAME;
use crate::constants::FLOAT_TYPE_NAME;
use crate::constants::INT_MODULE_NAME;
use crate::constants::INT_TYPE_NAME;
use crate::constants::LIST_MODULE_NAME;
use crate::constants::LIST_TYPE_NAME;
use crate::constants::STRING_MODULE_NAME;
use crate::constants::STRING_TYPE_NAME;
use crate::ir::data::Adt;
use crate::ir::types::type_models;
use crate::ir::types::Type;
use crate::ir::types::TypeModel;
use crate::location_info::ItemInfo;
use crate::util::str_equal;
use crate::util::table_insert;
use crate::util::ItemContainer;
use crate::constants::OPTION_MODULE_NAME;
use crate::constants::OPTION_TYPE_NAME;
use crate::constants::ORDERING_MODULE_NAME;
use crate::constants::ORDERING_TYPE_NAME;
use crate::constants::SHOW_CLASS_NAME;
use crate::ir::class::find_member;
use crate::ir::data::Record;
use crate::ir::expr::ExprId;
use crate::ir::function::FunctionId;
use crate::ir::type_signature::TypeSignatureId;
use crate::ir::unifier::empty_substitution;
use crate::ir::unifier::Unifier;
use crate::location_info::LocationId;
use vstd::prelude::*;
use vstd::string::*;

verus! {

/// A type known by the name of its module and its own name.
#[derive(Debug, Clone)]
pub struct NamedType {
    pub module: String,
    pub name: String,
    pub id: TypeDefId,
}

/// The first type in `items` declared by `module` under `name`.
pub open spec fn named_type_of(items: Seq<NamedType>, module: Seq<char>, name: Seq<char>) -> Option<
    TypeDefId,
>
    decreases items.len(),
{
    if items.len() == 0 {
        None
    } else if items[0].module@ == module && items[0].name@ == name {
        Some(items[0].id)
    } else {
        named_type_of(items.drop_first(), module, name)
    }
}

/// The first class in `items` called `name`.
pub open spec fn class_named(items: Seq<(String, ClassId)>, name: Seq<char>) -> Option<ClassId> {
    crate::ir::class::member_named(items, name)
}

/// The whole program: one table for each kind of id, and the types that
/// inference attached to expressions, functions and class members.
#[derive(Debug)]
pub struct Program {
    pub type_signatures: ItemContainer<ItemInfo<TypeSignature>>,
    pub exprs: ItemContainer<ItemInfo<Expr>>,
    pub functions: ItemContainer<Function>,
    pub typedefs: ItemContainer<TypeDef>,
    pub patterns: ItemContainer<ItemInfo<Pattern>>,
    pub classes: ItemContainer<Class>,
    pub class_members: ItemContainer<ClassMember>,
    pub instances: ItemContainer<Instance>,
    pub expr_types: ItemContainer<Type>,
    pub function_types: ItemContainer<Type>,
    /// For each class member, the type of the member and the type that
    /// stands for the class's argument in it.
    pub class_member_types: ItemContainer<(Type, Type)>,
    pub class_names: Vec<(String, ClassId)>,
    pub named_types: Vec<NamedType>,
    pub type_instance_resolver: TypeInstanceResolver,
    pub type_var_generator: TypeVarGenerator,
}

/// What a program declares: its tables without the types that checking
/// attaches to them.
pub ghost struct Declarations {
    pub type_signatures: ItemContainer<ItemInfo<TypeSignature>>,
    pub exprs: ItemContainer<ItemInfo<Expr>>,
    pub functions: ItemContainer<Function>,
    pub typedefs: ItemContainer<TypeDef>,
    pub patterns: ItemContainer<ItemInfo<Pattern>>,
    pub classes: ItemContainer<Class>,
    pub class_members: ItemContainer<ClassMember>,
    pub instances: ItemContainer<Instance>,
    pub class_names: Vec<(String, ClassId)>,
    pub named_types: Vec<NamedType>,
    pub type_var_generator: TypeVarGenerator,
}

impl Program {
    /// What the program declares.
    pub open spec fn declarations(&self) -> Declarations {
        Declarations {
            type_signatures: self.type_signatures,
            exprs: self.exprs,
            functions: self.functions,
            typedefs: self.typedefs,
            patterns: self.patterns,
            classes: self.classes,
            class_members: self.class_members,
            instances: self.instances,
            class_names: self.class_names,
            named_types: self.named_types,
            type_var_generator: self.type_var_generator,
        }
    }

    pub fn new(type_var_generator: TypeVarGenerator) -> (p: Program)
        ensures
            p.type_signatures.allocated() == 0,
            p.exprs.allocated() == 0,
            p.functions.allocated() == 0,
            p.typedefs.allocated() == 0,
            p.patterns.allocated() == 0,
            p.classes.allocated() == 0,
            p.class_members.allocated() == 0,
            p.instances.allocated() == 0,
            p.expr_types.allocated() == 0,
            p.function_types.allocated() == 0,
            p.class_member_types.allocated() == 0,
            p.class_names@.len() == 0,
            p.named_types@.len() == 0,
            p.type_instance_resolver.instance_map@.len() == 0,
            p.type_var_generator == type_var_generator,
    {
        Program {
            type_signatures: ItemContainer::new(),
            exprs: ItemContainer::new(),
            functions: ItemContainer::new(),
            typedefs: ItemContainer::new(),
            patterns: ItemContainer::new(),
            classes: ItemContainer::new(),
            class_members: ItemContainer::new(),
            instances: ItemContainer::new(),
            expr_types: ItemContainer::new(),
            function_types: ItemContainer::new(),
            class_member_types: ItemContainer::new(),
            class_names: Vec::new(),
            named_types: Vec::new(),
            type_instance_resolver: TypeInstanceResolver::new(),
            type_var_generator,
        }
    }

    /// The id of the type that `module` declares under `name`.
    pub fn find_named_type(&self, module: &str, name: &str) -> (r: Option<TypeDefId>)
        ensures
            r == named_type_of(self.named_types@, module@, name@),
    {
        let mut i: usize = 0;
        assert(self.named_types@.subrange(0, self.named_types.len() as int) =~= self.named_types@);
        while i < self.named_types.len()
            invariant
                i <= self.named_types.len(),
                named_type_of(self.named_types@, module@, name@) == named_type_of(
                    self.named_types@.subrange(i as int, self.named_types.len() as int),
                    module@,
                    name@,
                ),
            decreases self.named_types.len() - i,
        {
            let ghost rest = self.named_types@.subrange(i as int, self.named_types.len() as int);
            assert(rest.drop_first() =~= self.named_types@.subrange(
                i + 1,
                self.named_types.len() as int,
            ));
            if str_equal(self.named_types[i].module.as_str(), module) && str_equal(
                self.named_types[i].name.as_str(),
                name,
            ) {
                return Some(self.named_types[i].id);
            }
            i = i + 1;
        }
        None
    }

    /// The module and the name of a type.
    pub fn find_module_and_name(&self, typedef_id: TypeDefId) -> (r: Option<(String, String)>)
        ensures
            match r {
                Some((module, name)) => self.typedefs.contains(typedef_id.id) && module@
                    == self.typedefs.item(typedef_id.id).module() && name@ == self.typedefs.item(
                    typedef_id.id,
                ).name(),
                None => !self.typedefs.contains(typedef_id.id),
            },
    {
        match self.typedefs.get(typedef_id.id) {
            Some(TypeDef::Adt(adt)) => Some((adt.module.clone(), adt.name.clone())),
            Some(TypeDef::Record(record)) => Some((record.module.clone(), record.name.clone())),
            None => None,
        }
    }
}

/// The schematic type without arguments that `module` declares under `name`.
pub open spec fn plain_schematic(program: Declarations, module: Seq<char>, name: Seq<char>) -> Option<
    TypeModel,
> {
    match named_type_of(program.named_types@, module, name) {
        Some(id) => Some(TypeModel::Named(name, id, Seq::empty())),
        None => None,
    }
}

/// The type of lists of `item` in the program.
pub open spec fn list_schematic(program: Declarations, item: TypeModel) -> Option<TypeModel> {
    match named_type_of(program.named_types@, LIST_MODULE_NAME@, LIST_TYPE_NAME@) {
        Some(id) => Some(TypeModel::Named(LIST_TYPE_NAME@, id, seq![item])),
        None => None,
    }
}

impl Program {
    /// The schematic type without arguments that `module` declares under `name`.
    pub fn find_plain_type(&self, module: &str, name: &str) -> (r: Option<Type>)
        ensures
            match r {
                Some(ty) => plain_schematic(self.declarations(), module@, name@) == Some(ty@),
                None => plain_schematic(self.declarations(), module@, name@).is_none(),
            },
    {
        match self.find_named_type(module, name) {
            Some(id) => {
                let args: Vec<Type> = Vec::new();
                assert(type_models(args@) =~= Seq::<TypeModel>::empty());
                Some(Type::Named(String::from_str(name), id, args))
            },
            None => None,
        }
    }

    /// The id of the type of lists.
    pub fn find_list_type_id(&self) -> (r: Option<TypeDefId>)
        ensures
            r == named_type_of(self.named_types@, LIST_MODULE_NAME@, LIST_TYPE_NAME@),
    {
        self.find_named_type(LIST_MODULE_NAME, LIST_TYPE_NAME)
    }

    /// The type of lists of `ty`.
    pub fn find_list_type(&self, ty: Type) -> (r: Option<Type>)
        ensures
            match r {
                Some(list) => list_schematic(self.declarations(), ty@) == Some(list@),
                None => list_schematic(self.declarations(), ty@).is_none(),
            },
    {
        match self.find_list_type_id() {
            Some(id) => {
                let mut args: Vec<Type> = Vec::new();
                args.push(ty);
                assert(type_models(args@) =~= seq![ty@]);
                Some(Type::Named(String::from_str(LIST_TYPE_NAME), id, args))
            },
            None => None,
        }
    }

    /// The type of strings.
    pub fn find_string_type(&self) -> (r: Option<Type>)
        ensures
            match r {
                Some(ty) => plain_schematic(self.declarations(), STRING_MODULE_NAME@, STRING_TYPE_NAME@) == Some(
                    ty@,
                ),
                None => plain_schematic(self.declarations(), STRING_MODULE_NAME@, STRING_TYPE_NAME@).is_none(),
            },
    {
        self.find_plain_type(STRING_MODULE_NAME, STRING_TYPE_NAME)
    }

    /// The type of booleans.
    pub fn find_bool_type(&self) -> (r: Option<Type>)
        ensures
            match r {
                Some(ty) => plain_schematic(self.declarations(), BOOL_MODULE_NAME@, BOOL_TYPE_NAME@) == Some(ty@),
                None => plain_schematic(self.declarations(), BOOL_MODULE_NAME@, BOOL_TYPE_NAME@).is_none(),
            },
    {
        self.find_plain_type(BOOL_MODULE_NAME, BOOL_TYPE_NAME)
    }

    /// The type of floats.
    pub fn find_float_type(&self) -> (r: Option<Type>)
        ensures
            match r {
                Some(ty) => plain_schematic(self.declarations(), FLOAT_MODULE_NAME@, FLOAT_TYPE_NAME@) == Some(ty@),
                None => plain_schematic(self.declarations(), FLOAT_MODULE_NAME@, FLOAT_TYPE_NAME@).is_none(),
            },
    {
        self.find_plain_type(FLOAT_MODULE_NAME, FLOAT_TYPE_NAME)
    }

    /// The type of integers.
    pub fn find_int_type(&self) -> (r: Option<Type>)
        ensures
            match r {
                Some(ty) => plain_schematic(self.declarations(), INT_MODULE_NAME@, INT_TYPE_NAME@) == Some(ty@),
                None => plain_schematic(self.declarations(), INT_MODULE_NAME@, INT_TYPE_NAME@).is_none(),
            },
    {
        self.find_plain_type(INT_MODULE_NAME, INT_TYPE_NAME)
    }

    /// The algebraic data type that `module` declares under `name`: none
    /// where no type is declared there, or the type is a record.
    pub fn find_adt_by_name(&self, module: &str, name: &str) -> (r: Option<&Adt>)
        ensures
            match named_type_of(self.named_types@, module@, name@) {
                Some(id) => if self.typedefs.contains(id.id) {
                    match self.typedefs.item(id.id) {
                        TypeDef::Adt(adt) => r == Some(&adt),
                        TypeDef::Record(_) => r.is_none(),
                    }
                } else {
                    r.is_none()
                },
                None => r.is_none(),
            },
    {
        match self.find_named_type(module, name) {
            Some(id) => match self.typedefs.get(id.id) {
                Some(TypeDef::Adt(adt)) => Some(adt),
                _ => None,
            },
            None => None,
        }
    }
}

impl Program {
    /// Allocates the id of the next type signature.
    pub fn get_type_signature_id(&mut self) -> (id: TypeSignatureId)
        ensures
            id.id == old(self).type_signatures.allocated(),
            *final(self) == (Program {
                type_signatures: ItemContainer { items: final(self).type_signatures.items },
                ..*old(self)
            }),
            final(self).type_signatures.items@ == old(self).type_signatures.items@.push(None),
    {
        TypeSignatureId { id: self.type_signatures.get_id() }
    }

    /// Allocates the id of the next expression.
    pub fn get_expr_id(&mut self) -> (id: ExprId)
        ensures
            id.id == old(self).exprs.allocated(),
            *final(self) == (Program {
                exprs: ItemContainer { items: final(self).exprs.items },
                ..*old(self)
            }),
            final(self).exprs.items@ == old(self).exprs.items@.push(None),
    {
        ExprId { id: self.exprs.get_id() }
    }

    /// Allocates the id of the next function.
    pub fn get_function_id(&mut self) -> (id: FunctionId)
        ensures
            id.id == old(self).functions.allocated(),
            *final(self) == (Program {
                functions: ItemContainer { items: final(self).functions.items },
                ..*old(self)
            }),
            final(self).functions.items@ == old(self).functions.items@.push(None),
    {
        FunctionId { id: self.functions.get_id() }
    }

    /// Allocates the id of the next type definition.
    pub fn get_typedef_id(&mut self) -> (id: TypeDefId)
        ensures
            id.id == old(self).typedefs.allocated(),
            *final(self) == (Program {
                typedefs: ItemContainer { items: final(self).typedefs.items },
                ..*old(self)
            }),
            final(self).typedefs.items@ == old(self).typedefs.items@.push(None),
    {
        TypeDefId { id: self.typedefs.get_id() }
    }

    /// Stores a type signature under its id.
    pub fn add_type_signature(&mut self, id: TypeSignatureId, type_info: ItemInfo<TypeSignature>)
        requires
            id.id < usize::MAX,
        ensures
            *final(self) == (Program {
                type_signatures: ItemContainer { items: final(self).type_signatures.items },
                ..*old(self)
            }),
            final(self).type_signatures.items@ == table_insert(
                old(self).type_signatures.items@,
                id.id,
                type_info,
            ),
    {
        self.type_signatures.insert(id.id, type_info);
    }

    /// The type signature under an id that holds one.
    pub fn get_type_signature(&self, id: &TypeSignatureId) -> (r: &TypeSignature)
        requires
            self.type_signatures.contains(id.id),
        ensures
            *r == self.type_signatures.item(id.id).item,
    {
        match self.type_signatures.get(id.id) {
            Some(info) => &info.item,
            None => vstd::pervasive::unreached(),
        }
    }

    /// The place of the type signature under an id that holds one.
    pub fn get_type_signature_location(&self, id: &TypeSignatureId) -> (r: LocationId)
        requires
            self.type_signatures.contains(id.id),
        ensures
            r == self.type_signatures.item(id.id).location_id,
    {
        match self.type_signatures.get(id.id) {
            Some(info) => info.location_id,
            None => vstd::pervasive::unreached(),
        }
    }

    /// Stores an expression under its id.
    pub fn add_expr(&mut self, id: ExprId, expr_info: ItemInfo<Expr>)
        requires
            id.id < usize::MAX,
        ensures
            *final(self) == (Program {
                exprs: ItemContainer { items: final(self).exprs.items },
                ..*old(self)
            }),
            final(self).exprs.items@ == table_insert(old(self).exprs.items@, id.id, expr_info),
    {
        self.exprs.insert(id.id, expr_info);
    }

    /// The expression under an id that holds one.
    pub fn get_expr(&self, id: &ExprId) -> (r: &Expr)
        requires
            self.exprs.contains(id.id),
        ensures
            *r == self.exprs.item(id.id).item,
    {
        match self.exprs.get(id.id) {
            Some(info) => &info.item,
            None => vstd::pervasive::unreached(),
        }
    }

    /// The place of the expression under an id that holds one.
    pub fn get_expr_location(&self, id: &ExprId) -> (r: LocationId)
        requires
            self.exprs.contains(id.id),
        ensures
            r == self.exprs.item(id.id).location_id,
    {
        match self.exprs.get(id.id) {
            Some(info) => info.location_id,
            None => vstd::pervasive::unreached(),
        }
    }

    /// Stores a function under its id.
    pub fn add_function(&mut self, id: FunctionId, function: Function)
        requires
            id.id < usize::MAX,
        ensures
            *final(self) == (Program {
                functions: ItemContainer { items: final(self).functions.items },
                ..*old(self)
            }),
            final(self).functions.items@ == table_insert(old(self).functions.items@, id.id, function),
    {
        self.functions.insert(id.id, function);
    }

    /// The function under an id that holds one.
    pub fn get_function(&self, id: &FunctionId) -> (r: &Function)
        requires
            self.functions.contains(id.id),
        ensures
            *r == self.functions.item(id.id),
    {
        match self.functions.get(id.id) {
            Some(function) => function,
            None => vstd::pervasive::unreached(),
        }
    }

    /// Stores a type definition under its id.
    pub fn add_typedef(&mut self, id: TypeDefId, typedef: TypeDef)
        requires
            id.id < usize::MAX,
        ensures
            *final(self) == (Program {
                typedefs: ItemContainer { items: final(self).typedefs.items },
                ..*old(self)
            }),
            final(self).typedefs.items@ == table_insert(old(self).typedefs.items@, id.id, typedef),
    {
        self.typedefs.insert(id.id, typedef);
    }

    /// The algebraic data type under an id that holds one.
    pub fn get_adt(&self, id: &TypeDefId) -> (r: &Adt)
        requires
            self.typedefs.contains(id.id),
            self.typedefs.item(id.id) is Adt,
        ensures
            self.typedefs.item(id.id) == TypeDef::Adt(*r),
    {
        match self.typedefs.get(id.id) {
            Some(typedef) => typedef.get_adt(),
            None => vstd::pervasive::unreached(),
        }
    }

    /// The record under an id that holds one.
    pub fn get_record(&self, id: &TypeDefId) -> (r: &Record)
        requires
            self.typedefs.contains(id.id),
            self.typedefs.item(id.id) is Record,
        ensures
            self.typedefs.item(id.id) == TypeDef::Record(*r),
    {
        match self.typedefs.get(id.id) {
            Some(typedef) => typedef.get_record(),
            None => vstd::pervasive::unreached(),
        }
    }

    /// The type of orderings.
    pub fn find_ordering_type(&self) -> (r: Option<Type>)
        ensures
            match r {
                Some(ty) => plain_schematic(
                    self.declarations(),
                    ORDERING_MODULE_NAME@,
                    ORDERING_TYPE_NAME@,
                ) == Some(ty@),
                None => plain_schematic(
                    self.declarations(),
                    ORDERING_MODULE_NAME@,
                    ORDERING_TYPE_NAME@,
                ).is_none(),
            },
    {
        self.find_plain_type(ORDERING_MODULE_NAME, ORDERING_TYPE_NAME)
    }

    /// The type of options of `ty`.
    pub fn find_option_type(&self, ty: Type) -> (r: Option<Type>)
        ensures
            match named_type_of(self.named_types@, OPTION_MODULE_NAME@, OPTION_TYPE_NAME@) {
                Some(id) => r.is_some() && r.unwrap()@ == TypeModel::Named(
                    OPTION_TYPE_NAME@,
                    id,
                    seq![ty@],
                ),
                None => r.is_none(),
            },
    {
        match self.find_named_type(OPTION_MODULE_NAME, OPTION_TYPE_NAME) {
            Some(id) => {
                let mut args: Vec<Type> = Vec::new();
                args.push(ty);
                assert(type_models(args@) =~= seq![ty@]);
                Some(Type::Named(String::from_str(OPTION_TYPE_NAME), id, args))
            },
            None => None,
        }
    }

    /// A type that stands for any type with an instance of the class
    /// `Show`: a variable with the index that the program's supply of
    /// variables gives next, which stays where it is. None where the
    /// program has no class `Show`, or the supply is used up.
    pub fn find_show_type(&self) -> (r: Option<Type>)
        ensures
            match class_named(self.class_names@, SHOW_CLASS_NAME@) {
                Some(class_id) => if self.type_var_generator.next_index() < usize::MAX {
                    r.is_some() && r.unwrap()@ == TypeModel::Var(
                        self.type_var_generator.next_index() as usize,
                        seq![class_id],
                    )
                } else {
                    r.is_none()
                },
                None => r.is_none(),
            },
    {
        match find_member(&self.class_names, SHOW_CLASS_NAME) {
            Some(class_id) => {
                let mut var = self.type_var_generator.copy();
                match var.get_new_index() {
                    Some(index) => {
                        let mut constraints: Vec<ClassId> = Vec::new();
                        constraints.push(class_id);
                        assert(constraints@ =~= seq![class_id]);
                        Some(Type::Var(index, constraints))
                    },
                    None => None,
                }
            },
            None => None,
        }
    }

    /// A unifier that draws its variables behind those of the program.
    pub fn get_unifier(&self) -> (r: Unifier)
        ensures
            r.substitution@ == empty_substitution(),
            r.type_var_generator.next_index() == self.type_var_generator.next_index(),
    {
        Unifier::new(self.type_var_generator.copy())
    }
}

impl Program {
    /// The id of the type that `module` declares under `name`, which the
    /// program must have.
    pub fn get_named_type(&self, module: &str, name: &str) -> (r: TypeDefId)
        requires
            named_type_of(self.named_types@, module@, name@) is Some,
        ensures
            Some(r) == named_type_of(self.named_types@, module@, name@),
    {
        match self.find_named_type(module, name) {
            Some(id) => id,
            None => vstd::pervasive::unreached(),
        }
    }

    /// The module and the name of a type that the program has.
    pub fn get_module_and_name(&self, typedef_id: TypeDefId) -> (r: (String, String))
        requires
            self.typedefs.contains(typedef_id.id),
        ensures
            r.0@ == self.typedefs.item(typedef_id.id).module(),
            r.1@ == self.typedefs.item(typedef_id.id).name(),
    {
        match self.find_module_and_name(typedef_id) {
            Some(names) => names,
            None => vstd::pervasive::unreached(),
        }
    }

    /// The schematic type without arguments that `module` declares under
    /// `name`, which the program must have.
    pub fn get_plain_type(&self, module: &str, name: &str) -> (r: Type)
        requires
            plain_schematic(self.declarations(), module@, name@) is Some,
        ensures
            plain_schematic(self.declarations(), module@, name@) == Some(r@),
    {
        match self.find_plain_type(module, name) {
            Some(ty) => ty,
            None => vstd::pervasive::unreached(),
        }
    }

    /// The id of the type of lists, which the program must have.
    pub fn get_list_type_id(&self) -> (r: TypeDefId)
        requires
            named_type_of(self.named_types@, LIST_MODULE_NAME@, LIST_TYPE_NAME@) is Some,
        ensures
            Some(r) == named_type_of(self.named_types@, LIST_MODULE_NAME@, LIST_TYPE_NAME@),
    {
        self.get_named_type(LIST_MODULE_NAME, LIST_TYPE_NAME)
    }

    /// The type of lists of `ty`, in a program that has the type of lists.
    pub fn get_list_type(&self, ty: Type) -> (r: Type)
        requires
            list_schematic(self.declarations(), ty@) is Some,
        ensures
            list_schematic(self.declarations(), ty@) == Some(r@),
    {
        match self.find_list_type(ty) {
            Some(list) => list,
            None => vstd::pervasive::unreached(),
        }
    }

    /// The type of strings, which the program must have.
    pub fn get_string_type(&self) -> (r: Type)
        requires
            plain_schematic(self.declarations(), STRING_MODULE_NAME@, STRING_TYPE_NAME@) is Some,
        ensures
            plain_schematic(self.declarations(), STRING_MODULE_NAME@, STRING_TYPE_NAME@) == Some(r@),
    {
        self.get_plain_type(STRING_MODULE_NAME, STRING_TYPE_NAME)
    }

    /// The type of booleans, which the program must have.
    pub fn get_bool_type(&self) -> (r: Type)
        requires
            plain_schematic(self.declarations(), BOOL_MODULE_NAME@, BOOL_TYPE_NAME@) is Some,
        ensures
            plain_schematic(self.declarations(), BOOL_MODULE_NAME@, BOOL_TYPE_NAME@) == Some(r@),
    {
        self.get_plain_type(BOOL_MODULE_NAME, BOOL_TYPE_NAME)
    }

    /// The type of floats, which the program must have.
    pub fn get_float_type(&self) -> (r: Type)
        requires
            plain_schematic(self.declarations(), FLOAT_MODULE_NAME@, FLOAT_TYPE_NAME@) is Some,
        ensures
            plain_schematic(self.declarations(), FLOAT_MODULE_NAME@, FLOAT_TYPE_NAME@) == Some(r@),
    {
        self.get_plain_type(FLOAT_MODULE_NAME, FLOAT_TYPE_NAME)
    }

    /// The type of integers, which the program must have.
    pub fn get_int_type(&self) -> (r: Type)
        requires
            plain_schematic(self.declarations(), INT_MODULE_NAME@, INT_TYPE_NAME@) is Some,
        ensures
            plain_schematic(self.declarations(), INT_MODULE_NAME@, INT_TYPE_NAME@) == Some(r@),
    {
        self.get_plain_type(INT_MODULE_NAME, INT_TYPE_NAME)
    }

    /// The type of orderings, which the program must have.
    pub fn get_ordering_type(&self) -> (r: Type)
        requires
            plain_schematic(self.declarations(), ORDERING_MODULE_NAME@, ORDERING_TYPE_NAME@) is Some,
        ensures
            plain_schematic(self.declarations(), ORDERING_MODULE_NAME@, ORDERING_TYPE_NAME@) == Some(
                r@,
            ),
    {
        self.get_plain_type(ORDERING_MODULE_NAME, ORDERING_TYPE_NAME)
    }

    /// The type of options of `ty`, in a program that has the type of
    /// options.
    pub fn get_option_type(&self, ty: Type) -> (r: Type)
        requires
            named_type_of(self.named_types@, OPTION_MODULE_NAME@, OPTION_TYPE_NAME@) is Some,
        ensures
            r@ == TypeModel::Named(
                OPTION_TYPE_NAME@,
                named_type_of(self.named_types@, OPTION_MODULE_NAME@, OPTION_TYPE_NAME@).unwrap(),
                seq![ty@],
            ),
    {
        match self.find_option_type(ty) {
            Some(option) => option,
            None => vstd::pervasive::unreached(),
        }
    }

    /// A type that stands for any type with an instance of the class
    /// `Show`, in a program that has the class and whose supply of
    /// variables is not used up: a variable with the index that the supply
    /// gives next, which stays where it is.
    pub fn get_show_type(&self) -> (r: Type)
        requires
            class_named(self.class_names@, SHOW_CLASS_NAME@) is Some,
            self.type_var_generator.next_index() < usize::MAX,
        ensures
            r@ == TypeModel::Var(
                self.type_var_generator.next_index() as usize,
                seq![class_named(self.class_names@, SHOW_CLASS_NAME@).unwrap()],
            ),
    {
        match self.find_show_type() {
            Some(ty) => ty,
            None => vstd::pervasive::unreached(),
        }
    }

    /// The algebraic data type that `module` declares under `name`, which
    /// the program must have.
    pub fn get_adt_by_name(&self, module: &str, name: &str) -> (r: &Adt)
        requires
            named_type_of(self.named_types@, module@, name@) is Some,
            self.typedefs.contains(named_type_of(self.named_types@, module@, name@).unwrap().id),
            self.typedefs.item(named_type_of(self.named_types@, module@, name@).unwrap().id) is Adt,
        ensures
            self.typedefs.item(named_type_of(self.named_types@, module@, name@).unwrap().id)
                == TypeDef::Adt(*r),
    {
        match self.find_adt_by_name(module, name) {
            Some(adt) => adt,
            None => vstd::pervasive::unreached(),
        }
    }
}

} // verus!
