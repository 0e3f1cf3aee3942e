//! Built-in functions: the contract they share, and the registry that finds
//! them by module and name.

use crate::interpreter::environment::explicit_of;
use crate::interpreter::environment::Environment;
use crate::interpreter::error::EvalError;
use crate::interpreter::value::value_models;
use crate::interpreter::value::Value;
use crate::interpreter::value::ValueModel;
use crate::ir::concrete::ConcreteModel;
use crate::ir::concrete::ConcreteType;
use crate::ir::data::Adt;
use crate::ir::data::TypeDefId;
use crate::ir::expr::ExprId;
use crate::ir::function::NamedFunctionKind;
use crate::util::str_equal;
use vstd::prelude::*;

verus! {

/// The position of the last variant of `variants` called `name`.
pub open spec fn variant_index(variants: Seq<(String, usize)>, name: Seq<char>) -> Option<usize>
    decreases variants.len(),
{
    if variants.len() == 0 {
        None
    } else if variants.last().0@ == name {
        Some(variants.last().1)
    } else {
        variant_index(variants.drop_last(), name)
    }
}

/// The positions of the variants of one algebraic data type, by name.
#[derive(Debug, Clone)]
pub struct VariantCache {
    pub variants: Vec<(String, usize)>,
}

impl VariantCache {
    /// The cache for `adt`: each variant's name with its position.
    pub fn new(adt: &Adt) -> (cache: VariantCache)
        ensures
            cache.variants@.len() == adt.variants@.len(),
            forall|i: int|
                0 <= i < adt.variants@.len() ==> (#[trigger] cache.variants@[i]).0@
                    == adt.variants@[i].name@ && cache.variants@[i].1 == i,
    {
        let mut variants: Vec<(String, usize)> = Vec::new();
        let mut index: usize = 0;
        while index < adt.variants.len()
            invariant
                index <= adt.variants.len(),
                variants.len() == index,
                forall|i: int|
                    0 <= i < index ==> (#[trigger] variants@[i]).0@ == adt.variants@[i].name@
                        && variants@[i].1 == i,
            decreases adt.variants.len() - index,
        {
            variants.push((adt.variants[index].name.clone(), index));
            index = index + 1;
        }
        VariantCache { variants }
    }

    /// The position of the variant called `name`, which the cache must
    /// hold: of the last one, where several carry the name.
    pub fn get_index(&self, name: &str) -> (r: usize)
        requires
            variant_index(self.variants@, name@) is Some,
        ensures
            Some(r) == variant_index(self.variants@, name@),
    {
        match self.find_index(name) {
            Some(index) => index,
            None => vstd::pervasive::unreached(),
        }
    }

    /// The position of the variant called `name`, if the cache holds one:
    /// of the last one, where several carry the name.
    pub fn find_index(&self, name: &str) -> (r: Option<usize>)
        ensures
            r == variant_index(self.variants@, name@),
    {
        let mut j: usize = self.variants.len();
        assert(self.variants@.subrange(0, j as int) =~= self.variants@);
        while j > 0
            invariant
                j <= self.variants.len(),
                variant_index(self.variants@, name@) == variant_index(
                    self.variants@.subrange(0, j as int),
                    name@,
                ),
            decreases j,
        {
            let ghost prefix = self.variants@.subrange(0, j as int);
            assert(prefix.drop_last() =~= self.variants@.subrange(0, j - 1));
            if str_equal(self.variants[j - 1].0.as_str(), name) {
                return Some(self.variants[j - 1].1);
            }
            j = j - 1;
        }
        None
    }
}

/// The built-in types that built-in functions make values of.
#[derive(Debug, Clone)]
pub struct TypeDefIdCache {
    pub option_id: TypeDefId,
    pub ordering_id: TypeDefId,
    pub option_variants: VariantCache,
    pub ordering_variants: VariantCache,
}

/// A call of a class member that a built-in function asks the evaluator
/// to make for it: the member called `member_name` of the class called
/// `class_name`, on `args`, where a result of type `expected` is wanted.
#[derive(Debug)]
pub struct DispatchRequest {
    pub class_name: String,
    pub member_name: String,
    pub args: Vec<Value>,
    pub expected: ConcreteType,
}

/// The mathematical model of a request.
pub ghost struct RequestModel {
    pub class_name: Seq<char>,
    pub member_name: Seq<char>,
    pub args: Seq<ValueModel>,
    pub expected: ConcreteModel,
}

impl View for DispatchRequest {
    type V = RequestModel;

    open spec fn view(&self) -> RequestModel {
        RequestModel {
            class_name: self.class_name@,
            member_name: self.member_name@,
            args: value_models(self.args@),
            expected: self.expected@,
        }
    }
}

/// A built-in function. It reads its arguments from the environment by
/// position and returns a value of the expected type. It re-enters class
/// dispatch by asking: before it is called, the evaluator asks it which
/// call of a class member it wants made, makes the call, and asks again
/// with the answer, until the built-in wants no more; then it is called
/// with all the answers. What it asks for and what it returns are functions
/// of the explicit arguments, the kind, the expected type, the built-in
/// types and the answers so far alone.
pub trait ExternFunction {
    /// The call of a class member that the built-in wants made next, given
    /// the answers to those it asked for before; none where it wants no
    /// more.
    spec fn requested(
        &self,
        args: Seq<ValueModel>,
        kind: NamedFunctionKind,
        ty: ConcreteModel,
        cache: &Option<TypeDefIdCache>,
        answers: Seq<ValueModel>,
    ) -> Option<RequestModel>;

    fn request(
        &self,
        environment: &Environment,
        kind: &NamedFunctionKind,
        ty: &ConcreteType,
        cache: &Option<TypeDefIdCache>,
        answers: &Vec<Value>,
    ) -> (r: Option<DispatchRequest>)
        ensures
            match r {
                Some(q) => self.requested(
                    explicit_args(environment),
                    *kind,
                    ty@,
                    cache,
                    value_models(answers@),
                ) == Some(q@),
                None => self.requested(
                    explicit_args(environment),
                    *kind,
                    ty@,
                    cache,
                    value_models(answers@),
                ) is None,
            },
    ;

    /// What a call returns, given the answers to what the built-in asked
    /// for.
    spec fn result(
        &self,
        args: Seq<ValueModel>,
        kind: NamedFunctionKind,
        ty: ConcreteModel,
        cache: &Option<TypeDefIdCache>,
        answers: Seq<ValueModel>,
    ) -> Result<ValueModel, EvalError>;

    fn call(
        &self,
        environment: &Environment,
        current_expr: Option<ExprId>,
        kind: &NamedFunctionKind,
        ty: ConcreteType,
        cache: &Option<TypeDefIdCache>,
        answers: &Vec<Value>,
    ) -> (r: Result<Value, EvalError>)
        ensures
            match r {
                Ok(v) => self.result(
                    explicit_args(environment),
                    *kind,
                    ty@,
                    cache,
                    value_models(answers@),
                ) == Ok::<ValueModel, EvalError>(v@),
                Err(e) => self.result(
                    explicit_args(environment),
                    *kind,
                    ty@,
                    cache,
                    value_models(answers@),
                ) == Err::<ValueModel, EvalError>(e),
            },
    ;
}

/// The explicit arguments of an environment: those behind the implicit ones.
pub open spec fn explicit_args(environment: &Environment) -> Seq<ValueModel> {
    explicit_of(environment@.args, environment@.implicit_arg_count)
}

/// A built-in function with the module and the name it is registered under.
pub struct ExternEntry<F> {
    pub module: String,
    pub name: String,
    pub function: F,
}

/// The position of the last entry registered under `module` and `name`.
pub open spec fn extern_position<F>(entries: Seq<ExternEntry<F>>, module: Seq<char>, name: Seq<char>) -> Option<
    int,
>
    decreases entries.len(),
{
    if entries.len() == 0 {
        None
    } else if entries.last().module@ == module && entries.last().name@ == name {
        Some(entries.len() - 1)
    } else {
        extern_position(entries.drop_last(), module, name)
    }
}

} // verus!
