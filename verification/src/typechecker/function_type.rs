//! Function types taken apart: the argument types of a curried function
//! type, and what is left behind a number of arguments.

use crate::ir::types::type_models;
use crate::ir::types::Type;
use crate::ir::types::TypeModel;
use vstd::prelude::*;

verus! {

/// What is left of a function type to `to` behind `count` arguments: `to`
/// behind one argument, or where `to` is no function type; else what is
/// left of `to` behind one argument less.
pub open spec fn return_type_after(to: TypeModel, count: nat) -> TypeModel
    decreases count,
{
    if count <= 1 {
        to
    } else {
        match to {
            TypeModel::Function(_, rest) => return_type_after(*rest, (count - 1) as nat),
            _ => to,
        }
    }
}

/// The argument types of a curried function type from `from` to `to`:
/// `from`, then the argument types of `to` where that is a function type.
pub open spec fn arg_types_of(from: TypeModel, to: TypeModel) -> Seq<TypeModel>
    decreases to,
{
    match to {
        TypeModel::Function(next, rest) => seq![from] + arg_types_of(*next, *rest),
        _ => seq![from],
    }
}

/// A function type: the type of the argument and the type of the result.
#[derive(Debug)]
pub struct FunctionType {
    pub from: Type,
    pub to: Type,
}

impl FunctionType {
    pub fn new(from: Type, to: Type) -> (r: FunctionType)
        ensures
            r.from == from,
            r.to == to,
    {
        FunctionType { from, to }
    }

    /// What the function returns once it has `arg_count` arguments.
    pub fn get_return_type(&self, arg_count: usize) -> (r: Type)
        requires
            arg_count >= 1,
        ensures
            r@ == return_type_after(self.to@, arg_count as nat),
    {
        let mut current: &Type = &self.to;
        let mut left: usize = arg_count;
        while left > 1
            invariant
                left >= 1,
                return_type_after(self.to@, arg_count as nat) == return_type_after(
                    current@,
                    left as nat,
                ),
            decreases left,
        {
            match current {
                Type::Function(_, rest) => {
                    current = &**rest;
                    left = left - 1;
                },
                _ => {
                    return current.copy();
                },
            }
        }
        current.copy()
    }

    /// Adds the types of the arguments that the function takes one after
    /// the other to `arg_vars`.
    pub fn get_arg_types(&self, arg_vars: &mut Vec<Type>)
        ensures
            type_models(final(arg_vars)@) == type_models(old(arg_vars)@) + arg_types_of(
                self.from@,
                self.to@,
            ),
    {
        let mut from: &Type = &self.from;
        let mut to: &Type = &self.to;
        let ghost start = type_models(arg_vars@);
        assert(start + Seq::<TypeModel>::empty() =~= start);
        let ghost mut done = Seq::<TypeModel>::empty();
        loop
            invariant
                start == type_models(old(arg_vars)@),
                type_models(arg_vars@) == start + done,
                arg_types_of(self.from@, self.to@) == done + arg_types_of(from@, to@),
            decreases to@.size(),
        {
            let ghost before = type_models(arg_vars@);
            arg_vars.push(from.copy());
            assert(type_models(arg_vars@) =~= before.push(from@));
            match to {
                Type::Function(next, rest) => {
                    proof {
                        assert(arg_types_of(from@, to@) == seq![from@] + arg_types_of(
                            next@,
                            rest@,
                        ));
                        assert(start + done.push(from@) =~= (start + done).push(from@));
                        assert(done.push(from@) + arg_types_of(next@, rest@) =~= done + (seq![
                            from@,
                        ] + arg_types_of(next@, rest@)));
                        done = done.push(from@);
                    }
                    from = &**next;
                    to = &**rest;
                },
                _ => {
                    assert(to@ == to.model());
                    assert(arg_types_of(from@, to@) =~= seq![from@]);
                    assert(start + (done + seq![from@]) =~= (start + done).push(from@));
                    return ;
                },
            }
        }
    }
}

} // verus!
