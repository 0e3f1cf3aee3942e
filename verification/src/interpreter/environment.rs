//! The environment of one function execution: its arguments, and the values
//! that patterns were bound to.

use crate::interpreter::value::value_models;
use crate::interpreter::value::copy_values;
use crate::interpreter::value::Value;
use crate::interpreter::value::ValueModel;
use crate::ir::expr::FunctionArgumentRef;
use crate::ir::function::FunctionId;
use crate::ir::pattern::PatternId;
use vstd::prelude::*;

verus! {

/// The mathematical model of an environment.
pub ghost struct EnvModel {
    pub args: Seq<ValueModel>,
    pub implicit_arg_count: nat,
    pub bindings: Seq<(PatternId, ValueModel)>,
}

impl EnvModel {
    /// The position among the arguments that an argument reference stands
    /// for: a captured argument counts from the start, an explicit one from
    /// behind the implicit ones.
    pub open spec fn arg_position(self, arg_ref: FunctionArgumentRef) -> nat {
        if arg_ref.captured {
            arg_ref.index as nat
        } else {
            self.implicit_arg_count + arg_ref.index as nat
        }
    }

    /// The value bound to `pattern_id`: the one bound last. An inner block's
    /// bindings come after those of the blocks around it, so that an inner
    /// binding is found first and an outer one where there is no inner one.
    pub open spec fn lookup(self, pattern_id: PatternId) -> Option<ValueModel> {
        binding_value(self.bindings, pattern_id)
    }

    /// The environment with one more binding.
    pub open spec fn add(self, pattern_id: PatternId, value: ValueModel) -> EnvModel {
        EnvModel { bindings: self.bindings.push((pattern_id, value)), ..self }
    }

    /// Whether this environment is `older` with more bindings behind those
    /// that `older` has.
    pub open spec fn extends(self, older: EnvModel) -> bool {
        older.bindings.len() <= self.bindings.len() && self.truncate(older.bindings.len()) == older
    }

    /// The environment with only its first `count` bindings.
    pub open spec fn truncate(self, count: nat) -> EnvModel {
        EnvModel { bindings: self.bindings.take(count as int), ..self }
    }
}

/// Every environment extends itself.
pub broadcast proof fn lemma_extends_itself(env: EnvModel)
    ensures
        #[trigger] env.extends(env),
{
    assert(env.bindings.take(env.bindings.len() as int) =~= env.bindings);
}

/// An environment that extends one that extends a third extends the third.
pub broadcast proof fn lemma_extends_chain(a: EnvModel, b: EnvModel, c: EnvModel)
    requires
        #[trigger] a.extends(b),
        #[trigger] b.extends(c),
    ensures
        a.extends(c),
{
    assert(a.bindings.take(c.bindings.len() as int) =~= b.bindings.take(c.bindings.len() as int));
}

/// An environment with one more binding extends the one without it.
pub broadcast proof fn lemma_add_extends(env: EnvModel, pattern_id: PatternId, value: ValueModel)
    ensures
        #[trigger] env.add(pattern_id, value).extends(env),
{
    assert(env.add(pattern_id, value).bindings.take(env.bindings.len() as int) =~= env.bindings);
}

/// An environment extends what cutting it back leaves.
pub proof fn lemma_extends_truncated(env: EnvModel, mark: nat)
    requires
        mark <= env.bindings.len(),
    ensures
        env.extends(env.truncate(mark)),
{
    assert(env.truncate(mark).bindings.take(mark as int) =~= env.truncate(mark).bindings);
}

/// Cutting an environment back below the length of one it extends leaves
/// what cutting that one back leaves.
pub proof fn lemma_truncate_of_extension(later: EnvModel, earlier: EnvModel, mark: nat)
    requires
        later.extends(earlier),
        mark <= earlier.bindings.len(),
    ensures
        later.truncate(mark) == earlier.truncate(mark),
{
    assert(later.bindings.take(mark as int) =~= earlier.bindings.take(mark as int));
}

/// The explicit arguments among `args`: those behind the first
/// `implicit_arg_count`.
pub open spec fn explicit_of(args: Seq<ValueModel>, implicit_arg_count: nat) -> Seq<ValueModel> {
    if implicit_arg_count <= args.len() {
        args.skip(implicit_arg_count as int)
    } else {
        Seq::empty()
    }
}

/// The value that the last binding of `pattern_id` in `bindings` gives it.
pub open spec fn binding_value(bindings: Seq<(PatternId, ValueModel)>, pattern_id: PatternId) -> Option<
    ValueModel,
>
    decreases bindings.len(),
{
    if bindings.len() == 0 {
        None
    } else if bindings.last().0 == pattern_id {
        Some(bindings.last().1)
    } else {
        binding_value(bindings.drop_last(), pattern_id)
    }
}

/// The models of a list of bindings.
pub open spec fn binding_models(bindings: Seq<(PatternId, Value)>) -> Seq<(PatternId, ValueModel)> {
    Seq::new(bindings.len(), |i: int| (bindings[i].0, bindings[i].1@))
}

/// The environment of one function execution.
#[derive(Debug)]
pub struct Environment {
    pub function_id: FunctionId,
    pub args: Vec<Value>,
    pub implicit_arg_count: usize,
    pub bindings: Vec<(PatternId, Value)>,
}

impl View for Environment {
    type V = EnvModel;

    open spec fn view(&self) -> EnvModel {
        EnvModel {
            args: value_models(self.args@),
            implicit_arg_count: self.implicit_arg_count as nat,
            bindings: binding_models(self.bindings@),
        }
    }
}

impl Environment {
    /// The environment at the start of an execution of `function_id` on `args`.
    pub fn new(function_id: FunctionId, args: Vec<Value>, implicit_arg_count: usize) -> (env:
        Environment)
        ensures
            env.function_id == function_id,
            env@ == (EnvModel {
                args: value_models(args@),
                implicit_arg_count: implicit_arg_count as nat,
                bindings: Seq::empty(),
            }),
    {
        let env = Environment { function_id, args, implicit_arg_count, bindings: Vec::new() };
        assert(env@.bindings =~= Seq::empty());
        env
    }

    /// Binds `pattern_id` to `value`.
    pub fn add(&mut self, pattern_id: PatternId, value: Value)
        ensures
            final(self)@ == old(self)@.add(pattern_id, value@),
            final(self).function_id == old(self).function_id,
    {
        self.bindings.push((pattern_id, value));
        assert(self@.bindings =~= old(self)@.bindings.push((pattern_id, value@)));
    }

    /// The value bound to `pattern_id`, if one is.
    pub fn get_value(&self, pattern_id: PatternId) -> (r: Option<Value>)
        ensures
            match r {
                Some(v) => self@.lookup(pattern_id) == Some(v@),
                None => self@.lookup(pattern_id).is_none(),
            },
    {
        let mut j: usize = self.bindings.len();
        assert(self@.bindings.subrange(0, j as int) =~= self@.bindings);
        while j > 0
            invariant
                j <= self.bindings.len(),
                binding_value(self@.bindings, pattern_id) == binding_value(
                    self@.bindings.subrange(0, j as int),
                    pattern_id,
                ),
            decreases j,
        {
            let ghost prefix = self@.bindings.subrange(0, j as int);
            assert(prefix.drop_last() =~= self@.bindings.subrange(0, j - 1));
            if self.bindings[j - 1].0.id == pattern_id.id {
                return Some(self.bindings[j - 1].1.copy());
            }
            j = j - 1;
        }
        None
    }

    /// The argument that `arg_ref` stands for, if there is one at its position.
    pub fn get_arg(&self, arg_ref: &FunctionArgumentRef) -> (r: Option<Value>)
        ensures
            match r {
                Some(v) => self@.arg_position(*arg_ref) < self@.args.len() && v@
                    == self@.args[self@.arg_position(*arg_ref) as int],
                None => self@.arg_position(*arg_ref) >= self@.args.len(),
            },
    {
        if arg_ref.captured {
            self.arg_at(arg_ref.index)
        } else {
            self.get_arg_by_index(arg_ref.index)
        }
    }

    /// The explicit argument at position `index`, if there is one.
    pub fn get_arg_by_index(&self, index: usize) -> (r: Option<Value>)
        ensures
            match r {
                Some(v) => self@.implicit_arg_count + index < self@.args.len() && v@
                    == self@.args[self@.implicit_arg_count + index],
                None => self@.implicit_arg_count + index >= self@.args.len(),
            },
    {
        if index < self.args.len() && self.implicit_arg_count < self.args.len() - index {
            self.arg_at(self.implicit_arg_count + index)
        } else {
            None
        }
    }

    /// The argument at `position`, counted from the first implicit one.
    fn arg_at(&self, position: usize) -> (r: Option<Value>)
        ensures
            match r {
                Some(v) => position < self@.args.len() && v@ == self@.args[position as int],
                None => position >= self@.args.len(),
            },
    {
        if position < self.args.len() {
            Some(self.args[position].copy())
        } else {
            None
        }
    }

    /// The number of bindings made so far: the mark to which `leave_block`
    /// returns.
    pub fn block_child(&self) -> (mark: usize)
        ensures
            mark == self@.bindings.len(),
    {
        self.bindings.len()
    }

    /// Drops the bindings made since `mark` was taken.
    pub fn leave_block(&mut self, mark: usize)
        requires
            mark <= old(self)@.bindings.len(),
        ensures
            final(self)@ == old(self)@.truncate(mark as nat),
            final(self).function_id == old(self).function_id,
    {
        self.bindings.truncate(mark);
        assert(self@.bindings =~= old(self)@.bindings.take(mark as int));
    }

    /// A deep copy.
    pub fn copy(&self) -> (r: Environment)
        ensures
            r@ == self@,
            r.function_id == self.function_id,
    {
        let mut bindings: Vec<(PatternId, Value)> = Vec::new();
        let mut i: usize = 0;
        while i < self.bindings.len()
            invariant
                i <= self.bindings.len(),
                bindings.len() == i,
                forall|k: int|
                    0 <= k < i ==> (#[trigger] bindings@[k]).0 == self.bindings@[k].0
                        && bindings@[k].1@ == self.bindings@[k].1@,
            decreases self.bindings.len() - i,
        {
            bindings.push((self.bindings[i].0, self.bindings[i].1.copy()));
            i = i + 1;
        }
        let r = Environment {
            function_id: self.function_id,
            args: copy_values(&self.args),
            implicit_arg_count: self.implicit_arg_count,
            bindings,
        };
        assert(r@.bindings =~= self@.bindings);
        r
    }
}

} // verus!
