//! Types as text, for diagnostics.

use crate::interpreter::show::digits;
use crate::interpreter::show::show_index;
use crate::ir::types::type_models;
use crate::ir::types::Type;
use crate::ir::types::TypeModel;
use crate::typechecker::function_type::FunctionType;
use vstd::prelude::*;
use vstd::string::*;

verus! {

/// Whether a type is put in brackets where it is an argument: a function
/// type, or a named type with arguments.
pub open spec fn bracketed(ty: TypeModel) -> bool {
    match ty {
        TypeModel::Function(_, _) => true,
        TypeModel::Named(_, _, items) => items.len() > 0,
        _ => false,
    }
}

/// The text of a type. A tuple is its items in round brackets, with commas
/// between them; a named type is its name and its arguments, with spaces
/// between them; a function type is its argument, an arrow and its result;
/// a free variable is the letter `t` and its index; a rigid variable is
/// its name. An argument that is itself a function type or a named type
/// with arguments stands in round brackets.
pub open spec fn type_text(ty: TypeModel) -> Seq<char>
    decreases ty, 0nat,
{
    match ty {
        TypeModel::Tuple(items) => seq!['('] + list_text(items, 0) + seq![')'],
        TypeModel::Named(name, _, items) => name + args_text(items, 0),
        TypeModel::Function(from, to) => atom_text(*from) + seq![' ', '-', '>', ' '] + type_text(*to),
        TypeModel::Var(index, _) => seq!['t'] + digits(index as nat),
        TypeModel::FixedVar(_, name, _) => name,
    }
}

/// The text of a type as an argument.
pub open spec fn atom_text(ty: TypeModel) -> Seq<char>
    decreases ty, 1nat,
{
    if bracketed(ty) {
        seq!['('] + type_text(ty) + seq![')']
    } else {
        type_text(ty)
    }
}

/// The texts of the items from position `from` on, each but the first item
/// of the list behind a comma and a space.
pub open spec fn list_text(items: Seq<TypeModel>, from: int) -> Seq<char>
    decreases items, items.len() - from,
{
    if 0 <= from < items.len() {
        (if from > 0 {
            seq![',', ' ']
        } else {
            Seq::<char>::empty()
        }) + type_text(items[from]) + list_text(items, from + 1)
    } else {
        Seq::empty()
    }
}

/// The texts of the arguments from position `from` on, each behind a
/// space.
pub open spec fn args_text(items: Seq<TypeModel>, from: int) -> Seq<char>
    decreases items, items.len() - from,
{
    if 0 <= from < items.len() {
        seq![' '] + atom_text(items[from]) + args_text(items, from + 1)
    } else {
        Seq::empty()
    }
}

/// Whether a type is put in brackets where it is an argument.
fn is_bracketed(ty: &Type) -> (r: bool)
    ensures
        r == bracketed(ty@),
{
    match ty {
        Type::Function(_, _) => true,
        Type::Named(_, _, items) => {
            assert(ty@ matches TypeModel::Named(_, _, ms) ==> ms == type_models(items@));
            items.len() > 0
        },
        _ => false,
    }
}

/// Writes the text of a type as an argument behind what `out` holds.
#[verifier::loop_isolation(false)]
fn write_atom(ty: &Type, out: &mut String)
    ensures
        final(out)@ == old(out)@ + atom_text(ty@),
    decreases ty, 1nat,
{
    if is_bracketed(ty) {
        proof {
            reveal_strlit("(");
            reveal_strlit(")");
        }
        out.append("(");
        write_type(ty, out);
        out.append(")");
        assert(out@ =~= old(out)@ + (seq!['('] + type_text(ty@) + seq![')']));
    } else {
        write_type(ty, out);
    }
}

/// Writes the text of a type behind what `out` holds.
#[verifier::loop_isolation(false)]
pub fn write_type(ty: &Type, out: &mut String)
    ensures
        final(out)@ == old(out)@ + type_text(ty@),
    decreases ty, 0nat,
{
    proof {
        reveal_strlit("(");
        reveal_strlit(")");
        reveal_strlit(", ");
        reveal_strlit(" ");
        reveal_strlit(" -> ");
        reveal_strlit("t");
    }
    match ty {
        Type::Tuple(items) => {
            assert(ty@ matches TypeModel::Tuple(ms) ==> ms == type_models(items@));
            let ghost models = type_models(items@);
            out.append("(");
            let ghost start = out@;
            let mut i: usize = 0;
            while i < items.len()
                invariant
                    i <= items.len(),
                    models == type_models(items@),
                    start + list_text(models, 0) == out@ + list_text(models, i as int),
                decreases items.len() - i,
            {
                let ghost before = out@;
                if i > 0 {
                    out.append(", ");
                }
                assert(models[i as int] == items@[i as int]@);
                write_type(&items[i], out);
                assert(out@ + list_text(models, i + 1) =~= before + list_text(models, i as int));
                i = i + 1;
            }
            out.append(")");
            assert(out@ =~= old(out)@ + (seq!['('] + list_text(models, 0) + seq![')']));
        },
        Type::Named(name, _, items) => {
            assert(ty@ matches TypeModel::Named(_, _, ms) ==> ms == type_models(items@));
            let ghost models = type_models(items@);
            out.append(name.as_str());
            let ghost start = out@;
            let mut i: usize = 0;
            while i < items.len()
                invariant
                    i <= items.len(),
                    models == type_models(items@),
                    start + args_text(models, 0) == out@ + args_text(models, i as int),
                decreases items.len() - i,
            {
                let ghost before = out@;
                out.append(" ");
                assert(models[i as int] == items@[i as int]@);
                write_atom(&items[i], out);
                assert(out@ + args_text(models, i + 1) =~= before + args_text(models, i as int));
                i = i + 1;
            }
            assert(out@ =~= old(out)@ + (name@ + args_text(models, 0)));
        },
        Type::Function(from, to) => {
            write_atom(from, out);
            out.append(" -> ");
            write_type(to, out);
            assert(out@ =~= old(out)@ + (atom_text(from@) + seq![' ', '-', '>', ' '] + type_text(
                to@,
            )));
        },
        Type::Var(index, _) => {
            out.append("t");
            let shown = show_index(*index);
            out.append(shown.as_str());
            assert(out@ =~= old(out)@ + (seq!['t'] + digits(*index as nat)));
        },
        Type::FixedVar(_, name, _) => {
            out.append(name.as_str());
        },
    }
}

impl Type {
    /// The text of the type.
    pub fn as_string(&self) -> (r: String)
        ensures
            r@ == type_text(self@),
    {
        let mut out = String::new();
        write_type(self, &mut out);
        assert(out@ =~= type_text(self@));
        out
    }
}

impl FunctionType {
    /// The text of the function type: its argument, an arrow and its
    /// result.
    pub fn as_string(&self) -> (r: String)
        ensures
            r@ == atom_text(self.from@) + seq![' ', '-', '>', ' '] + type_text(self.to@),
    {
        proof {
            reveal_strlit(" -> ");
        }
        let mut out = String::new();
        write_atom(&self.from, &mut out);
        out.append(" -> ");
        write_type(&self.to, &mut out);
        assert(out@ =~= atom_text(self.from@) + seq![' ', '-', '>', ' '] + type_text(self.to@));
        out
    }
}

} // verus!
