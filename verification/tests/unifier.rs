use siko::ir::class::ClassId;
use siko::ir::data::TypeDefId;
use siko::ir::type_var_generator::TypeVarGenerator;
use siko::ir::types::BaseType;
use siko::ir::types::Type;
use siko::ir::unifier::find_missing;
use siko::ir::unifier::merged_constraints;
use siko::ir::unifier::Unifier;
use siko::ir::unifier::UnifyError;

fn named(name: &str, id: usize, args: Vec<Type>) -> Type {
    Type::Named(name.to_string(), TypeDefId { id }, args)
}

fn int_type() -> Type {
    named("Int", 0, Vec::new())
}

fn bool_type() -> Type {
    named("Bool", 1, Vec::new())
}

fn var(index: usize) -> Type {
    Type::Var(index, Vec::new())
}

fn constrained(index: usize, classes: Vec<usize>) -> Type {
    Type::Var(index, classes.into_iter().map(|id| ClassId { id }).collect())
}

fn function(from: Type, to: Type) -> Type {
    Type::Function(Box::new(from), Box::new(to))
}

fn unifier_from(next: usize) -> Unifier {
    let mut generator = TypeVarGenerator::new();
    for _ in 0..next {
        generator.get_new_index();
    }
    Unifier::new(generator)
}

#[test]
fn variable_is_bound_to_the_other_type() {
    let mut unifier = unifier_from(1);
    assert!(unifier.unify(&var(0), &int_type()).is_ok());
    assert!(unifier.apply(&var(0)).equals(&int_type()));
    assert!(unifier.apply(&function(var(0), var(0))).equals(&function(int_type(), int_type())));
}

#[test]
fn unified_types_are_equal_under_the_substitution() {
    let mut unifier = unifier_from(3);
    let left = function(var(0), function(var(1), int_type()));
    let right = function(bool_type(), function(var(2), var(2)));
    assert!(unifier.unify(&left, &right).is_ok());
    let l = unifier.apply(&left);
    let r = unifier.apply(&right);
    assert!(l.equals(&r));
    assert!(l.equals(&function(bool_type(), function(int_type(), int_type()))));
}

#[test]
fn different_named_types_do_not_unify() {
    let mut unifier = unifier_from(0);
    match unifier.unify(&int_type(), &bool_type()) {
        Err(UnifyError::Mismatch(a, b)) => {
            assert!(a.equals(&int_type()));
            assert!(b.equals(&bool_type()));
        },
        other => panic!("unexpected result {:?}", other),
    }
}

#[test]
fn named_types_with_other_argument_counts_do_not_unify() {
    let mut unifier = unifier_from(0);
    let one = named("List", 5, vec![int_type()]);
    let none = named("List", 5, Vec::new());
    assert!(matches!(unifier.unify(&one, &none), Err(UnifyError::Mismatch(_, _))));
}

#[test]
fn named_types_of_one_definition_unify_whatever_their_names() {
    let mut unifier = unifier_from(1);
    let left = named("List", 5, vec![var(0)]);
    let right = named("Data.List", 5, vec![int_type()]);
    assert!(unifier.unify(&left, &right).is_ok());
    assert!(unifier.apply(&var(0)).equals(&int_type()));
    let mut other = unifier_from(0);
    assert!(matches!(
        other.unify(&named("List", 5, Vec::new()), &named("List", 6, Vec::new())),
        Err(UnifyError::Mismatch(_, _))
    ));
}

#[test]
fn tuples_unify_item_by_item() {
    let mut unifier = unifier_from(2);
    let left = Type::Tuple(vec![var(0), bool_type()]);
    let right = Type::Tuple(vec![int_type(), var(1)]);
    assert!(unifier.unify(&left, &right).is_ok());
    assert!(unifier.apply(&var(0)).equals(&int_type()));
    assert!(unifier.apply(&var(1)).equals(&bool_type()));
    let mut other = unifier_from(0);
    let short = Type::Tuple(vec![int_type()]);
    let long = Type::Tuple(vec![int_type(), int_type()]);
    assert!(matches!(other.unify(&short, &long), Err(UnifyError::Mismatch(_, _))));
}

#[test]
fn function_does_not_unify_with_a_tuple() {
    let mut unifier = unifier_from(0);
    let f = function(int_type(), int_type());
    let t = Type::Tuple(Vec::new());
    assert!(matches!(unifier.unify(&f, &t), Err(UnifyError::Mismatch(_, _))));
}

#[test]
fn variable_inside_its_own_binding_is_refused() {
    let mut unifier = unifier_from(1);
    let looped = named("List", 5, vec![var(0)]);
    match unifier.unify(&var(0), &looped) {
        Err(UnifyError::Occurs(index, ty)) => {
            assert_eq!(index, 0);
            assert!(ty.equals(&looped));
        },
        other => panic!("unexpected result {:?}", other),
    }
}

#[test]
fn same_variable_unifies_with_itself() {
    let mut unifier = unifier_from(1);
    assert!(unifier.unify(&var(0), &var(0)).is_ok());
    assert!(unifier.apply(&var(0)).equals(&var(0)));
    assert_eq!(unifier.type_var_generator.peek(), 1);
}

#[test]
fn two_variables_meet_in_a_fresh_one_with_both_constraints() {
    let mut unifier = unifier_from(2);
    let a = constrained(0, vec![4, 1]);
    let b = constrained(1, vec![3, 1]);
    assert!(unifier.unify(&a, &b).is_ok());
    let expected = constrained(2, vec![1, 3, 4]);
    assert!(unifier.apply(&a).equals(&expected));
    assert!(unifier.apply(&b).equals(&expected));
    assert_eq!(unifier.type_var_generator.peek(), 3);
}

#[test]
fn constrained_variable_defers_its_classes_to_the_type() {
    let mut unifier = unifier_from(1);
    let a = constrained(0, vec![7, 2]);
    assert!(unifier.unify(&a, &int_type()).is_ok());
    let constraints = unifier.get_constraints();
    assert_eq!(constraints.len(), 2);
    assert_eq!(constraints[0].class_id, ClassId { id: 7 });
    assert_eq!(constraints[1].class_id, ClassId { id: 2 });
    assert!(constraints[0].ty.equals(&int_type()));
    assert!(constraints[1].ty.equals(&int_type()));
}

#[test]
fn fixed_variable_unifies_with_itself_only() {
    let fixed = Type::FixedVar(0, "a".to_string(), Vec::new());
    let same = Type::FixedVar(0, "a".to_string(), Vec::new());
    let other = Type::FixedVar(1, "b".to_string(), Vec::new());
    let mut unifier = unifier_from(2);
    assert!(unifier.unify(&fixed, &same).is_ok());
    assert!(matches!(unifier.unify(&fixed, &other), Err(UnifyError::Mismatch(_, _))));
    assert!(matches!(unifier.unify(&fixed, &int_type()), Err(UnifyError::Mismatch(_, _))));
}

#[test]
fn variable_is_bound_to_a_fixed_variable_that_has_its_classes() {
    let mut unifier = unifier_from(2);
    let fixed = Type::FixedVar(0, "a".to_string(), vec![ClassId { id: 1 }, ClassId { id: 2 }]);
    assert!(unifier.unify(&constrained(1, vec![2]), &fixed).is_ok());
    assert!(unifier.apply(&var(1)).equals(&fixed));
    let mut second = unifier_from(2);
    match second.unify(&constrained(1, vec![2, 3]), &fixed) {
        Err(UnifyError::ConstraintNotSatisfied(class_id, ty)) => {
            assert_eq!(class_id, ClassId { id: 3 });
            assert!(ty.equals(&fixed));
        },
        other => panic!("unexpected result {:?}", other),
    }
}

#[test]
fn failed_unification_leaves_the_unifier_as_it_was() {
    let mut unifier = unifier_from(1);
    let left = Type::Tuple(vec![var(0), int_type()]);
    let right = Type::Tuple(vec![bool_type(), bool_type()]);
    assert!(unifier.unify(&left, &right).is_err());
    assert!(unifier.apply(&var(0)).equals(&var(0)));
    assert_eq!(unifier.get_substitution().bindings.len(), 0);
}

#[test]
fn later_unification_sees_earlier_bindings() {
    let mut unifier = unifier_from(2);
    assert!(unifier.unify(&var(0), &var(1)).is_ok());
    assert!(unifier.unify(&var(0), &int_type()).is_ok());
    assert!(unifier.apply(&var(1)).equals(&int_type()));
    assert!(matches!(unifier.unify(&var(1), &bool_type()), Err(UnifyError::Mismatch(_, _))));
}

#[test]
fn merged_constraints_are_sorted_and_without_repeats() {
    let a = vec![ClassId { id: 5 }, ClassId { id: 1 }, ClassId { id: 5 }];
    let b = vec![ClassId { id: 3 }, ClassId { id: 1 }];
    assert_eq!(merged_constraints(&a, &b), vec![ClassId { id: 1 }, ClassId { id: 3 }, ClassId { id: 5 }]);
    assert_eq!(merged_constraints(&Vec::new(), &Vec::new()), Vec::<ClassId>::new());
}

#[test]
fn first_missing_class_is_found() {
    let wanted = vec![ClassId { id: 1 }, ClassId { id: 4 }, ClassId { id: 9 }];
    let given = vec![ClassId { id: 1 }, ClassId { id: 9 }];
    assert_eq!(find_missing(&wanted, &given), Some(ClassId { id: 4 }));
    assert_eq!(find_missing(&given, &wanted), None);
}

#[test]
fn base_type_is_the_outer_constructor() {
    assert_eq!(int_type().get_base_type(), BaseType::Named(TypeDefId { id: 0 }));
    assert_eq!(Type::Tuple(vec![var(0)]).get_base_type(), BaseType::Tuple);
    assert_eq!(function(var(0), int_type()).get_base_type(), BaseType::Function);
    assert_eq!(var(3).get_base_type(), BaseType::Generic);
    assert_eq!(Type::FixedVar(3, "a".to_string(), Vec::new()).get_base_type(), BaseType::Generic);
}

#[test]
fn concrete_types_hold_no_variable() {
    assert!(named("List", 5, vec![int_type()]).is_concrete_type());
    assert!(!named("List", 5, vec![var(0)]).is_concrete_type());
    assert!(!function(int_type(), Type::FixedVar(0, "a".to_string(), Vec::new())).is_concrete_type());
    assert!(Type::Tuple(Vec::new()).is_concrete_type());
}

#[test]
fn substitution_replaces_each_occurrence() {
    let ty = function(var(0), Type::Tuple(vec![var(0), var(1)]));
    let replaced = ty.subst(0, &int_type());
    assert!(replaced.equals(&function(int_type(), Type::Tuple(vec![int_type(), var(1)]))));
    assert!(ty.occurs(1));
    assert!(!replaced.occurs(0));
    assert_eq!(ty.node_count(), 5);
}

#[test]
fn removing_fixed_variables_makes_them_free() {
    let fixed = Type::FixedVar(2, "a".to_string(), vec![ClassId { id: 1 }]);
    let ty = function(fixed, int_type());
    let freed = ty.remove_fixed_types();
    assert!(freed.equals(&function(constrained(2, vec![1]), int_type())));
}

#[test]
fn equality_compares_names_ids_and_arguments() {
    assert!(!named("Int", 0, Vec::new()).equals(&named("Int", 1, Vec::new())));
    assert!(!named("Int", 0, Vec::new()).equals(&named("Integer", 0, Vec::new())));
    assert!(!constrained(0, vec![1]).equals(&constrained(0, vec![2])));
    assert!(constrained(0, vec![1]).equals(&constrained(0, vec![1])));
}

#[test]
fn applying_a_unifier_twice_changes_nothing_more() {
    let mut unifier = unifier_from(4);
    let left = function(var(0), function(var(1), named("List", 5, vec![var(2)])));
    let right = function(var(1), function(int_type(), var(3)));
    assert!(unifier.unify(&left, &right).is_ok());
    for ty in [left, right, var(0), var(3), Type::Tuple(vec![var(2), var(9)])] {
        let once = unifier.apply(&ty);
        let twice = unifier.apply(&once);
        assert!(once.equals(&twice));
    }
    assert!(unifier.apply(&var(9)).equals(&var(9)));
}
