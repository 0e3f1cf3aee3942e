use siko::ir::class::Class;
use siko::ir::class::ClassId;
use siko::ir::class::ClassMember;
use siko::ir::class::ClassMemberId;
use siko::ir::class::Instance;
use siko::ir::class::InstanceId;
use siko::ir::class::InstanceMember;
use siko::ir::function::Function;
use siko::ir::function::FunctionId;
use siko::ir::function::FunctionInfo;
use siko::ir::function::NamedFunctionInfo;
use siko::ir::function::NamedFunctionKind;
use siko::ir::program::Program;
use siko::ir::type_signature::TypeSignatureId;
use siko::ir::type_var_generator::TypeVarGenerator;
use siko::location_info::LocationId;
use siko::name_resolution::instance_members::check_instance_members;
use siko::name_resolution::instance_members::check_instances;
use siko::name_resolution::error::ResolverError;
use siko::name_resolution::resolver::Module;
use siko::name_resolution::resolver::Resolver;
use siko::syntax::import::Import;
use siko::syntax::import::ImportId;
use siko::syntax::import::ImportKind;
use siko::syntax::import::ImportList;
use siko::syntax::module::Module as AstModule;
use siko::syntax::module::ModuleId;

fn ast_module(id: usize, name: &str, location: usize) -> AstModule {
    AstModule { id: ModuleId { id }, name: name.to_string(), location_id: LocationId { id: location } }
}

fn registered(modules: Vec<AstModule>) -> (Resolver, Vec<(String, Vec<Module>)>) {
    let mut resolver = Resolver::new();
    let mut groups = Vec::new();
    for module in modules.iter() {
        resolver.register_module(module, &mut groups);
    }
    (resolver, groups)
}

#[test]
fn modules_are_grouped_by_name() {
    let (_, groups) = registered(
        vec![ast_module(0, "Main", 10), ast_module(1, "Data.Int", 11), ast_module(2, "Main", 12)],
    );
    assert_eq!(groups.len(), 2);
    assert_eq!(groups[0].0, "Main");
    assert_eq!(groups[0].1.len(), 2);
    assert_eq!(groups[0].1[1].id, ModuleId { id: 2 });
    assert_eq!(groups[1].0, "Data.Int");
    assert_eq!(groups[1].1.len(), 1);
}

#[test]
fn modules_with_different_names_are_filed() {
    let (mut resolver, groups) = registered(vec![ast_module(0, "Main", 10), ast_module(1, "Data.Int", 11)]);
    assert!(resolver.process_module_conflicts(groups).is_ok());
    assert_eq!(resolver.modules.len(), 2);
    assert_eq!(resolver.modules[0].0, "Main");
    assert_eq!(resolver.modules[0].1.id, ModuleId { id: 0 });
    assert_eq!(resolver.modules[1].0, "Data.Int");
    assert_eq!(resolver.modules[1].1.location_id, LocationId { id: 11 });
}

#[test]
fn two_modules_of_one_name_are_a_conflict() {
    let (mut resolver, groups) = registered(
        vec![
            ast_module(0, "Main", 10),
            ast_module(1, "Data.Int", 11),
            ast_module(2, "Main", 12),
            ast_module(3, "Main", 13),
        ],
    );
    let errors = resolver.process_module_conflicts(groups).unwrap_err();
    assert_eq!(errors.len(), 1);
    match &errors[0] {
        ResolverError::ModuleConflict(conflicts) => {
            assert_eq!(conflicts.len(), 1);
            assert_eq!(conflicts[0].0, "Main");
            assert_eq!(
                conflicts[0].1,
                vec![LocationId { id: 10 }, LocationId { id: 12 }, LocationId { id: 13 }]
            );
        },
        other => panic!("unexpected error {:?}", other),
    }
    assert_eq!(resolver.modules.len(), 0);
}

#[test]
fn import_from_the_source_has_a_location() {
    let import = Import {
        id: ImportId { id: 0 },
        path: "Data.Int".to_string(),
        kind: ImportKind::ImportList { items: ImportList::ImplicitAll, alternative_name: None },
        location_id: Some(LocationId { id: 4 }),
    };
    assert_eq!(import.get_location(), LocationId { id: 4 });
}

fn implementation(program: &mut Program, name: &str, location: usize) -> FunctionId {
    let id = program.get_function_id();
    let info = NamedFunctionInfo {
        body: None,
        module: "Main".to_string(),
        name: name.to_string(),
        type_signature: None,
        location_id: LocationId { id: location },
        kind: NamedFunctionKind::InstanceMember,
    };
    let function = Function {
        id,
        arg_locations: Vec::new(),
        implicit_arg_count: 0,
        info: FunctionInfo::NamedFunction(info),
    };
    program.add_function(id, function);
    id
}

/// A class `Eq` with the member `eq` and the member `ne`, which has a
/// default implementation.
fn class_program() -> (Program, ClassId) {
    let mut program = Program::new(TypeVarGenerator::new());
    let default_ne = implementation(&mut program, "ne", 1);
    let class_id = ClassId { id: program.classes.get_id() };
    let mut members = Vec::new();
    for (name, default_implementation) in [("eq", None), ("ne", Some(default_ne))] {
        let id = ClassMemberId { id: program.class_members.get_id() };
        let member = ClassMember {
            id,
            class_id,
            name: name.to_string(),
            type_signature: TypeSignatureId { id: 0 },
            default_implementation,
            location_id: LocationId { id: 2 },
        };
        program.class_members.add_item(id.id, member);
        members.push((name.to_string(), id));
    }
    let class = Class {
        id: class_id,
        name: "Eq".to_string(),
        type_arg: 0,
        members,
        constraints: Vec::new(),
        location_id: LocationId { id: 3 },
    };
    program.classes.add_item(class_id.id, class);
    (program, class_id)
}

fn instance(program: &mut Program, class_id: ClassId, location: usize, names: Vec<(&str, usize)>) -> Instance {
    let id = InstanceId { id: program.instances.get_id() };
    let mut members = Vec::new();
    for (name, place) in names {
        let function_id = implementation(program, name, place);
        members.push((name.to_string(), InstanceMember { function_id }));
    }
    let instance = Instance {
        id,
        class_id,
        type_signature: TypeSignatureId { id: 0 },
        members,
        location_id: LocationId { id: location },
    };
    program.instances.add_item(id.id, instance.clone());
    instance
}

#[test]
fn instance_with_the_needed_member_has_no_error() {
    let (mut program, class_id) = class_program();
    let complete = instance(&mut program, class_id, 20, vec![("eq", 21)]);
    let mut errors = Vec::new();
    check_instance_members(&program, &complete, &mut errors);
    assert!(errors.is_empty());
}

#[test]
fn instance_without_a_needed_member_is_reported() {
    let (mut program, class_id) = class_program();
    let lacking = instance(&mut program, class_id, 20, vec![("ne", 21)]);
    let mut errors = Vec::new();
    check_instance_members(&program, &lacking, &mut errors);
    assert_eq!(errors.len(), 1);
    match &errors[0] {
        ResolverError::MissingClassMemberInInstance(name, class, place) => {
            assert_eq!(name, "eq");
            assert_eq!(class, "Eq");
            assert_eq!(*place, LocationId { id: 20 });
        },
        other => panic!("unexpected error {:?}", other),
    }
}

#[test]
fn foreign_and_repeated_members_are_reported_in_order() {
    let (mut program, class_id) = class_program();
    let odd = instance(&mut program, class_id, 20, vec![("eq", 21), ("show", 22), ("eq", 23)]);
    let mut errors = Vec::new();
    check_instance_members(&program, &odd, &mut errors);
    assert_eq!(errors.len(), 2);
    match &errors[0] {
        ResolverError::NotAClassMember(name, class, place) => {
            assert_eq!(name, "show");
            assert_eq!(class, "Eq");
            assert_eq!(*place, LocationId { id: 22 });
        },
        other => panic!("unexpected error {:?}", other),
    }
    match &errors[1] {
        ResolverError::ClassMemberImplementedMultipleTimes(name, place) => {
            assert_eq!(name, "eq");
            assert_eq!(*place, LocationId { id: 23 });
        },
        other => panic!("unexpected error {:?}", other),
    }
}

#[test]
fn errors_of_all_instances_come_in_the_order_of_the_instances() {
    let (mut program, class_id) = class_program();
    instance(&mut program, class_id, 20, vec![]);
    instance(&mut program, class_id, 30, vec![("eq", 31)]);
    instance(&mut program, class_id, 40, vec![("other", 41)]);
    let errors = check_instances(&program);
    assert_eq!(errors.len(), 3);
    assert!(matches!(&errors[0], ResolverError::MissingClassMemberInInstance(_, _, LocationId { id: 20 })));
    assert!(matches!(&errors[1], ResolverError::NotAClassMember(_, _, LocationId { id: 41 })));
    assert!(matches!(&errors[2], ResolverError::MissingClassMemberInInstance(_, _, LocationId { id: 40 })));
}
