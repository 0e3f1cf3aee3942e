//! The resolver's table of modules: each module is filed under its name,
//! and two modules under one name are a conflict.

use crate::location_info::LocationId;
use crate::name_resolution::error::ResolverError;
use crate::syntax::module::Module as AstModule;
use crate::syntax::module::ModuleId;
use vstd::prelude::*;

verus! {

/// A module as the resolver files it.
#[derive(Debug)]
pub struct Module {
    pub id: ModuleId,
    pub name: String,
    pub location_id: LocationId,
}

impl Module {
    pub fn new(id: ModuleId, name: String, location_id: LocationId) -> (r: Module)
        ensures
            r.id == id,
            r.name == name,
            r.location_id == location_id,
    {
        Module { id, name, location_id }
    }
}

/// What matters of a module to the table: its id and its location.
pub type Filed = (ModuleId, LocationId);

/// The modules registered under each name: the names in the order in which
/// they were first met, and under each the modules in the order in which
/// they were registered.
pub open spec fn filed(groups: Seq<(String, Vec<Module>)>) -> Seq<(Seq<char>, Seq<Filed>)> {
    Seq::new(groups.len(), |i: int| (groups[i].0@, filed_modules(groups[i].1@)))
}

/// The ids and locations of a list of modules.
pub open spec fn filed_modules(modules: Seq<Module>) -> Seq<Filed> {
    Seq::new(modules.len(), |k: int| (modules[k].id, modules[k].location_id))
}

/// The position of the first group under `name`, from position `from` on.
pub open spec fn position_of(groups: Seq<(Seq<char>, Seq<Filed>)>, name: Seq<char>, from: int) -> Option<int>
    decreases groups.len() - from,
{
    if from < 0 || from >= groups.len() {
        None
    } else if groups[from].0 == name {
        Some(from)
    } else {
        position_of(groups, name, from + 1)
    }
}

/// The groups with `module` registered under `name`: behind the modules of
/// the first group of that name, or in a new group behind the others.
pub open spec fn registered(groups: Seq<(Seq<char>, Seq<Filed>)>, name: Seq<char>, module: Filed) -> Seq<
    (Seq<char>, Seq<Filed>),
> {
    match position_of(groups, name, 0) {
        Some(i) => groups.update(i, (name, groups[i].1.push(module))),
        None => groups.push((name, seq![module])),
    }
}

/// The conflicts among the groups from position `from` on, behind `found`:
/// each name with more than one module, with the locations of its modules.
pub open spec fn module_conflicts(
    groups: Seq<(Seq<char>, Seq<Filed>)>,
    from: int,
    found: Seq<(Seq<char>, Seq<LocationId>)>,
) -> Seq<(Seq<char>, Seq<LocationId>)>
    decreases groups.len() - from,
{
    if from < 0 || from >= groups.len() {
        found
    } else if groups[from].1.len() > 1 {
        module_conflicts(
            groups,
            from + 1,
            found.push(
                (groups[from].0, Seq::new(groups[from].1.len(), |k: int| groups[from].1[k].1)),
            ),
        )
    } else {
        module_conflicts(groups, from + 1, found)
    }
}

/// The conflicts that an error of conflicting modules holds.
pub open spec fn conflict_models(conflicts: Seq<(String, Vec<LocationId>)>) -> Seq<
    (Seq<char>, Seq<LocationId>),
> {
    Seq::new(conflicts.len(), |i: int| (conflicts[i].0@, conflicts[i].1@))
}

/// The first module of each group, under the group's name.
pub open spec fn first_of_each(groups: Seq<(Seq<char>, Seq<Filed>)>) -> Seq<(Seq<char>, Filed)> {
    Seq::new(groups.len(), |i: int| (groups[i].0, groups[i].1[0]))
}

/// The name resolver's table of modules, each under its name.
#[derive(Debug)]
pub struct Resolver {
    pub modules: Vec<(String, Module)>,
}

impl View for Resolver {
    type V = Seq<(Seq<char>, Filed)>;

    open spec fn view(&self) -> Seq<(Seq<char>, Filed)> {
        Seq::new(
            self.modules@.len(),
            |i: int|
                (self.modules@[i].0@, (self.modules@[i].1.id, self.modules@[i].1.location_id)),
        )
    }
}

impl Resolver {
    /// A resolver that has filed no module: its table is empty.
    pub fn new() -> (r: Resolver)
        ensures
            r.modules@.len() == 0,
            r@ == Seq::<(Seq<char>, Filed)>::empty(),
    {
        let r = Resolver { modules: Vec::new() };
        assert(r@ =~= Seq::<(Seq<char>, Filed)>::empty());
        r
    }

    /// Registers a module of the source under its name.
    #[verifier::loop_isolation(false)]
    pub fn register_module(&mut self, ast_module: &AstModule, modules: &mut Vec<(String, Vec<Module>)>)
        ensures
            final(self).modules == old(self).modules,
            filed(final(modules)@) == registered(
                filed(old(modules)@),
                ast_module.name@,
                (ast_module.id, ast_module.location_id),
            ),
    {
        let module = Module::new(ast_module.id, ast_module.name.clone(), ast_module.location_id);
        let ghost before = filed(modules@);
        let ghost entry = (ast_module.id, ast_module.location_id);
        let mut i: usize = 0;
        while i < modules.len()
            invariant
                i <= modules.len(),
                modules@ == old(modules)@,
                position_of(before, ast_module.name@, 0) == position_of(
                    before,
                    ast_module.name@,
                    i as int,
                ),
            decreases modules.len() - i,
        {
            assert(before[i as int].0 == modules@[i as int].0@);
            if modules[i].0 == ast_module.name {
                break ;
            }
            i = i + 1;
        }
        if i < modules.len() {
            assert(before[i as int].0 == modules@[i as int].0@);
            assert(position_of(before, ast_module.name@, 0) == Some(i as int));
            Self::add_to_group(modules, i, module);
            assert(filed_modules(modules@[i as int].1@) =~= before[i as int].1.push(entry));
            assert(filed(modules@) =~= before.update(
                i as int,
                (ast_module.name@, before[i as int].1.push(entry)),
            ));
        } else {
            let mut group: Vec<Module> = Vec::new();
            group.push(module);
            assert(filed_modules(group@) =~= seq![entry]);
            modules.push((ast_module.name.clone(), group));
            assert(filed(modules@) =~= before.push((ast_module.name@, seq![entry])));
        }
    }

    /// Adds a module to the group at a position.
    fn add_to_group(groups: &mut Vec<(String, Vec<Module>)>, position: usize, module: Module)
        requires
            position < old(groups)@.len(),
        ensures
            final(groups)@.len() == old(groups)@.len(),
            forall|k: int|
                0 <= k < old(groups)@.len() && k != position ==> final(groups)@[k] == old(groups)@[k],
            final(groups)@[position as int].0@ == old(groups)@[position as int].0@,
            final(groups)@[position as int].1@ == old(groups)@[position as int].1@.push(module),
    {
        let mut rest: Vec<(String, Vec<Module>)> = Vec::new();
        while groups.len() > position + 1
            invariant
                position < groups@.len(),
                groups@.len() + rest@.len() == old(groups)@.len(),
                forall|k: int| 0 <= k < groups@.len() ==> groups@[k] == old(groups)@[k],
                forall|k: int|
                    0 <= k < rest@.len() ==> rest@[k] == old(groups)@[old(groups)@.len() - 1 - k],
            decreases groups.len(),
        {
            match groups.pop() {
                Some(group) => {
                    rest.push(group);
                },
                None => {},
            }
        }
        match groups.pop() {
            Some((name, mut members)) => {
                members.push(module);
                groups.push((name, members));
            },
            None => {},
        }
        while rest.len() > 0
            invariant
                groups@.len() + rest@.len() == old(groups)@.len(),
                groups@.len() > position,
                forall|k: int|
                    0 <= k < groups@.len() && k != position ==> groups@[k] == old(groups)@[k],
                groups@[position as int].0@ == old(groups)@[position as int].0@,
                groups@[position as int].1@ == old(groups)@[position as int].1@.push(module),
                forall|k: int|
                    0 <= k < rest@.len() ==> rest@[k] == old(groups)@[old(groups)@.len() - 1 - k],
            decreases rest.len(),
        {
            match rest.pop() {
                Some(group) => {
                    groups.push(group);
                },
                None => {},
            }
        }
    }

    /// Files the registered modules. Where a name has more than one module,
    /// nothing is filed, and the error names each such name with the
    /// locations of its modules; else the table holds each name with its
    /// module, behind what it held.
    #[verifier::loop_isolation(false)]
    pub fn process_module_conflicts(&mut self, modules: Vec<(String, Vec<Module>)>) -> (r: Result<
        (),
        Vec<ResolverError>,
    >)
        requires
            forall|i: int| 0 <= i < modules@.len() ==> (#[trigger] modules@[i]).1@.len() > 0,
        ensures
            match r {
                Ok(()) => module_conflicts(filed(modules@), 0, Seq::empty()).len() == 0 && final(self)@ == old(self)@ + first_of_each(filed(modules@)),
                Err(errors) => final(self).modules == old(self).modules && errors@.len() == 1
                    && (errors@[0] matches ResolverError::ModuleConflict(conflicts)
                    && conflict_models(conflicts@) == module_conflicts(
                    filed(modules@),
                    0,
                    Seq::empty(),
                ) && conflicts@.len() > 0),
            },
    {
        let ghost groups = filed(modules@);
        let mut conflicts: Vec<(String, Vec<LocationId>)> = Vec::new();
        assert(conflict_models(conflicts@) =~= Seq::empty());
        let mut i: usize = 0;
        while i < modules.len()
            invariant
                i <= modules.len(),
                module_conflicts(groups, 0, Seq::empty()) == module_conflicts(
                    groups,
                    i as int,
                    conflict_models(conflicts@),
                ),
            decreases modules.len() - i,
        {
            if modules[i].1.len() > 1 {
                let mut ids: Vec<LocationId> = Vec::new();
                let mut k: usize = 0;
                while k < modules[i].1.len()
                    invariant
                        k <= modules@[i as int].1@.len(),
                        ids@.len() == k,
                        forall|j: int| 0 <= j < k ==> ids@[j] == modules@[i as int].1@[j].location_id,
                    decreases modules@[i as int].1@.len() - k,
                {
                    ids.push(modules[i].1[k].location_id);
                    k = k + 1;
                }
                let ghost before = conflict_models(conflicts@);
                let ghost entry = (
                    groups[i as int].0,
                    Seq::new(groups[i as int].1.len(), |k: int| groups[i as int].1[k].1),
                );
                assert(ids@ =~= entry.1);
                conflicts.push((modules[i].0.clone(), ids));
                assert(conflict_models(conflicts@) =~= before.push(entry));
            }
            i = i + 1;
        }
        if conflicts.len() > 0 {
            let mut errors: Vec<ResolverError> = Vec::new();
            errors.push(ResolverError::ModuleConflict(conflicts));
            return Err(errors);
        }
        let ghost start = self@;
        let mut j: usize = 0;
        while j < modules.len()
            invariant
                j <= modules.len(),
                self@ =~= start + first_of_each(groups).subrange(0, j as int),
            decreases modules.len() - j,
        {
            let first = &modules[j].1[0];
            let module = Module::new(first.id, first.name.clone(), first.location_id);
            let ghost before = self@;
            self.modules.push((modules[j].0.clone(), module));
            assert(self@ =~= before.push(first_of_each(groups)[j as int]));
            j = j + 1;
        }
        assert(first_of_each(groups).subrange(0, modules@.len() as int) =~= first_of_each(groups));
        Ok(())
    }
}

} // verus!
