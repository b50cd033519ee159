//! The systems of the game and the order in which they are registered with a
//! dispatcher.
//!
//! A dispatcher takes its systems one at a time, each with a name and the
//! names of the systems that must have run before it. It refuses a name that
//! is already taken and a dependency that has not been registered yet, so a
//! plan that it accepts lists every system after all that it depends on.

use vstd::prelude::*;

verus! {

/// How often in a second the systems of `update_plan` run.
pub const UPDATES_PER_SECOND: u32 = 20;

/// How often in a second the systems of `render_plan` run.
pub const RENDERS_PER_SECOND: u32 = 60;

/// A system of the game.
#[derive(Clone, Copy, Debug, PartialEq, Eq, Structural)]
pub enum SystemId {
    /// Prints the world as a table.
    Print,
    /// Turns key presses into paddle speeds and new balls.
    Input,
    /// Moves what has a velocity, within the arena.
    Physics,
    /// Bounces balls off paddles and off the long edges.
    Collision,
    /// Puts a ball that has reached a goal edge back at the centre, with a
    /// new velocity. The ball is kept: no entity is deleted.
    Score,
    /// Marks the start of a frame.
    Dummy,
    /// Draws paddles and balls.
    Render,
}

/// One registration: a system and the systems it waits for.
#[derive(Debug, PartialEq, Eq)]
pub struct Registration {
    pub system: SystemId,
    pub dependencies: Vec<SystemId>,
}

/// Why a dispatcher refuses a plan. `index` is the place of the first
/// registration that it refuses.
#[derive(Clone, Copy, Debug, PartialEq, Eq)]
pub enum PlanError {
    /// The dependency at place `dependency` of the registration names a
    /// system that is not registered before it.
    UnknownDependency { index: usize, dependency: usize },
    /// The system is registered a second time.
    DuplicateName { index: usize },
}

impl SystemId {
    /// The name under which the system is registered.
    pub open spec fn name_spec(self) -> Seq<char> {
        match self {
            SystemId::Print => "Print"@,
            SystemId::Input => "Input"@,
            SystemId::Physics => "Physics"@,
            SystemId::Collision => "Collision"@,
            SystemId::Score => "Score"@,
            SystemId::Dummy => "Dummy"@,
            SystemId::Render => "Render"@,
        }
    }

    /// The name under which the system is registered.
    pub fn name(self) -> (name: &'static str)
        ensures
            name@ == self.name_spec(),
    {
        match self {
            SystemId::Print => "Print",
            SystemId::Input => "Input",
            SystemId::Physics => "Physics",
            SystemId::Collision => "Collision",
            SystemId::Score => "Score",
            SystemId::Dummy => "Dummy",
            SystemId::Render => "Render",
        }
    }
}

impl Registration {
    /// Whether this registers `system` with exactly `dependencies`.
    pub open spec fn registers(self, system: SystemId, dependencies: Seq<SystemId>) -> bool {
        self.system == system && self.dependencies@ =~= dependencies
    }
}

/// Whether `system` is registered at a place before `index`.
pub open spec fn registered_before(plan: Seq<Registration>, index: int, system: SystemId) -> bool {
    exists|k: int| 0 <= k < index && k < plan.len() && (#[trigger] plan[k]).system == system
}

/// Whether the first `count` dependencies of the registration at `index` are
/// registered before it.
pub open spec fn dependencies_known(plan: Seq<Registration>, index: int, count: int) -> bool {
    forall|d: int|
        0 <= d < count ==> registered_before(plan, index, #[trigger] plan[index].dependencies@[d])
}

/// Whether a dispatcher that holds the registrations before `index` takes
/// the one at `index`.
pub open spec fn accepted_at(plan: Seq<Registration>, index: int) -> bool {
    &&& dependencies_known(plan, index, plan[index].dependencies@.len() as int)
    &&& !registered_before(plan, index, plan[index].system)
}

/// Whether a dispatcher takes the first `count` registrations of `plan`.
pub open spec fn accepted_up_to(plan: Seq<Registration>, count: int) -> bool {
    forall|i: int| 0 <= i < count ==> #[trigger] accepted_at(plan, i)
}

/// Whether a dispatcher takes all of `plan`.
pub open spec fn in_registration_order(plan: Seq<Registration>) -> bool {
    accepted_up_to(plan, plan.len() as int)
}

/// Whether `error` is what a dispatcher reports of `plan`: the first
/// registration that it refuses and why. Dependencies are looked up in the
/// order they are given, and before the name is.
pub open spec fn refused_with(plan: Seq<Registration>, error: PlanError) -> bool {
    match error {
        PlanError::UnknownDependency { index, dependency } => {
            &&& index < plan.len()
            &&& accepted_up_to(plan, index as int)
            &&& dependency < plan[index as int].dependencies@.len()
            &&& dependencies_known(plan, index as int, dependency as int)
            &&& !registered_before(
                plan,
                index as int,
                plan[index as int].dependencies@[dependency as int],
            )
        },
        PlanError::DuplicateName { index } => {
            &&& index < plan.len()
            &&& accepted_up_to(plan, index as int)
            &&& dependencies_known(
                plan,
                index as int,
                plan[index as int].dependencies@.len() as int,
            )
            &&& registered_before(plan, index as int, plan[index as int].system)
        },
    }
}

/// Whether the registration at `i` waits for the system registered at `j`.
pub open spec fn depends_on(plan: Seq<Registration>, i: int, j: int) -> bool {
    &&& 0 <= i < plan.len()
    &&& 0 <= j < plan.len()
    &&& plan[i].dependencies@.contains(plan[j].system)
}

/// Whether each place of `path` waits for the next one.
pub open spec fn is_chain(plan: Seq<Registration>, path: Seq<int>) -> bool {
    forall|t: int| 0 <= t < path.len() - 1 ==> depends_on(plan, #[trigger] path[t], path[t + 1])
}

/// Whether `path` is a chain that comes back to where it started.
pub open spec fn is_cycle(plan: Seq<Registration>, path: Seq<int>) -> bool {
    &&& path.len() >= 2
    &&& path.first() == path.last()
    &&& is_chain(plan, path)
}

/// Whether the dependencies of `plan` run in a circle somewhere.
pub open spec fn has_cycle(plan: Seq<Registration>) -> bool {
    exists|path: Seq<int>| is_cycle(plan, path)
}

/// Whether some registration of `plan` waits for a system that `plan`
/// registers nowhere.
pub open spec fn has_unknown_dependency(plan: Seq<Registration>) -> bool {
    exists|i: int, d: int|
        0 <= i < plan.len() && 0 <= d < plan[i].dependencies@.len() && !registered_before(
            plan,
            plan.len() as int,
            #[trigger] plan[i].dependencies@[d],
        )
}

/// Whether `system` is among the first `index` registrations of `plan`.
fn is_registered_before(plan: &Vec<Registration>, index: usize, system: SystemId) -> (found: bool)
    requires
        index <= plan.len(),
    ensures
        found == registered_before(plan@, index as int, system),
{
    let mut k: usize = 0;
    while k < index
        invariant
            k <= index <= plan.len(),
            !registered_before(plan@, k as int, system),
        decreases index - k,
    {
        if plan[k].system == system {
            return true;
        }
        k += 1;
    }
    false
}

/// Checks a plan as a dispatcher would while it is built, before any system
/// runs: `Ok` exactly for a plan in registration order, and otherwise the
/// first fault. A plan whose dependencies run in a circle, or that waits for
/// a system it does not register, is never `Ok`.
pub fn check_plan(plan: &Vec<Registration>) -> (result: Result<(), PlanError>)
    ensures
        result.is_ok() <==> in_registration_order(plan@),
        result matches Err(error) ==> refused_with(plan@, error),
        has_cycle(plan@) ==> result.is_err(),
        has_unknown_dependency(plan@) ==> result.is_err(),
{
    let mut i: usize = 0;
    while i < plan.len()
        invariant
            i <= plan.len(),
            accepted_up_to(plan@, i as int),
        decreases plan.len() - i,
    {
        let mut d: usize = 0;
        while d < plan[i].dependencies.len()
            invariant
                i < plan.len(),
                accepted_up_to(plan@, i as int),
                d <= plan[i as int].dependencies@.len(),
                dependencies_known(plan@, i as int, d as int),
            decreases plan[i as int].dependencies@.len() - d,
        {
            if !is_registered_before(plan, i, plan[i].dependencies[d]) {
                proof {
                    assert(!accepted_at(plan@, i as int));
                }
                return Err(PlanError::UnknownDependency { index: i, dependency: d });
            }
            d += 1;
        }
        if is_registered_before(plan, i, plan[i].system) {
            proof {
                assert(!accepted_at(plan@, i as int));
            }
            return Err(PlanError::DuplicateName { index: i });
        }
        i += 1;
    }
    proof {
        if has_cycle(plan@) {
            lemma_cycle_is_refused(plan@, choose|path: Seq<int>| is_cycle(plan@, path));
        }
        lemma_unknown_dependency_is_refused(plan@);
    }
    Ok(())
}

/// In a plan in registration order no system is registered twice.
pub proof fn lemma_names_are_distinct(plan: Seq<Registration>, i: int, j: int)
    requires
        in_registration_order(plan),
        0 <= i < j < plan.len(),
    ensures
        plan[i].system != plan[j].system,
{
    assert(accepted_at(plan, j));
}

/// In a plan in registration order every system comes after each system it
/// waits for: run in the order of the plan, a system starts only when all
/// that it depends on have finished.
pub proof fn lemma_dependencies_come_first(plan: Seq<Registration>, i: int, j: int)
    requires
        in_registration_order(plan),
        depends_on(plan, i, j),
    ensures
        j < i,
{
    let d = choose|d: int|
        0 <= d < plan[i].dependencies@.len() && plan[i].dependencies@[d] == plan[j].system;
    assert(accepted_at(plan, i));
    assert(registered_before(plan, i, plan[i].dependencies@[d]));
    let k = choose|k: int| 0 <= k < i && k < plan.len() && plan[k].system == plan[j].system;
    if k < j {
        lemma_names_are_distinct(plan, k, j);
    } else if j < k {
        lemma_names_are_distinct(plan, j, k);
    }
}

/// Along a chain of dependencies in a plan in registration order the places
/// fall by at least one at every step.
pub proof fn lemma_chain_descends(plan: Seq<Registration>, path: Seq<int>)
    requires
        in_registration_order(plan),
        is_chain(plan, path),
        path.len() >= 1,
    ensures
        path.last() <= path.first() - (path.len() - 1),
    decreases path.len(),
{
    if path.len() >= 2 {
        let shorter = path.drop_last();
        assert forall|t: int| 0 <= t < shorter.len() - 1 implies depends_on(
            plan,
            #[trigger] shorter[t],
            shorter[t + 1],
        ) by {
            assert(depends_on(plan, path[t], path[t + 1]));
        }
        lemma_chain_descends(plan, shorter);
        let t = path.len() - 2;
        assert(depends_on(plan, path[t], path[t + 1]));
        lemma_dependencies_come_first(plan, path[t], path[t + 1]);
    }
}

/// A plan whose dependencies run in a circle is not in registration order:
/// the dispatcher refuses it while it is built, before any system runs.
pub proof fn lemma_cycle_is_refused(plan: Seq<Registration>, path: Seq<int>)
    requires
        is_cycle(plan, path),
    ensures
        !in_registration_order(plan),
        has_cycle(plan),
{
    if in_registration_order(plan) {
        lemma_chain_descends(plan, path);
    }
}

/// A plan that waits for a system it registers nowhere is not in
/// registration order: the dispatcher refuses it while it is built.
pub proof fn lemma_unknown_dependency_is_refused(plan: Seq<Registration>)
    ensures
        has_unknown_dependency(plan) ==> !in_registration_order(plan),
{
    if has_unknown_dependency(plan) && in_registration_order(plan) {
        let (i, d) = choose|i: int, d: int|
            0 <= i < plan.len() && 0 <= d < plan[i].dependencies@.len() && !registered_before(
                plan,
                plan.len() as int,
                #[trigger] plan[i].dependencies@[d],
            );
        assert(accepted_at(plan, i));
        assert(registered_before(plan, i, plan[i].dependencies@[d]));
    }
}

/// The systems of one update, in the order they are registered: printing and
/// input wait for nothing, physics follows input, collision follows physics,
/// and scoring follows collision.
pub fn update_plan() -> (plan: Vec<Registration>)
    ensures
        plan@.len() == 5,
        plan@[0].registers(SystemId::Print, seq![]),
        plan@[1].registers(SystemId::Input, seq![]),
        plan@[2].registers(SystemId::Physics, seq![SystemId::Input]),
        plan@[3].registers(SystemId::Collision, seq![SystemId::Physics]),
        plan@[4].registers(SystemId::Score, seq![SystemId::Collision]),
        in_registration_order(plan@),
{
    let mut plan: Vec<Registration> = Vec::new();
    plan.push(Registration { system: SystemId::Print, dependencies: Vec::new() });
    plan.push(Registration { system: SystemId::Input, dependencies: Vec::new() });
    plan.push(Registration { system: SystemId::Physics, dependencies: vec![SystemId::Input] });
    plan.push(
        Registration { system: SystemId::Collision, dependencies: vec![SystemId::Physics] },
    );
    plan.push(Registration { system: SystemId::Score, dependencies: vec![SystemId::Collision] });
    proof {
        assert(plan@[1].system == SystemId::Input);
        assert(plan@[2].system == SystemId::Physics);
        assert(plan@[3].system == SystemId::Collision);
        assert(accepted_at(plan@, 0));
        assert(accepted_at(plan@, 1));
        assert(accepted_at(plan@, 2));
        assert(accepted_at(plan@, 3));
        assert(accepted_at(plan@, 4));
    }
    plan
}

/// The systems of one frame, in the order they are registered. Neither waits
/// for the other.
pub fn render_plan() -> (plan: Vec<Registration>)
    ensures
        plan@.len() == 2,
        plan@[0].registers(SystemId::Dummy, seq![]),
        plan@[1].registers(SystemId::Render, seq![]),
        in_registration_order(plan@),
{
    let mut plan: Vec<Registration> = Vec::new();
    plan.push(Registration { system: SystemId::Dummy, dependencies: Vec::new() });
    plan.push(Registration { system: SystemId::Render, dependencies: Vec::new() });
    proof {
        assert(accepted_at(plan@, 0));
        assert(accepted_at(plan@, 1));
    }
    plan
}

} // verus!
