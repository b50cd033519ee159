use pong::schedule::{
    check_plan, render_plan, update_plan, PlanError, Registration, SystemId, RENDERS_PER_SECOND,
    UPDATES_PER_SECOND,
};

fn entry(system: SystemId, dependencies: Vec<SystemId>) -> Registration {
    Registration { system, dependencies }
}

fn place(plan: &[Registration], system: SystemId) -> usize {
    plan.iter().position(|r| r.system == system).unwrap()
}

#[test]
fn loop_rates() {
    assert_eq!(UPDATES_PER_SECOND, 20);
    assert_eq!(RENDERS_PER_SECOND, 60);
}

#[test]
fn system_names() {
    assert_eq!(SystemId::Print.name(), "Print");
    assert_eq!(SystemId::Input.name(), "Input");
    assert_eq!(SystemId::Physics.name(), "Physics");
    assert_eq!(SystemId::Collision.name(), "Collision");
    assert_eq!(SystemId::Score.name(), "Score");
    assert_eq!(SystemId::Dummy.name(), "Dummy");
    assert_eq!(SystemId::Render.name(), "Render");
}

#[test]
fn update_plan_lists_the_five_systems() {
    assert_eq!(
        update_plan(),
        vec![
            entry(SystemId::Print, vec![]),
            entry(SystemId::Input, vec![]),
            entry(SystemId::Physics, vec![SystemId::Input]),
            entry(SystemId::Collision, vec![SystemId::Physics]),
            entry(SystemId::Score, vec![SystemId::Collision]),
        ]
    );
}

#[test]
fn render_plan_lists_the_two_systems() {
    assert_eq!(
        render_plan(),
        vec![entry(SystemId::Dummy, vec![]), entry(SystemId::Render, vec![])]
    );
}

#[test]
fn both_plans_are_accepted() {
    assert_eq!(check_plan(&update_plan()), Ok(()));
    assert_eq!(check_plan(&render_plan()), Ok(()));
}

#[test]
fn empty_plan_is_accepted() {
    assert_eq!(check_plan(&Vec::new()), Ok(()));
}

#[test]
fn in_an_accepted_plan_dependencies_come_first() {
    let plan = update_plan();
    for (i, registration) in plan.iter().enumerate() {
        for dependency in &registration.dependencies {
            assert!(place(&plan, *dependency) < i);
        }
    }
    assert!(place(&plan, SystemId::Input) < place(&plan, SystemId::Physics));
    assert!(place(&plan, SystemId::Physics) < place(&plan, SystemId::Collision));
    assert!(place(&plan, SystemId::Collision) < place(&plan, SystemId::Score));
}

#[test]
fn cycle_of_two_is_refused() {
    let plan = vec![
        entry(SystemId::Physics, vec![SystemId::Collision]),
        entry(SystemId::Collision, vec![SystemId::Physics]),
    ];
    assert_eq!(check_plan(&plan), Err(PlanError::UnknownDependency { index: 0, dependency: 0 }));
}

#[test]
fn cycle_of_three_is_refused_in_any_rotation() {
    let a = || entry(SystemId::Input, vec![SystemId::Score]);
    let b = || entry(SystemId::Physics, vec![SystemId::Input]);
    let c = || entry(SystemId::Score, vec![SystemId::Physics]);
    for plan in [vec![a(), b(), c()], vec![b(), c(), a()], vec![c(), a(), b()], vec![c(), b(), a()]]
    {
        assert_eq!(
            check_plan(&plan),
            Err(PlanError::UnknownDependency { index: 0, dependency: 0 })
        );
    }
}

#[test]
fn system_that_waits_for_itself_is_refused() {
    let plan = vec![entry(SystemId::Print, vec![]), entry(SystemId::Input, vec![SystemId::Input])];
    assert_eq!(check_plan(&plan), Err(PlanError::UnknownDependency { index: 1, dependency: 0 }));
}

#[test]
fn dependency_registered_later_is_refused() {
    let plan = vec![
        entry(SystemId::Input, vec![]),
        entry(SystemId::Collision, vec![SystemId::Input, SystemId::Physics]),
        entry(SystemId::Physics, vec![SystemId::Input]),
    ];
    assert_eq!(check_plan(&plan), Err(PlanError::UnknownDependency { index: 1, dependency: 1 }));
}

#[test]
fn dependency_that_is_never_registered_is_refused() {
    let plan = vec![entry(SystemId::Input, vec![]), entry(SystemId::Physics, vec![SystemId::Render])];
    assert_eq!(check_plan(&plan), Err(PlanError::UnknownDependency { index: 1, dependency: 0 }));
}

#[test]
fn name_registered_twice_is_refused() {
    let plan = vec![
        entry(SystemId::Input, vec![]),
        entry(SystemId::Physics, vec![SystemId::Input]),
        entry(SystemId::Input, vec![SystemId::Physics]),
    ];
    assert_eq!(check_plan(&plan), Err(PlanError::DuplicateName { index: 2 }));
}

#[test]
fn unknown_dependency_is_reported_before_a_taken_name() {
    let plan = vec![entry(SystemId::Input, vec![]), entry(SystemId::Input, vec![SystemId::Score])];
    assert_eq!(check_plan(&plan), Err(PlanError::UnknownDependency { index: 1, dependency: 0 }));
}

#[test]
fn first_fault_is_the_one_reported() {
    let plan = vec![
        entry(SystemId::Dummy, vec![]),
        entry(SystemId::Dummy, vec![]),
        entry(SystemId::Render, vec![SystemId::Print]),
    ];
    assert_eq!(check_plan(&plan), Err(PlanError::DuplicateName { index: 1 }));
}

#[test]
fn dependency_named_twice_is_accepted() {
    let plan = vec![
        entry(SystemId::Input, vec![]),
        entry(SystemId::Physics, vec![SystemId::Input, SystemId::Input]),
    ];
    assert_eq!(check_plan(&plan), Ok(()));
}
