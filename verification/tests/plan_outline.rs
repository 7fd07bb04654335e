use radium_cli::plan::{generate_basic_plan, manifest_iterations, PlanOutline};

#[test]
fn basic_plan_from_spec() {
    let spec = "# My App\n\n## Phase 1\n- [ ] a\n- [ ] b\n## Phase 2\n* [ ] c\n";
    assert_eq!(
        generate_basic_plan(spec),
        PlanOutline { project_name: "My App".to_string(), total_iterations: 2, total_tasks: 3 }
    );
    assert_eq!(
        generate_basic_plan("no title here"),
        PlanOutline {
            project_name: "Untitled Project".to_string(),
            total_iterations: 1,
            total_tasks: 1,
        }
    );
}

#[test]
fn manifest_iteration_outlines() {
    assert!(manifest_iterations(0).is_empty());
    let its = manifest_iterations(12);
    assert_eq!(its.len(), 12);
    assert_eq!(its[0].id, "I1");
    assert_eq!(its[0].number, 1);
    assert_eq!(its[0].task_id, "I1.T1");
    assert_eq!(its[11].id, "I12");
    assert_eq!(its[11].name, "Iteration 12");
    assert_eq!(its[11].description, "Iteration 12 tasks");
    assert_eq!(its[11].goal, "Complete iteration 12");
    assert_eq!(its[11].task_title, "Task 1 for iteration 12");
    assert_eq!(its[11].task_description, "Generated task");
}
