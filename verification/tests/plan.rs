use radium_cli::plan::{extract_project_name, parse_spec_structure, plan_folder_name, slug_of_lowered, slugify};

#[test]
fn test_extract_project_name() {
    assert_eq!(extract_project_name("# My Project"), Some("My Project".to_string()));
    assert_eq!(extract_project_name("   #    Project X   "), Some("Project X".to_string()));
    assert_eq!(extract_project_name("Intro\n# Header\nText"), Some("Header".to_string()));
    assert_eq!(extract_project_name("No header"), None);
    assert_eq!(extract_project_name("## Subheader"), None);
}

#[test]
fn test_parse_spec_structure() {
    let spec = r#"# Project
## Iteration 1
- [ ] Task 1
- [ ] Task 2
## Iteration 2
* [ ] Task 3
        "#;
    let (iters, tasks) = parse_spec_structure(spec);
    assert_eq!(iters, 2);
    assert_eq!(tasks, 3);
}

#[test]
fn test_parse_spec_structure_minimal() {
    let spec = "# Just header";
    let (iters, tasks) = parse_spec_structure(spec);
    assert_eq!(iters, 1);
    assert_eq!(tasks, 1);
}

#[test]
fn test_slugify() {
    assert_eq!(slugify("Hello World"), "hello-world");
    assert_eq!(slugify("Project X: Backend"), "project-x-backend");
    assert_eq!(slugify("  Spaces  "), "spaces");
    assert_eq!(slugify("Mixed_Case-Input"), "mixed-case-input");
}

#[test]
fn extract_project_name_takes_first_title_and_handles_crlf() {
    assert_eq!(extract_project_name("# First\r\n# Second\r\n"), Some("First".to_string()));
    assert_eq!(extract_project_name(""), None);
    assert_eq!(extract_project_name("#NoSpace"), None);
    assert_eq!(extract_project_name("\t#  Tabbed Title \t"), Some("Tabbed Title".to_string()));
}

#[test]
fn parse_spec_structure_defaults_tasks_to_iterations() {
    assert_eq!(parse_spec_structure("## A\n## B\n## C"), (3, 3));
    assert_eq!(parse_spec_structure(""), (1, 1));
    assert_eq!(parse_spec_structure("- [x] done\n- [ ] open"), (1, 1));
    assert_eq!(parse_spec_structure("  * [ ] a\n- [ ] b\n- [ ] c"), (1, 3));
}

#[test]
fn slugify_edge_cases() {
    assert_eq!(slugify(""), "");
    assert_eq!(slugify("---"), "");
    assert_eq!(slugify("Ünïcode Wörds"), "ünïcode-wörds");
    assert_eq!(slugify("a--b__c"), "a-b-c");
}

#[test]
fn plan_folder_name_uses_custom_name_or_slug() {
    assert_eq!(
        plan_folder_name("REQ-001", Some("my plan".to_string()), "# Ignored"),
        "REQ-001-வைக் my plan"
    );
    assert_eq!(plan_folder_name("REQ-002", None, "# Cool Project!"), "REQ-002-வைக் cool-project");
    assert_eq!(plan_folder_name("REQ-003", None, "no title"), "REQ-003-வைக் project");
}

#[test]
fn slugify_twice_is_slugify_once() {
    for s in ["Hello World", "  My -- Project!! v2 ", "a_b.c", "", "---", "ALL CAPS 42"] {
        let once = slugify(s);
        assert_eq!(slugify(&once), once);
    }
}

#[test]
fn slug_of_already_lowered_text() {
    assert_eq!(slug_of_lowered("hello, world!"), "hello-world");
    assert_eq!(slug_of_lowered("Keeps Case"), "Keeps-Case");
    assert_eq!(slug_of_lowered("  --  "), "");
}

#[test]
fn ascii_slug_shape() {
    let s = slugify("--Hello   World__2024--");
    assert_eq!(s, "hello-world-2024");
    assert!(!s.starts_with('-') && !s.ends_with('-') && !s.contains("--"));
}
