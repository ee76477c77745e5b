use vord::commands::{parse_flow_step, pipeline_exit_code, repo_owner_and_name};

#[test]
fn flow_steps_split_at_the_last_colon() {
    let (file, function) = parse_flow_step("src/checkout.ts:startCheckout").unwrap();
    assert_eq!(file, "src/checkout.ts");
    assert_eq!(function, "startCheckout");
    let (file, function) = parse_flow_step("C:/repo/a.rs:run").unwrap();
    assert_eq!(file, "C:/repo/a.rs");
    assert_eq!(function, "run");
    let (file, function) = parse_flow_step("a.ts:").unwrap();
    assert_eq!(file, "a.ts");
    assert_eq!(function, "");
}

#[test]
fn a_flow_step_without_colon_is_rejected() {
    match parse_flow_step("no-function-here") {
        Err(e) => assert_eq!(e.step, "no-function-here"),
        Ok(_) => panic!("a step needs `path:function`"),
    }
}

#[test]
fn repositories_split_at_the_first_slash() {
    assert_eq!(repo_owner_and_name("acme/app"), ("acme".to_string(), "app".to_string()));
    assert_eq!(repo_owner_and_name("acme/app/extra"), ("acme".to_string(), "app/extra".to_string()));
    assert_eq!(repo_owner_and_name("app"), ("local".to_string(), "app".to_string()));
}

#[test]
fn pipeline_ends_with_the_last_failing_role() {
    assert_eq!(pipeline_exit_code(&vec![]), 0);
    assert_eq!(pipeline_exit_code(&vec![0, 0, 0]), 0);
    assert_eq!(pipeline_exit_code(&vec![0, 2, 0]), 2);
    assert_eq!(pipeline_exit_code(&vec![3, 0, 5, 0]), 5);
}
