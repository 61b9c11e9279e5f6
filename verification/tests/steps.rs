use reifier::steps::{CallSite, Debugger, FunctionLines, ProgramModel};

// The debuggee: a hello-world program whose `main` starts at line 5 and
// calls a helper declared at line 14 twice, once at line 5 and once at
// line 9.
fn hello_world_model() -> ProgramModel {
    ProgramModel {
        file: "hello_world.rs".to_string(),
        functions: vec![
            FunctionLines {
                name: "main".to_string(),
                lines: vec![5, 7, 9, 10],
            },
            FunctionLines {
                name: "hello".to_string(),
                lines: vec![14, 15],
            },
        ],
        calls: vec![
            CallSite { line: 5, callee: 1 },
            CallSite { line: 9, callee: 1 },
        ],
        entry: 0,
    }
}

#[test]
fn test_step_into() {
    let mut debugger = Debugger::new(hello_world_model()).unwrap();
    debugger.set_breakpoint_at_fn("main").unwrap();

    debugger.run_debugee().unwrap();
    assert_eq!(debugger.current_line(), Some(5));

    debugger.step_into().unwrap();
    assert_eq!(debugger.current_line(), Some(14));

    debugger.step_into().unwrap();
    assert_eq!(debugger.current_line(), Some(15));

    debugger.continue_debugee().unwrap();
    assert!(debugger.finished());
}

#[test]
fn test_step_out() {
    let mut debugger = Debugger::new(hello_world_model()).unwrap();
    debugger.set_breakpoint_at_fn("main").unwrap();

    debugger.run_debugee().unwrap();
    assert_eq!(debugger.current_line(), Some(5));

    debugger.step_into().unwrap();
    assert_eq!(debugger.current_line(), Some(14));

    debugger.step_out().unwrap();
    assert_eq!(debugger.current_line(), Some(7));

    debugger.continue_debugee().unwrap();
    assert!(debugger.finished());
}

#[test]
fn test_step_over() {
    let mut debugger = Debugger::new(hello_world_model()).unwrap();
    debugger.set_breakpoint_at_fn("main").unwrap();

    debugger.run_debugee().unwrap();
    assert_eq!(debugger.current_line(), Some(5));

    debugger.step_over().unwrap();
    assert_eq!(debugger.current_line(), Some(7));
    debugger.step_over().unwrap();
    assert_eq!(debugger.current_line(), Some(9));
    debugger.step_over().unwrap();
    assert_eq!(debugger.current_line(), Some(10));

    debugger.continue_debugee().unwrap();
    assert!(debugger.finished());
}

#[test]
fn test_step_over_on_fn_decl() {
    let mut debugger = Debugger::new(hello_world_model()).unwrap();
    debugger
        .set_breakpoint_at_line("hello_world.rs", 14)
        .unwrap();

    debugger.run_debugee().unwrap();
    assert_eq!(debugger.current_line(), Some(14));

    debugger.step_over().unwrap();
    assert_eq!(debugger.current_line(), Some(15));

    debugger.continue_debugee().unwrap();
    debugger.continue_debugee().unwrap();
    assert!(debugger.finished());
}
