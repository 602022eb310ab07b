use std::collections::HashMap;

use citnames::execution::Execution;
use citnames::semantic::{CompilerCall, Semantic};
use citnames::tools::{Any, ExcludeOr, RecognitionError, RecognitionResult, Tool};

enum MockTool {
    Recognize,
    RecognizeFailed,
    NotRecognize,
}

impl Tool for MockTool {
    fn recognize(&self, _: &Execution) -> RecognitionResult {
        match self {
            MockTool::Recognize => {
                RecognitionResult::Recognized(Ok(Semantic::Compiler(CompilerCall::Query)))
            }
            MockTool::RecognizeFailed => {
                RecognitionResult::Recognized(Err(RecognitionError::ExecutableFailure))
            }
            MockTool::NotRecognize => RecognitionResult::NotRecognized,
        }
    }
}

fn any_execution() -> Execution {
    Execution {
        executable: String::new(),
        arguments: vec![],
        working_dir: String::new(),
        environment: HashMap::new(),
    }
}

#[test]
fn test_any_when_no_match() {
    let sut = Any {
        tools: vec![
            Box::new(MockTool::NotRecognize),
            Box::new(MockTool::NotRecognize),
            Box::new(MockTool::NotRecognize),
        ],
    };

    let input = any_execution();

    match sut.recognize(&input) {
        RecognitionResult::NotRecognized => assert!(true),
        _ => assert!(false),
    }
}

#[test]
fn test_any_when_match() {
    let sut = Any {
        tools: vec![
            Box::new(MockTool::NotRecognize),
            Box::new(MockTool::Recognize),
            Box::new(MockTool::NotRecognize),
        ],
    };

    let input = any_execution();

    match sut.recognize(&input) {
        RecognitionResult::Recognized(Ok(_)) => assert!(true),
        _ => assert!(false),
    }
}

#[test]
fn test_any_when_match_fails() {
    let sut = Any {
        tools: vec![
            Box::new(MockTool::NotRecognize),
            Box::new(MockTool::RecognizeFailed),
            Box::new(MockTool::Recognize),
            Box::new(MockTool::NotRecognize),
        ],
    };

    let input = any_execution();

    match sut.recognize(&input) {
        RecognitionResult::Recognized(Err(_)) => assert!(true),
        _ => assert!(false),
    }
}

#[test]
fn test_exclude_when_match() {
    let sut = ExcludeOr {
        excludes: vec![String::from("/usr/bin/something")],
        or: Box::new(MockTool::Recognize),
    };

    let input = Execution {
        executable: String::from("/usr/bin/something"),
        arguments: vec![],
        working_dir: String::new(),
        environment: HashMap::new(),
    };

    match sut.recognize(&input) {
        RecognitionResult::NotRecognized => assert!(true),
        _ => assert!(false),
    }
}

#[test]
fn test_exclude_when_no_match() {
    let sut = ExcludeOr {
        excludes: vec![String::from("/usr/bin/something")],
        or: Box::new(MockTool::Recognize),
    };

    let input = any_execution();

    match sut.recognize(&input) {
        RecognitionResult::Recognized(Ok(_)) => assert!(true),
        _ => assert!(false),
    }
}

#[test]
fn test_when_no_match() {
    let sut = Any {
        tools: vec![
            Box::new(MockTool::NotRecognize),
            Box::new(MockTool::NotRecognize),
            Box::new(MockTool::NotRecognize),
        ],
    };

    let input = any_execution();

    match sut.recognize(&input) {
        RecognitionResult::NotRecognized => assert!(true),
        _ => assert!(false),
    }
}

#[test]
fn test_when_match() {
    let sut = Any {
        tools: vec![
            Box::new(MockTool::NotRecognize),
            Box::new(MockTool::Recognize),
            Box::new(MockTool::NotRecognize),
        ],
    };

    let input = any_execution();

    match sut.recognize(&input) {
        RecognitionResult::Recognized(Ok(_)) => assert!(true),
        _ => assert!(false),
    }
}

#[test]
fn test_when_match_fails() {
    let sut = Any {
        tools: vec![
            Box::new(MockTool::NotRecognize),
            Box::new(MockTool::RecognizeFailed),
            Box::new(MockTool::Recognize),
            Box::new(MockTool::NotRecognize),
        ],
    };

    let input = any_execution();

    match sut.recognize(&input) {
        RecognitionResult::Recognized(Err(_)) => assert!(true),
        _ => assert!(false),
    }
}

#[test]
fn test_first_recognizing_tool_wins() {
    let sut = Any {
        tools: vec![
            Box::new(MockTool::NotRecognize),
            Box::new(MockTool::Recognize),
            Box::new(MockTool::RecognizeFailed),
        ],
    };

    assert_eq!(
        RecognitionResult::Recognized(Ok(Semantic::Compiler(CompilerCall::Query))),
        sut.recognize(&any_execution())
    );

    let sut = Any {
        tools: vec![Box::new(MockTool::RecognizeFailed), Box::new(MockTool::Recognize)],
    };

    assert_eq!(
        RecognitionResult::Recognized(Err(RecognitionError::ExecutableFailure)),
        sut.recognize(&any_execution())
    );
}

#[test]
fn test_exclude_wins_over_any_delegate() {
    for delegate in [MockTool::Recognize, MockTool::RecognizeFailed, MockTool::NotRecognize] {
        let sut = ExcludeOr {
            excludes: vec![String::from("/usr/bin/other"), String::from("/usr/bin/something")],
            or: delegate,
        };

        let input = Execution {
            executable: String::from("/usr/bin/something"),
            arguments: vec![String::from("something"), String::from("source.c")],
            working_dir: String::from("/home/user"),
            environment: HashMap::new(),
        };

        assert_eq!(RecognitionResult::NotRecognized, sut.recognize(&input));
    }
}

#[test]
fn test_exclude_with_empty_list_delegates() {
    let sut = ExcludeOr { excludes: vec![], or: MockTool::RecognizeFailed };

    assert_eq!(
        RecognitionResult::Recognized(Err(RecognitionError::ExecutableFailure)),
        sut.recognize(&any_execution())
    );
}
