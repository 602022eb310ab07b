use std::collections::HashMap;

use citnames::configuration::CompilerToRecognize;
use citnames::execution::Execution;
use citnames::semantic::{CompilerCall, Semantic};
use citnames::configured::Configured;
use citnames::tools::{RecognitionError, RecognitionResult, Tool};

fn sut() -> Configured {
    Configured {
        config: CompilerToRecognize {
            executable: String::from("/usr/bin/something"),
            flags_to_remove: vec![String::from("-I.")],
            flags_to_add: vec![String::from("-Wall")],
        },
    }
}

fn strings(items: &[&str]) -> Vec<String> {
    items.iter().map(|i| i.to_string()).collect()
}

#[test]
fn test_matching() {
    let input = Execution {
        executable: String::from("/usr/bin/something"),
        arguments: strings(&["something", "-Dthis=that", "-I.", "source.c", "-o", "source.c.o"]),
        working_dir: String::from("/home/user"),
        environment: HashMap::new(),
    };

    let expected = CompilerCall::Compile {
        working_dir: String::from("/home/user"),
        compiler: String::from("/usr/bin/something"),
        flags: strings(&["-Dthis=that", "-o", "source.c.o", "-Wall"]),
        sources: vec![String::from("source.c")],
        output: None,
    };

    assert_eq!(
        RecognitionResult::Recognized(Ok(Semantic::Compiler(expected))),
        sut().recognize(&input)
    );
}

#[test]
fn test_matching_without_sources() {
    let input = Execution {
        executable: String::from("/usr/bin/something"),
        arguments: strings(&["something", "--help"]),
        working_dir: String::from("/home/user"),
        environment: HashMap::new(),
    };

    assert_eq!(
        RecognitionResult::Recognized(Err(RecognitionError::SourceNotFound)),
        sut().recognize(&input)
    );
    assert_eq!(
        String::from("source file is not found"),
        RecognitionError::SourceNotFound.message()
    );
}

#[test]
fn test_not_matching() {
    let input = Execution {
        executable: String::from("/usr/bin/cc"),
        arguments: strings(&["cc", "-Dthis=that", "-I.", "source.c", "-o", "source.c.o"]),
        working_dir: String::from("/home/user"),
        environment: HashMap::new(),
    };

    assert_eq!(RecognitionResult::NotRecognized, sut().recognize(&input));
}
