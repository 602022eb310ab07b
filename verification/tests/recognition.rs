use std::collections::HashMap;

use citnames::chain::{Chain, CompilerTool};
use citnames::configuration::{Compilation, CompilerToRecognize};
use citnames::execution::Execution;
use citnames::generic::{
    after_last, is_compiler_executable, strip_version, GenericCompilerMatch,
};
use citnames::semantic::{CompilerCall, Semantic};
use citnames::configured::{read_arguments, Configured};
use citnames::tools::{Any, ExcludeOr, RecognitionError, RecognitionResult, Tool};

fn strings(items: &[&str]) -> Vec<String> {
    items.iter().map(|i| i.to_string()).collect()
}

fn execution(executable: &str, arguments: &[&str]) -> Execution {
    Execution {
        executable: String::from(executable),
        arguments: strings(arguments),
        working_dir: String::from("/home/user"),
        environment: HashMap::new(),
    }
}

fn compile(compiler: &str, flags: &[&str], sources: &[&str]) -> RecognitionResult {
    RecognitionResult::Recognized(Ok(Semantic::Compiler(CompilerCall::Compile {
        working_dir: String::from("/home/user"),
        compiler: String::from(compiler),
        flags: strings(flags),
        sources: strings(sources),
        output: None,
    })))
}

fn wrapper_config() -> CompilerToRecognize {
    CompilerToRecognize {
        executable: String::from("/opt/bin/wrapper"),
        flags_to_add: strings(&["-DWRAPPED", "-Wall"]),
        flags_to_remove: strings(&["-I.", "-Werror"]),
    }
}

fn source_not_found() -> RecognitionResult {
    RecognitionResult::Recognized(Err(RecognitionError::SourceNotFound))
}

#[test]
fn test_sources_are_exactly_the_source_arguments() {
    let input = execution(
        "/opt/bin/wrapper",
        &["wrapper", "a.c", "-O2", "b.cpp", "-I.", "-o", "out", "c.f90", "-Werror"],
    );
    let sut = Configured::new(&wrapper_config());

    assert_eq!(
        compile(
            "/opt/bin/wrapper",
            &["-O2", "-o", "out", "-DWRAPPED", "-Wall"],
            &["a.c", "b.cpp", "c.f90"]
        ),
        sut.recognize(&input)
    );
}

#[test]
fn test_first_argument_is_not_read() {
    let sut = Configured::new(&wrapper_config());

    assert_eq!(source_not_found(), sut.recognize(&execution("/opt/bin/wrapper", &["wrapper.c"])));
    assert_eq!(
        compile("/opt/bin/wrapper", &["-DWRAPPED", "-Wall"], &["x.c"]),
        sut.recognize(&execution("/opt/bin/wrapper", &["-I.", "x.c"]))
    );
}

#[test]
fn test_no_arguments_at_all() {
    let sut = Configured::new(&wrapper_config());

    assert_eq!(source_not_found(), sut.recognize(&execution("/opt/bin/wrapper", &[])));
    assert_eq!(source_not_found(), sut.recognize(&execution("/opt/bin/wrapper", &["wrapper"])));
}

#[test]
fn test_only_flags_is_a_failure() {
    let sut = Configured::new(&wrapper_config());
    let input = execution("/opt/bin/wrapper", &["wrapper", "-c", "-o", "x.o", "/abs/x.c"]);

    assert_eq!(source_not_found(), sut.recognize(&input));
}

#[test]
fn test_a_source_named_for_removal_is_dropped() {
    let config = CompilerToRecognize {
        executable: String::from("/opt/bin/wrapper"),
        flags_to_add: vec![],
        flags_to_remove: strings(&["generated.c"]),
    };
    let sut = Configured::new(&config);

    assert_eq!(
        compile("/opt/bin/wrapper", &["-c"], &["main.c"]),
        sut.recognize(&execution("/opt/bin/wrapper", &["wrapper", "generated.c", "-c", "main.c"]))
    );
    assert_eq!(
        source_not_found(),
        sut.recognize(&execution("/opt/bin/wrapper", &["wrapper", "generated.c"]))
    );
}

#[test]
fn test_executable_is_compared_letter_for_letter() {
    let sut = Configured::new(&wrapper_config());

    for other in ["/opt/bin//wrapper", "/opt/bin/wrapper/", "wrapper", "/opt/bin/Wrapper", ""] {
        assert_eq!(
            RecognitionResult::NotRecognized,
            sut.recognize(&execution(other, &["wrapper", "a.c"]))
        );
    }
}

#[test]
fn test_read_arguments_keeps_the_order() {
    let input = execution("anything", &["x", "-a", "1.c", "-b", "2.c", "-a", "3.c"]);

    assert_eq!(
        compile("anything", &["-b", "-z", "-y"], &["1.c", "2.c", "3.c"]),
        read_arguments(&input, &strings(&["-a"]), &strings(&["-z", "-y"]))
    );
}

#[test]
fn test_configured_list_asks_in_order() {
    let first = CompilerToRecognize {
        executable: String::from("/opt/bin/wrapper"),
        flags_to_add: strings(&["-DFIRST"]),
        flags_to_remove: vec![],
    };
    let second = CompilerToRecognize {
        executable: String::from("/opt/bin/wrapper"),
        flags_to_add: strings(&["-DSECOND"]),
        flags_to_remove: vec![],
    };
    let other = CompilerToRecognize {
        executable: String::from("/opt/bin/other"),
        flags_to_add: strings(&["-DOTHER"]),
        flags_to_remove: vec![],
    };
    let sut = Configured::from(&vec![other, first, second]);

    assert_eq!(3, sut.tools.len());
    assert_eq!(
        compile("/opt/bin/wrapper", &["-DFIRST"], &["a.c"]),
        sut.recognize(&execution("/opt/bin/wrapper", &["wrapper", "a.c"]))
    );
    assert_eq!(
        compile("/opt/bin/other", &["-DOTHER"], &["a.c"]),
        sut.recognize(&execution("/opt/bin/other", &["other", "a.c"]))
    );
    assert_eq!(
        RecognitionResult::NotRecognized,
        sut.recognize(&execution("/opt/bin/third", &["third", "a.c"]))
    );
}

#[test]
fn test_a_failure_of_the_first_tool_is_final() {
    let failing = CompilerToRecognize {
        executable: String::from("/opt/bin/wrapper"),
        flags_to_add: vec![],
        flags_to_remove: strings(&["a.c"]),
    };
    let working = CompilerToRecognize {
        executable: String::from("/opt/bin/wrapper"),
        flags_to_add: vec![],
        flags_to_remove: vec![],
    };
    let sut = Any { tools: vec![Configured::new(&failing), Configured::new(&working)] };

    assert_eq!(
        source_not_found(),
        sut.recognize(&execution("/opt/bin/wrapper", &["wrapper", "a.c"]))
    );
}

#[test]
fn test_empty_list_recognizes_nothing() {
    let sut: Any<Configured> = Any { tools: vec![] };

    assert_eq!(
        RecognitionResult::NotRecognized,
        sut.recognize(&execution("/usr/bin/cc", &["cc", "a.c"]))
    );
}

#[test]
fn test_generic_compiler_names() {
    for name in [
        "cc", "c++", "cxx", "CC", "gcc", "g++", "clang", "clang++", "gfortran", "f77", "f95",
        "nvcc",
    ] {
        assert!(is_compiler_executable(name), "{}", format!("{name}"));
        assert!(
            is_compiler_executable(format!("/usr/bin/{name}").as_str()),
            "{}",
            format!("{name}")
        );
        assert!(
            is_compiler_executable(format!("../toolchain/bin/{name}").as_str()),
            "{}",
            format!("{name}")
        );
    }
    for name in [
        "", "/", "ls", "/usr/bin/ld", "/usr/bin/gcc/", "gcc.exe", "Gcc", "/usr/bin/cc1",
        "ccache", "/gcc/make",
    ] {
        assert!(!is_compiler_executable(name), "{}", format!("{name}"));
    }
}

#[test]
fn test_generic_compiler_names_with_target_and_version() {
    for name in [
        "gcc-12",
        "/usr/bin/gcc-12",
        "/usr/bin/clang-15.0.1",
        "clang++-15",
        "c++-11",
        "arm-none-eabi-gcc",
        "/opt/cross/bin/x86_64-linux-gnu-g++-11",
        "aarch64-linux-gnu-gfortran-13.2",
        "f77",
        "f95",
        "gcc-1",
        "gcc-1.",
    ] {
        assert!(is_compiler_executable(name), "{}", format!("{name}"));
    }
    for name in [
        "gcc12",
        "gcc-.",
        "gcc-.5",
        "gcc-",
        "-12",
        "12",
        "gcc-12-13",
        "gcc-12a",
        "clang-format",
        "clang-tidy-15",
        "gcc-ar",
        "/usr/bin/gcc-12/",
        "gcc--12",
        "x86_64-linux-gnu-ld",
        "gcc_12",
    ] {
        assert!(!is_compiler_executable(name), "{}", format!("{name}"));
    }
}

#[test]
fn test_name_parts() {
    assert_eq!("gcc", after_last("/usr/bin/gcc", '/'));
    assert_eq!("gcc", after_last("gcc", '/'));
    assert_eq!("", after_last("/usr/bin/", '/'));
    assert_eq!("", after_last("", '/'));
    assert_eq!("g++", after_last("x86_64-linux-gnu-g++", '-'));
    assert_eq!("gcc", strip_version("gcc-12"));
    assert_eq!("clang", strip_version("clang-15.0.1"));
    assert_eq!("gcc12", strip_version("gcc12"));
    assert_eq!("gcc-", strip_version("gcc-"));
    assert_eq!("", strip_version("-12"));
    assert_eq!("12", strip_version("12"));
    assert_eq!("", strip_version(""));
    assert_eq!("gcc-12", strip_version("gcc-12-13"));
    assert_eq!("gcc-.5", strip_version("gcc-.5"));
    assert_eq!("gcc", strip_version("gcc-5."));
    assert_eq!("größe", strip_version("größe-1.2.3"));
}

#[test]
fn test_generic_tool_passes_flags_through() {
    let sut = GenericCompilerMatch {};

    assert_eq!(
        compile("/usr/bin/gcc", &["-c", "-I.", "-o", "a.o"], &["a.c"]),
        sut.recognize(&execution("/usr/bin/gcc", &["gcc", "-c", "-I.", "a.c", "-o", "a.o"]))
    );
    assert_eq!(source_not_found(), sut.recognize(&execution("/usr/bin/gcc", &["gcc", "--version"])));
    assert_eq!(
        RecognitionResult::NotRecognized,
        sut.recognize(&execution("/usr/bin/make", &["make", "a.c"]))
    );
}

#[test]
fn test_excluded_executable_is_never_recognized() {
    let sut = ExcludeOr {
        excludes: strings(&["/usr/bin/ld", "/usr/bin/gcc"]),
        or: GenericCompilerMatch {},
    };

    assert_eq!(
        RecognitionResult::NotRecognized,
        sut.recognize(&execution("/usr/bin/gcc", &["gcc", "a.c"]))
    );
    assert_eq!(
        compile("/usr/bin/clang", &[], &["a.c"]),
        sut.recognize(&execution("/usr/bin/clang", &["clang", "a.c"]))
    );
}

#[test]
fn test_chain_without_configuration() {
    let sut = Chain::from(&Compilation {
        compilers_to_recognize: vec![],
        compilers_to_exclude: vec![],
    });

    match &sut {
        Chain::Open(any) => {
            assert_eq!(1, any.tools.len());
            assert!(matches!(any.tools[0], CompilerTool::Generic(_)));
        }
        Chain::Guarded(_) => panic!("no executable is excluded"),
    }
    assert_eq!(
        compile("/usr/bin/cc", &["-c"], &["a.c"]),
        sut.recognize(&execution("/usr/bin/cc", &["cc", "-c", "a.c"]))
    );
    assert_eq!(
        RecognitionResult::NotRecognized,
        sut.recognize(&execution("/opt/bin/wrapper", &["wrapper", "-c", "a.c"]))
    );
}

#[test]
fn test_chain_asks_configured_before_generic() {
    let gcc = CompilerToRecognize {
        executable: String::from("/usr/bin/gcc"),
        flags_to_add: strings(&["-DCONFIGURED"]),
        flags_to_remove: strings(&["-c"]),
    };
    let sut = Chain::from(&Compilation {
        compilers_to_recognize: vec![wrapper_config(), gcc],
        compilers_to_exclude: vec![],
    });

    match &sut {
        Chain::Open(any) => {
            assert_eq!(3, any.tools.len());
            assert!(matches!(any.tools[0], CompilerTool::Configured(_)));
            assert!(matches!(any.tools[1], CompilerTool::Configured(_)));
            assert!(matches!(any.tools[2], CompilerTool::Generic(_)));
        }
        Chain::Guarded(_) => panic!("no executable is excluded"),
    }
    assert_eq!(
        compile("/usr/bin/gcc", &["-DCONFIGURED"], &["a.c"]),
        sut.recognize(&execution("/usr/bin/gcc", &["gcc", "-c", "a.c"]))
    );
    assert_eq!(
        source_not_found(),
        sut.recognize(&execution("/usr/bin/gcc", &["gcc", "-c", "--version"]))
    );
    assert_eq!(
        compile("/usr/bin/clang", &["-c"], &["a.c"]),
        sut.recognize(&execution("/usr/bin/clang", &["clang", "-c", "a.c"]))
    );
    assert_eq!(
        compile("/opt/bin/wrapper", &["-DWRAPPED", "-Wall"], &["a.c"]),
        sut.recognize(&execution("/opt/bin/wrapper", &["wrapper", "-Werror", "a.c"]))
    );
}

#[test]
fn test_chain_excludes_before_anything() {
    let sut = Chain::from(&Compilation {
        compilers_to_recognize: vec![wrapper_config()],
        compilers_to_exclude: strings(&["/opt/bin/wrapper", "/usr/bin/cc"]),
    });

    assert!(matches!(sut, Chain::Guarded(_)));
    assert_eq!(
        RecognitionResult::NotRecognized,
        sut.recognize(&execution("/opt/bin/wrapper", &["wrapper", "a.c"]))
    );
    assert_eq!(
        RecognitionResult::NotRecognized,
        sut.recognize(&execution("/usr/bin/cc", &["cc", "a.c"]))
    );
    assert_eq!(
        compile("/usr/bin/gcc", &[], &["a.c"]),
        sut.recognize(&execution("/usr/bin/gcc", &["gcc", "a.c"]))
    );
}

#[test]
fn test_recognition_error_messages() {
    assert_eq!("source file is not found", RecognitionError::SourceNotFound.message());
    assert_eq!("executable failure", RecognitionError::ExecutableFailure.message());
}
