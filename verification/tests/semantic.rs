use citnames::paths::ConversionError;
use citnames::semantic::{CompilerCall, Entry};

fn strings(items: &[&str]) -> Vec<String> {
    items.iter().map(|s| s.to_string()).collect()
}

#[test]
fn test_non_compilations() -> Result<(), ConversionError> {
    let empty: Vec<Entry> = vec![];

    let result: Vec<Entry> = CompilerCall::Query.try_into()?;
    assert_eq!(empty, result);

    let result: Vec<Entry> = CompilerCall::Preprocess.try_into()?;
    assert_eq!(empty, result);

    Ok(())
}

#[test]
fn test_single_source_compilation() -> Result<(), ConversionError> {
    let input = CompilerCall::Compile {
        working_dir: String::from("/home/user"),
        compiler: String::from("clang"),
        flags: vec![String::from("-Wall")],
        sources: vec![String::from("source.c")],
        output: Some(String::from("source.o")),
    };

    let expected = vec![Entry {
        directory: String::from("/home/user"),
        file: String::from("/home/user/source.c"),
        arguments: strings(&["clang", "-Wall", "-o", "source.o", "source.c"]),
        output: Some(String::from("/home/user/source.o")),
    }];

    let result: Vec<Entry> = input.try_into()?;

    assert_eq!(expected, result);

    Ok(())
}

#[test]
fn test_multiple_sources_compilation() -> Result<(), ConversionError> {
    let input = CompilerCall::Compile {
        working_dir: String::from("/home/user"),
        compiler: String::from("clang"),
        flags: vec![String::from("-Wall")],
        sources: vec![String::from("/tmp/source1.c"), String::from("../source2.c")],
        output: None,
    };

    let expected = vec![
        Entry {
            directory: String::from("/home/user"),
            file: String::from("/tmp/source1.c"),
            arguments: strings(&["clang", "-Wall", "/tmp/source1.c"]),
            output: None,
        },
        Entry {
            directory: String::from("/home/user"),
            file: String::from("/home/source2.c"),
            arguments: strings(&["clang", "-Wall", "../source2.c"]),
            output: None,
        },
    ];

    let result: Vec<Entry> = input.try_into()?;

    assert_eq!(expected, result);

    Ok(())
}
