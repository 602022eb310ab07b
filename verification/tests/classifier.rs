use citnames::source::{is_known_extension, looks_like_a_source_file};

#[test]
fn test_every_known_extension() {
    let known = [
        "h", "hh", "H", "hp", "hxx", "hpp", "HPP", "h++", "tcc", "c", "C", "cc", "CC", "c++",
        "C++", "cxx", "cpp", "cp", "cu", "m", "mi", "mm", "M", "mii", "i", "ii", "s", "S", "sx",
        "asm", "f", "for", "ftn", "F", "FOR", "fpp", "FPP", "FTN", "f90", "f95", "f03", "f08",
        "F90", "F95", "F03", "F08", "go", "brig", "d", "di", "dd", "ads", "abd",
    ];
    assert_eq!(53, known.len());
    for extension in known {
        assert!(is_known_extension(extension), "{}", format!("extension {extension}"));
        assert!(
            looks_like_a_source_file(format!("file.{extension}").as_str()),
            "{}",
            format!("file.{extension}")
        );
    }
}

#[test]
fn test_unknown_extensions() {
    for extension in ["o", "a", "so", "CPP", "Cpp", "txt", "", "c ", " c", "cpp.o", "adb"] {
        assert!(!is_known_extension(extension), "{}", format!("extension {extension}"));
    }
}

#[test]
fn test_classifier_is_total() {
    assert!(!looks_like_a_source_file(""));
    assert!(!looks_like_a_source_file("."));
    assert!(!looks_like_a_source_file(".."));
    assert!(!looks_like_a_source_file("source."));
    assert!(!looks_like_a_source_file("source"));
    assert!(!looks_like_a_source_file("-"));
    assert!(!looks_like_a_source_file("/"));
}

#[test]
fn test_flags_are_never_sources() {
    assert!(!looks_like_a_source_file("-source.c"));
    assert!(!looks_like_a_source_file("--include=source.h"));
    assert!(!looks_like_a_source_file("/source.c"));
    assert!(!looks_like_a_source_file("/home/user/source.c"));
    assert!(!looks_like_a_source_file("/Fosource.cpp"));
}

#[test]
fn test_extension_is_what_follows_the_last_dot() {
    assert!(looks_like_a_source_file("archive.tar.c"));
    assert!(!looks_like_a_source_file("source.c.o"));
    assert!(looks_like_a_source_file(".c"));
    assert!(looks_like_a_source_file("dir/source.cc"));
    assert!(looks_like_a_source_file("../dir.d/source.f90"));
    assert!(!looks_like_a_source_file("dir.c/source"));
    assert!(looks_like_a_source_file("dir.c/source.c"));
}

#[test]
fn test_extension_is_case_sensitive() {
    assert!(looks_like_a_source_file("source.C"));
    assert!(looks_like_a_source_file("source.HPP"));
    assert!(!looks_like_a_source_file("source.CPP"));
    assert!(!looks_like_a_source_file("source.Hpp"));
    assert!(!looks_like_a_source_file("source.GO"));
}

#[test]
fn test_classifier_reads_characters_not_bytes() {
    assert!(looks_like_a_source_file("größe.c"));
    assert!(looks_like_a_source_file("日本語.cpp"));
    assert!(!looks_like_a_source_file("source.ç"));
}
