use citnames::source::looks_like_a_source_file;

#[test]
fn test_filenames() {
    assert!(looks_like_a_source_file("source.c"));
    assert!(looks_like_a_source_file("source.cpp"));
    assert!(looks_like_a_source_file("source.cxx"));
    assert!(looks_like_a_source_file("source.cc"));

    assert!(looks_like_a_source_file("source.h"));
    assert!(looks_like_a_source_file("source.hpp"));

    assert!(!looks_like_a_source_file("gcc"));
    assert!(!looks_like_a_source_file("clang"));
    assert!(!looks_like_a_source_file("-o"));
    assert!(!looks_like_a_source_file("-Wall"));
    assert!(!looks_like_a_source_file("/o"));
}
