use gifpipe::source::{resolve, SourceSpec};
use gifpipe::errors::RuntimeError;

fn strings(v: Vec<&str>) -> Vec<String> {
    v.into_iter().map(|s| s.to_string()).collect()
}

#[test]
fn explicit_list_kept_verbatim_with_duplicates() {
    let spec = SourceSpec::ExplicitList { paths: strings(vec!["b.png", "a.png", "b.png"]) };
    let r = resolve(&spec, Ok(Vec::new())).unwrap();
    assert_eq!(r, strings(vec!["b.png", "a.png", "b.png"]));
}

#[test]
fn stream_resolves_to_nothing() {
    let r = resolve(&SourceSpec::Stream, Ok(Vec::new())).unwrap();
    assert!(r.is_empty());
}

#[test]
fn directory_range_sorts_and_bounds() {
    let spec = SourceSpec::DirectoryRange {
        dir: "frames".to_string(),
        start: "a.png".to_string(),
        end: "c.png".to_string(),
    };
    let entries = strings(vec!["b.png", "d.gif", "a.png", "c.png"]);
    let r = resolve(&spec, Ok(entries)).unwrap();
    assert_eq!(r, strings(vec!["frames/a.png", "frames/b.png", "frames/c.png"]));
}

#[test]
fn directory_range_bounds_are_inclusive() {
    let spec = SourceSpec::DirectoryRange {
        dir: "d".to_string(),
        start: "b".to_string(),
        end: "b".to_string(),
    };
    let entries = strings(vec!["a", "b", "c"]);
    let r = resolve(&spec, Ok(entries)).unwrap();
    assert_eq!(r, strings(vec!["d/b"]));
}

#[test]
fn crossed_bounds_give_empty_not_error() {
    let spec = SourceSpec::DirectoryRange {
        dir: "d".to_string(),
        start: "z".to_string(),
        end: "a".to_string(),
    };
    let entries = strings(vec!["a", "m", "z"]);
    let r = resolve(&spec, Ok(entries)).unwrap();
    assert!(r.is_empty());
}

#[test]
fn names_compare_by_raw_bytes_not_numerically() {
    let spec = SourceSpec::DirectoryRange {
        dir: "d".to_string(),
        start: "frame1.png".to_string(),
        end: "frame5.png".to_string(),
    };
    let entries = strings(vec!["frame9.png", "frame10.png", "frame2.png"]);
    let r = resolve(&spec, Ok(entries)).unwrap();
    // "frame9.png" sorts after "frame5.png"; "frame10.png" before "frame2.png".
    assert_eq!(r, strings(vec!["d/frame10.png", "d/frame2.png"]));
}

#[test]
fn directory_with_trailing_slash_not_doubled() {
    let spec = SourceSpec::DirectoryRange {
        dir: "d/".to_string(),
        start: "a".to_string(),
        end: "z".to_string(),
    };
    let entries = strings(vec!["m"]);
    let r = resolve(&spec, Ok(entries)).unwrap();
    assert_eq!(r, strings(vec!["d/m"]));
}

#[test]
fn duplicate_names_are_all_kept() {
    let spec = SourceSpec::DirectoryRange {
        dir: "d".to_string(),
        start: "a".to_string(),
        end: "z".to_string(),
    };
    let entries = strings(vec!["b", "b", "a"]);
    let r = resolve(&spec, Ok(entries)).unwrap();
    assert_eq!(r, strings(vec!["d/a", "d/b", "d/b"]));
}

#[test]
fn empty_directory_string_leaves_names_bare() {
    let spec = SourceSpec::DirectoryRange {
        dir: "".to_string(),
        start: "a".to_string(),
        end: "z".to_string(),
    };
    let entries = strings(vec!["m"]);
    let r = resolve(&spec, Ok(entries)).unwrap();
    assert_eq!(r, strings(vec!["m"]));
}

#[test]
fn resolving_twice_yields_identical_output() {
    let spec = SourceSpec::DirectoryRange {
        dir: "frames".to_string(),
        start: "a".to_string(),
        end: "z".to_string(),
    };
    let entries = strings(vec!["c", "a", "b", "b"]);
    let r1 = resolve(&spec, Ok(entries.clone())).unwrap();
    let r2 = resolve(&spec, Ok(entries)).unwrap();
    assert_eq!(r1, r2);
}

#[test]
fn failed_listing_is_directory_not_found() {
    let spec = SourceSpec::DirectoryRange {
        dir: "missing".to_string(),
        start: "a".to_string(),
        end: "z".to_string(),
    };
    let r = resolve(&spec, Err(()));
    match r {
        Err(RuntimeError::DirectoryNotFound { dir }) => assert_eq!(dir, "missing"),
        _ => panic!("expected DirectoryNotFound"),
    }
}
