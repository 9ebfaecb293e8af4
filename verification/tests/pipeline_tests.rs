use gifpipe::pipeline::{Config, Pipeline, Step};
use gifpipe::source::SourceSpec;
use gifpipe::errors::RuntimeError;

fn stream_config() -> Config {
    Config { source: SourceSpec::Stream, out_file: "out.gif".to_string(), fps: 10 }
}

#[test]
fn stream_run_asks_for_output_first() {
    let (_p, step) = Pipeline::start(stream_config());
    match step {
        Step::NeedOutputFile { path } => assert_eq!(path, "out.gif"),
        _ => panic!("expected NeedOutputFile"),
    }
}

#[test]
fn empty_frame_set_fails_with_encode_error() {
    let (mut p, _) = Pipeline::start(stream_config());
    let step = p.on_output_opened(true);
    match step {
        Step::Failed { error: RuntimeError::Encode { detail } } => {
            assert_eq!(detail, "No frames sent for engiffening");
        },
        _ => panic!("expected an Encode failure"),
    }
}

#[test]
fn missing_directory_fails_before_any_output() {
    let config = Config {
        source: SourceSpec::DirectoryRange {
            dir: "no-such-dir".to_string(),
            start: "a".to_string(),
            end: "z".to_string(),
        },
        out_file: "out.gif".to_string(),
        fps: 10,
    };
    let (mut p, step) = Pipeline::start(config);
    match step {
        Step::NeedListing { dir } => assert_eq!(dir, "no-such-dir"),
        _ => panic!("expected NeedListing"),
    }
    let step = p.on_listing(Err(()));
    match step {
        Step::Failed { error } => {
            match &error {
                RuntimeError::DirectoryNotFound { dir } => assert_eq!(dir, "no-such-dir"),
                _ => panic!("expected DirectoryNotFound"),
            }
            assert_eq!(error.message(), "No such directory \"no-such-dir\"");
        },
        _ => panic!("expected a failure"),
    }
}

#[test]
fn listed_directory_resolves_into_pipeline_paths() {
    let config = Config {
        source: SourceSpec::DirectoryRange {
            dir: "frames".to_string(),
            start: "a.png".to_string(),
            end: "c.png".to_string(),
        },
        out_file: "out.gif".to_string(),
        fps: 10,
    };
    let (mut p, _) = Pipeline::start(config);
    let entries =
        vec!["d.gif".to_string(), "c.png".to_string(), "a.png".to_string(), "b.png".to_string()];
    let step = p.on_listing(Ok(entries));
    match step {
        Step::NeedOutputFile { path } => assert_eq!(path, "out.gif"),
        _ => panic!("expected NeedOutputFile"),
    }
    assert_eq!(
        p.paths,
        vec!["frames/a.png".to_string(), "frames/b.png".to_string(), "frames/c.png".to_string()]
    );
}

#[test]
fn unwritable_destination_fails_without_timing() {
    let (mut p, _) = Pipeline::start(stream_config());
    let step = p.on_output_opened(false);
    match step {
        Step::Failed { error } => {
            match &error {
                RuntimeError::DestinationUnwritable { dest } => assert_eq!(dest, "out.gif"),
                _ => panic!("expected DestinationUnwritable"),
            }
            assert_eq!(error.message(), "Couldn't write to output 'out.gif'");
        },
        _ => panic!("expected a failure"),
    }
}

#[test]
fn undecodable_paths_are_dropped_silently() {
    // None of these paths exists, so every decode fails and the run
    // reaches the encoder with no frames at all.
    let config = Config {
        source: SourceSpec::ExplicitList {
            paths: vec!["x.png".to_string(), "corrupt.dat".to_string(), "y.png".to_string()],
        },
        out_file: "out.gif".to_string(),
        fps: 10,
    };
    let (mut p, step) = Pipeline::start(config);
    assert!(matches!(step, Step::NeedOutputFile { .. }));
    assert_eq!(p.paths.len(), 3);
    assert_eq!(p.frames.len(), 0);
    let step = p.on_output_opened(true);
    assert!(matches!(step, Step::Failed { error: RuntimeError::Encode { .. } }));
}
