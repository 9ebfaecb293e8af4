//! The pipeline orchestrator.
//!
//! A run walks resolve, load, encode, write in that order, each step
//! able to end it with one terminal error.  The orchestrator owns every
//! decision; the caller only performs the outside actions it asks for
//! (list a directory, create the output file, write the bytes) and
//! reports how they went.

use vstd::prelude::*;
use crate::source::{SourceSpec, resolve, views_of, resolved_range};
use crate::errors::{RuntimeError, ErrorModel};
use crate::frames::load_images;
use crate::encode::{encode_frames, enc_ok, gif_of, bytes_of};

verus! {

#[verifier::external_type_specification]
#[verifier::external_body]
pub struct ExInstant(std::time::Instant);

/// Relies on `std::time::Instant::now`: a reading of the monotonic
/// clock; which reading depends on the time of the call.
#[verifier::external_body]
fn instant_now() -> (r: std::time::Instant) {
    std::time::Instant::now()
}

/// Relies on `std::time::Instant::elapsed`: the time since `start`;
/// which duration comes back depends on the time of the call.
#[verifier::external_body]
fn instant_elapsed(start: &std::time::Instant) -> (r: core::time::Duration) {
    start.elapsed()
}

/// Relies on `core::time::Duration::as_millis`: the duration in whole
/// milliseconds.
#[verifier::external_body]
fn duration_as_millis(d: &core::time::Duration) -> (r: u128) {
    d.as_millis()
}

/// Everything one run needs to know before it starts.
pub struct Config {
    /// How the source images are specified.
    pub source: SourceSpec,
    /// Where the animated GIF goes.
    pub out_file: String,
    /// The target playback frame rate.
    pub fps: usize,
}

impl Config {
    /// What the flag parser owes before the core runs: a positive frame
    /// rate and a non-empty output path.
    pub open spec fn wf(self) -> bool {
        self.fps >= 1 && self.out_file@.len() > 0
    }
}

/// What the caller must do next to advance a run.
pub enum Step {
    /// List the entry names of `dir`; report with `Pipeline::on_listing`.
    NeedListing { dir: String },
    /// Create the output file at `path`; report with
    /// `Pipeline::on_output_opened`.
    NeedOutputFile { path: String },
    /// Write `bytes` to the opened output file; report with
    /// `Pipeline::on_write_done`.
    NeedWrite { bytes: Vec<u8> },
    /// The run succeeded: the file at `out_file` was written in
    /// `elapsed_ms` whole milliseconds.
    Done { out_file: String, elapsed_ms: u128 },
    /// The run failed; nothing more happens.
    Failed { error: RuntimeError },
}

/// Where a run stands between two feedbacks.
pub enum Phase {
    AwaitListing,
    AwaitOutput,
    AwaitWrite,
    Terminal,
}

/// One run of the pipeline, advanced by feedback on the outside actions.
pub struct Pipeline {
    /// The configuration of the run, never changed.
    pub config: Config,
    /// Where the run stands.
    pub phase: Phase,
    /// The resolved source paths, once resolution has happened.
    pub paths: Vec<String>,
    /// The frames that decoded, in source order.
    pub frames: Vec<engiffen::Image>,
    /// The clock reading taken right before the encode step.
    pub started: Option<std::time::Instant>,
}

/// What beginning a run guarantees, for each kind of source.
pub open spec fn start_post(config: Config, p: Pipeline, step: Step) -> bool {
    match config.source {
        SourceSpec::DirectoryRange { dir, .. } => {
            &&& p.phase is AwaitListing
            &&& (step matches Step::NeedListing { dir: d } && d@ == dir@)
        },
        SourceSpec::ExplicitList { paths } => {
            &&& p.phase is AwaitOutput
            &&& views_of(p.paths@) == views_of(paths@)
            &&& p.frames@.len() <= p.paths@.len()
            &&& (step matches Step::NeedOutputFile { path } && path@ == config.out_file@)
        },
        SourceSpec::Stream => {
            &&& p.phase is AwaitOutput
            &&& views_of(p.paths@) == Seq::<Seq<char>>::empty()
            &&& p.frames@.len() == 0
            &&& (step matches Step::NeedOutputFile { path } && path@ == config.out_file@)
        },
    }
}

impl Pipeline {
    /// What every phase maintains.
    pub open spec fn wf(self) -> bool {
        &&& self.config.wf()
        &&& (self.phase is AwaitListing ==> self.config.source is DirectoryRange)
        &&& (self.phase is AwaitWrite ==> self.started is Some)
    }

    /// Begins a run.  A directory-range source first needs its
    /// directory listed; any other source resolves at once, its frames
    /// are loaded, and the output file is the first outside action.
    #[verifier::rlimit(50)]
    pub fn start(config: Config) -> (r: (Pipeline, Step))
        requires
            config.wf(),
        ensures
            r.0.wf(),
            r.0.config == config,
            start_post(config, r.0, r.1),
    {
        let listing_dir: Option<String> = match &config.source {
            SourceSpec::DirectoryRange { dir, .. } => Some(dir.clone()),
            _ => None,
        };
        match listing_dir {
            Some(dir) => {
                let p = Pipeline {
                    config,
                    phase: Phase::AwaitListing,
                    paths: Vec::new(),
                    frames: Vec::new(),
                    started: None,
                };
                (p, Step::NeedListing { dir })
            },
            None => {
                let resolved = resolve(&config.source, Ok(Vec::new()));
                match resolved {
                    Ok(paths) => {
                        let frames = load_images(&paths);
                        proof {
                            assert(views_of(paths@).len() == paths@.len());
                        }
                        let out = config.out_file.clone();
                        let p = Pipeline {
                            config,
                            phase: Phase::AwaitOutput,
                            paths,
                            frames,
                            started: None,
                        };
                        (p, Step::NeedOutputFile { path: out })
                    },
                    Err(_) => unreached(),
                }
            },
        }
    }

    /// Feeds back the outcome of listing the directory.  A failed
    /// listing ends the run with `DirectoryNotFound`; a listed
    /// directory is resolved and its frames are loaded at once.
    pub fn on_listing(&mut self, listing: Result<Vec<String>, ()>) -> (step: Step)
        requires
            old(self).wf(),
            old(self).phase is AwaitListing,
        ensures
            final(self).wf(),
            final(self).config == old(self).config,
            match listing {
                Err(_) => {
                    &&& final(self).phase is Terminal
                    &&& (step matches Step::Failed { error } && error@
                        == ErrorModel::DirectoryNotFound(old(self).config.source.spec_dir()))
                },
                Ok(entries) => {
                    &&& final(self).phase is AwaitOutput
                    &&& views_of(final(self).paths@) == resolved_range(
                        views_of(entries@),
                        old(self).config.source.spec_dir(),
                        old(self).config.source.spec_start(),
                        old(self).config.source.spec_end(),
                    )
                    &&& final(self).frames@.len() <= final(self).paths@.len()
                    &&& (step matches Step::NeedOutputFile { path } && path@
                        == old(self).config.out_file@)
                },
            },
    {
        let resolved = resolve(&self.config.source, listing);
        match resolved {
            Ok(paths) => {
                let frames = load_images(&paths);
                self.paths = paths;
                self.frames = frames;
                self.phase = Phase::AwaitOutput;
                Step::NeedOutputFile { path: self.config.out_file.clone() }
            },
            Err(error) => {
                self.phase = Phase::Terminal;
                Step::Failed { error }
            },
        }
    }

    /// Feeds back whether the output file could be created.  A missing
    /// destination ends the run with `DestinationUnwritable`; a created
    /// one starts the clock and encodes the frames.  The run goes on to
    /// the write step exactly when the encoder accepts the frames, and
    /// the bytes handed out are exactly the serialised form of its GIF;
    /// a rejection, an empty frame set among them, ends the run with
    /// the encoder's own `Encode` diagnostic.
    pub fn on_output_opened(&mut self, ok: bool) -> (step: Step)
        requires
            old(self).wf(),
            old(self).phase is AwaitOutput,
        ensures
            final(self).wf(),
            final(self).config == old(self).config,
            final(self).frames == old(self).frames,
            !ok ==> {
                &&& final(self).phase is Terminal
                &&& (step matches Step::Failed { error } && error@
                    == ErrorModel::DestinationUnwritable(old(self).config.out_file@))
            },
            ok ==> {
                &&& (step is NeedWrite <==> enc_ok(old(self).frames@, old(self).config.fps))
                &&& (step is NeedWrite || step is Failed)
                &&& (step matches Step::NeedWrite { bytes } ==> {
                    &&& final(self).phase is AwaitWrite
                    &&& bytes@ == bytes_of(gif_of(old(self).frames@, old(self).config.fps))
                })
                &&& (step matches Step::Failed { error } ==> {
                    &&& final(self).phase is Terminal
                    &&& (error@ matches ErrorModel::Encode(d) && (d
                        == "No frames sent for engiffening"@ || d
                        == "Frames don't have the same dimensions"@))
                })
            },
            (ok && old(self).frames@.len() == 0) ==> (step matches Step::Failed { error }
                && error@ == ErrorModel::Encode("No frames sent for engiffening"@)),
    {
        if !ok {
            self.phase = Phase::Terminal;
            return Step::Failed {
                error: RuntimeError::DestinationUnwritable { dest: self.config.out_file.clone() },
            };
        }
        let t0 = instant_now();
        self.started = Some(t0);
        let encoded = encode_frames(&self.frames, self.config.fps, &self.config.out_file);
        match encoded {
            Ok(bytes) => {
                self.phase = Phase::AwaitWrite;
                Step::NeedWrite { bytes }
            },
            Err(error) => {
                self.phase = Phase::Terminal;
                Step::Failed { error }
            },
        }
    }

    /// Feeds back whether the bytes reached the output file.  A failed
    /// write ends the run with `DestinationUnwritable`; a finished one
    /// stops the clock and ends the run with the output path and the
    /// elapsed whole milliseconds.
    pub fn on_write_done(&mut self, ok: bool) -> (step: Step)
        requires
            old(self).wf(),
            old(self).phase is AwaitWrite,
        ensures
            final(self).wf(),
            final(self).phase is Terminal,
            final(self).config == old(self).config,
            !ok ==> (step matches Step::Failed { error } && error@
                == ErrorModel::DestinationUnwritable(old(self).config.out_file@)),
            ok ==> (step matches Step::Done { out_file, .. } && out_file@
                == old(self).config.out_file@),
    {
        self.phase = Phase::Terminal;
        if !ok {
            return Step::Failed {
                error: RuntimeError::DestinationUnwritable { dest: self.config.out_file.clone() },
            };
        }
        let ms = match &self.started {
            Some(t0) => {
                let d = instant_elapsed(t0);
                duration_as_millis(&d)
            },
            None => unreached(),
        };
        Step::Done { out_file: self.config.out_file.clone(), elapsed_ms: ms }
    }
}

} // verus!
