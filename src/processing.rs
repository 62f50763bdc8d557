//! The steps of a conversion task, as a state machine.
//!
//! The caller performs each action (convert, compress, deliver, delete
//! files) and feeds back what came of it; the job decides what comes next.
use vstd::prelude::*;
use vstd::string::*;

use crate::media::MediaFormatType;
use crate::store::{opt_text, texts};

verus! {

/// How an external operation failed.
#[derive(Debug, Clone)]
pub enum OperationFailure {
    /// The result exceeds the size limit.
    TooLarge,
    /// Any other failure, with what the operation said.
    Other(String),
}

/// What came of the last action.
#[derive(Debug, Clone)]
pub enum ConvertEvent {
    Converted(String),
    ConvertFailed(OperationFailure),
    Compressed(String),
    CompressFailed(String),
    Delivered,
    DeliveryFailed(OperationFailure),
}

/// What the caller must do next.
#[derive(Debug)]
pub enum ConvertAction {
    /// Transform `source` into `format`.
    Convert { source: String, format: MediaFormatType },
    /// Produce a smaller copy of `source`.
    Compress { source: String },
    /// Send `path` to the chat as `format`.
    Deliver { path: String, format: MediaFormatType },
    /// The task is over: record `result` and delete every file in `remove`.
    Finish { result: Result<(), String>, remove: Vec<String> },
}

/// Where a conversion job stands.
#[derive(Debug, Clone, Copy, PartialEq, Eq, Structural)]
pub enum ConvertStage {
    Converting,
    Compressing,
    Delivering,
    Done,
}

pub open spec fn failure_text(f: OperationFailure) -> Seq<char> {
    match f {
        OperationFailure::TooLarge => "the output is too large"@,
        OperationFailure::Other(s) => s@,
    }
}

/// A conversion task in progress.
pub struct ConvertJob {
    source: String,
    thumbnail: Option<String>,
    format: MediaFormatType,
    stage: ConvertStage,
    outputs: Vec<String>,
    compressed: bool,
}

impl ConvertJob {
    pub closed spec fn source(&self) -> Seq<char> {
        self.source@
    }

    pub closed spec fn thumbnail(&self) -> Option<String> {
        self.thumbnail
    }

    pub closed spec fn format(&self) -> MediaFormatType {
        self.format
    }

    pub closed spec fn stage(&self) -> ConvertStage {
        self.stage
    }

    /// Files produced so far, other than the source.
    pub closed spec fn outputs(&self) -> Seq<Seq<char>> {
        texts(self.outputs@)
    }

    /// Whether the one compression pass has been used.
    pub closed spec fn compressed(&self) -> bool {
        self.compressed
    }

    /// Every temporary file of the job: the source, what was produced from
    /// it, and the thumbnail.
    pub open spec fn removal(&self) -> Seq<Seq<char>> {
        seq![self.source()] + self.outputs() + opt_text(self.thumbnail())
    }

    /// The job for converting `source` into `format`, and its first action:
    /// delivery right away where the format needs no transformation,
    /// conversion otherwise.
    pub fn start(source: String, thumbnail: Option<String>, format: MediaFormatType) -> (r: (ConvertJob, ConvertAction))
        ensures
            r.0.source() == source@,
            r.0.thumbnail() == thumbnail,
            r.0.format() == format,
            r.0.outputs().len() == 0,
            !r.0.compressed(),
            format == MediaFormatType::Video ==> {
                &&& r.0.stage() == ConvertStage::Delivering
                &&& r.1 matches ConvertAction::Deliver { path, format: f } && path@ == source@ && f == format
            },
            format != MediaFormatType::Video ==> {
                &&& r.0.stage() == ConvertStage::Converting
                &&& r.1 matches ConvertAction::Convert { source: s, format: f } && s@ == source@ && f == format
            },
    {
        let job_source = source.clone();
        let needs = format.needs_conversion();
        let job = ConvertJob {
            source: job_source,
            thumbnail,
            format,
            stage: if needs {
                ConvertStage::Converting
            } else {
                ConvertStage::Delivering
            },
            outputs: Vec::new(),
            compressed: false,
        };
        assert(job.outputs() =~= Seq::<Seq<char>>::empty());
        if needs {
            (job, ConvertAction::Convert { source, format })
        } else {
            (job, ConvertAction::Deliver { path: source, format })
        }
    }

    fn cleanup(&self) -> (r: Vec<String>)
        ensures
            texts(r@) == self.removal(),
    {
        let mut out: Vec<String> = Vec::new();
        out.push(self.source.clone());
        let mut i: usize = 0;
        while i < self.outputs.len()
            invariant
                i <= self.outputs@.len(),
                texts(out@) == seq![self.source@] + texts(self.outputs@.subrange(0, i as int)),
            decreases self.outputs@.len() - i,
        {
            let ghost before = out@;
            out.push(self.outputs[i].clone());
            assert(texts(out@) =~= texts(before).push(self.outputs@[i as int]@));
            assert(texts(self.outputs@.subrange(0, i + 1)) =~= texts(self.outputs@.subrange(0, i as int)).push(
                self.outputs@[i as int]@,
            ));
            i = i + 1;
        }
        assert(self.outputs@.subrange(0, i as int) =~= self.outputs@);
        let ghost before = out@;
        match &self.thumbnail {
            Some(t) => {
                out.push(t.clone());
            },
            None => {},
        }
        assert(texts(out@) =~= texts(before) + opt_text(self.thumbnail));
        out
    }

    fn finish(&mut self, result: Result<(), String>) -> (r: ConvertAction)
        ensures
            final(self).stage() == ConvertStage::Done,
            final(self).source() == old(self).source(),
            final(self).thumbnail() == old(self).thumbnail(),
            final(self).format() == old(self).format(),
            final(self).outputs() == old(self).outputs(),
            final(self).compressed() == old(self).compressed(),
            r matches ConvertAction::Finish { result: res, remove } && res == result && texts(remove@)
                == old(self).removal(),
    {
        self.stage = ConvertStage::Done;
        let remove = self.cleanup();
        ConvertAction::Finish { result, remove }
    }

    fn produced(&mut self, out: String) -> (r: ConvertAction)
        ensures
            final(self).stage() == ConvertStage::Delivering,
            final(self).source() == old(self).source(),
            final(self).thumbnail() == old(self).thumbnail(),
            final(self).format() == old(self).format(),
            final(self).compressed() == old(self).compressed(),
            final(self).outputs() == if out@ == old(self).source() {
                old(self).outputs()
            } else {
                old(self).outputs().push(out@)
            },
            r matches ConvertAction::Deliver { path, format } && path@ == out@ && format == old(self).format(),
    {
        self.stage = ConvertStage::Delivering;
        let path = out.clone();
        if out != self.source {
            let ghost before = self.outputs@;
            self.outputs.push(out);
            assert(texts(self.outputs@) =~= texts(before).push(path@));
        }
        ConvertAction::Deliver { path, format: self.format }
    }

    fn reconvert(&mut self, out: String) -> (r: ConvertAction)
        ensures
            final(self).stage() == ConvertStage::Converting,
            final(self).source() == old(self).source(),
            final(self).thumbnail() == old(self).thumbnail(),
            final(self).format() == old(self).format(),
            final(self).compressed() == old(self).compressed(),
            final(self).outputs() == if out@ == old(self).source() {
                old(self).outputs()
            } else {
                old(self).outputs().push(out@)
            },
            r matches ConvertAction::Convert { source, format } && source@ == out@ && format == old(self).format(),
    {
        self.stage = ConvertStage::Converting;
        let source = out.clone();
        if out != self.source {
            let ghost before = self.outputs@;
            self.outputs.push(out);
            assert(texts(self.outputs@) =~= texts(before).push(source@));
        }
        ConvertAction::Convert { source, format: self.format }
    }

    fn compress(&mut self) -> (r: ConvertAction)
        ensures
            final(self).stage() == ConvertStage::Compressing,
            final(self).compressed(),
            final(self).source() == old(self).source(),
            final(self).thumbnail() == old(self).thumbnail(),
            final(self).format() == old(self).format(),
            final(self).outputs() == old(self).outputs(),
            r matches ConvertAction::Compress { source } && source@ == old(self).source(),
    {
        self.stage = ConvertStage::Compressing;
        self.compressed = true;
        ConvertAction::Compress { source: self.source.clone() }
    }

    /// Feeds back what came of the last action and returns the next one.
    ///
    /// A converted file is delivered. An output that is too large gets one
    /// compression pass of the source: after a conversion, the compressed
    /// copy is converted again; after a delivery of an unconverted video, the
    /// compressed copy is delivered. Every other failure, and a second one
    /// that is too large, ends the task as failed; a delivery ends it as
    /// completed. When the task ends, every temporary file is deleted, the
    /// source included, whatever the outcome. An event that does not belong
    /// to the current stage ends the task as failed.
    pub fn step(&mut self, event: ConvertEvent) -> (r: ConvertAction)
        ensures
            final(self).source() == old(self).source(),
            final(self).thumbnail() == old(self).thumbnail(),
            final(self).format() == old(self).format(),
            match (old(self).stage(), event) {
                (ConvertStage::Compressing, ConvertEvent::Compressed(out))
                    if old(self).format() != MediaFormatType::Video => {
                    &&& final(self).stage() == ConvertStage::Converting
                    &&& final(self).compressed() == old(self).compressed()
                    &&& final(self).outputs() == if out@ == old(self).source() {
                        old(self).outputs()
                    } else {
                        old(self).outputs().push(out@)
                    }
                    &&& r matches ConvertAction::Convert { source, format } && source@ == out@ && format
                        == old(self).format()
                },
                (ConvertStage::Converting, ConvertEvent::Converted(out))
                | (ConvertStage::Compressing, ConvertEvent::Compressed(out)) => {
                    &&& final(self).stage() == ConvertStage::Delivering
                    &&& final(self).compressed() == old(self).compressed()
                    &&& final(self).outputs() == if out@ == old(self).source() {
                        old(self).outputs()
                    } else {
                        old(self).outputs().push(out@)
                    }
                    &&& r matches ConvertAction::Deliver { path, format } && path@ == out@ && format
                        == old(self).format()
                },
                (ConvertStage::Converting, ConvertEvent::ConvertFailed(OperationFailure::TooLarge))
                    if !old(self).compressed() => {
                    &&& final(self).stage() == ConvertStage::Compressing
                    &&& final(self).compressed()
                    &&& final(self).outputs() == old(self).outputs()
                    &&& r matches ConvertAction::Compress { source } && source@ == old(self).source()
                },
                (ConvertStage::Delivering, ConvertEvent::DeliveryFailed(OperationFailure::TooLarge))
                    if !old(self).compressed() && old(self).format() == MediaFormatType::Video => {
                    &&& final(self).stage() == ConvertStage::Compressing
                    &&& final(self).compressed()
                    &&& final(self).outputs() == old(self).outputs()
                    &&& r matches ConvertAction::Compress { source } && source@ == old(self).source()
                },
                (ConvertStage::Delivering, ConvertEvent::Delivered) => {
                    &&& final(self).stage() == ConvertStage::Done
                    &&& r matches ConvertAction::Finish { result, remove } && result is Ok && texts(remove@)
                        == old(self).removal()
                },
                (ConvertStage::Done, _) => {
                    &&& final(self).stage() == ConvertStage::Done
                    &&& r matches ConvertAction::Finish { result, remove } && result is Err && remove@.len() == 0
                },
                (_, ConvertEvent::ConvertFailed(f)) => {
                    &&& final(self).stage() == ConvertStage::Done
                    &&& r matches ConvertAction::Finish { result, remove } && result is Err && result->Err_0@
                        == "Conversion error: "@ + failure_text(f) && texts(remove@) == old(self).removal()
                },
                (_, ConvertEvent::CompressFailed(e)) => {
                    &&& final(self).stage() == ConvertStage::Done
                    &&& r matches ConvertAction::Finish { result, remove } && result is Err && result->Err_0@
                        == "Compression failed: "@ + e@ && texts(remove@) == old(self).removal()
                },
                (_, ConvertEvent::DeliveryFailed(f)) => {
                    &&& final(self).stage() == ConvertStage::Done
                    &&& r matches ConvertAction::Finish { result, remove } && result is Err && result->Err_0@
                        == "Send error: "@ + failure_text(f) && texts(remove@) == old(self).removal()
                },
                _ => {
                    &&& final(self).stage() == ConvertStage::Done
                    &&& r matches ConvertAction::Finish { result, remove } && result is Err && texts(remove@)
                        == old(self).removal()
                },
            },
    {
        if self.stage == ConvertStage::Done {
            return ConvertAction::Finish {
                result: Err(String::from_str("The task has already finished")),
                remove: Vec::new(),
            };
        }
        match event {
            ConvertEvent::Converted(out) => {
                if self.stage == ConvertStage::Converting {
                    self.produced(out)
                } else {
                    self.finish(Err(String::from_str("Unexpected conversion result")))
                }
            },
            ConvertEvent::Compressed(out) => {
                if self.stage == ConvertStage::Compressing {
                    if self.format.needs_conversion() {
                        self.reconvert(out)
                    } else {
                        self.produced(out)
                    }
                } else {
                    self.finish(Err(String::from_str("Unexpected compression result")))
                }
            },
            ConvertEvent::Delivered => {
                if self.stage == ConvertStage::Delivering {
                    self.finish(Ok(()))
                } else {
                    self.finish(Err(String::from_str("Unexpected delivery result")))
                }
            },
            ConvertEvent::ConvertFailed(f) => {
                if self.stage == ConvertStage::Converting && !self.compressed && matches!(
                    f,
                    OperationFailure::TooLarge
                ) {
                    self.compress()
                } else {
                    let reason = with_failure("Conversion error: ", f);
                    self.finish(Err(reason))
                }
            },
            ConvertEvent::CompressFailed(e) => {
                let mut reason = String::from_str("Compression failed: ");
                reason.append(e.as_str());
                self.finish(Err(reason))
            },
            ConvertEvent::DeliveryFailed(f) => {
                if self.stage == ConvertStage::Delivering && !self.compressed && self.format
                    == MediaFormatType::Video && matches!(f, OperationFailure::TooLarge) {
                    self.compress()
                } else {
                    let reason = with_failure("Send error: ", f);
                    self.finish(Err(reason))
                }
            },
        }
    }
}

fn with_failure(prefix: &str, f: OperationFailure) -> (r: String)
    ensures
        r@ == prefix@ + failure_text(f),
{
    let mut s = String::from_str(prefix);
    match f {
        OperationFailure::TooLarge => s.append("the output is too large"),
        OperationFailure::Other(detail) => s.append(detail.as_str()),
    }
    s
}

} // verus!
