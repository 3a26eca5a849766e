use vstd::prelude::*;

verus! {

/// The step at which a run of the pipeline failed.  Every error is terminal
/// for the run: the caller reports it once and exits, nothing is retried.
#[derive(Clone, Copy, Debug, PartialEq, Eq, Structural)]
pub enum TransformError {
    /// The input file could not be opened, or its header could not be decoded.
    OpenInput,
    /// The output file could not be created, or the requested compression
    /// level was rejected by the encoder.
    OpenOutput,
    /// A record could not be decoded from the input stream.
    ReadRecord,
    /// A record already carries an entry under the requested tag key.
    TagConflict,
    /// A record could not be encoded or written to the output stream.
    WriteRecord,
}

/// The description that `TransformError::message` returns for each variant.
pub open spec fn spec_message(e: TransformError) -> Seq<char> {
    match e {
        TransformError::OpenInput => "failed to open the input file"@,
        TransformError::OpenOutput => "failed to open the output file"@,
        TransformError::ReadRecord => "failed to read a record from the input"@,
        TransformError::TagConflict => "a record already carries the requested tag"@,
        TransformError::WriteRecord => "failed to write a record to the output"@,
    }
}

impl TransformError {
    /// A one-line description of the failing step, for the host program's
    /// error report.
    pub fn message(&self) -> (msg: String)
        ensures
            msg@ == spec_message(*self),
    {
        match *self {
            TransformError::OpenInput => "failed to open the input file".to_owned(),
            TransformError::OpenOutput => "failed to open the output file".to_owned(),
            TransformError::ReadRecord => "failed to read a record from the input".to_owned(),
            TransformError::TagConflict => "a record already carries the requested tag".to_owned(),
            TransformError::WriteRecord => "failed to write a record to the output".to_owned(),
        }
    }
}

} // verus!
