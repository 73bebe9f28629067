//! The ingestion side: where input comes from, and what to do when it runs
//! out.

use vstd::prelude::*;

verus! {

/// How many bytes one read asks for.
pub const READ_CHUNK: usize = 128;

/// Where input is read from.
pub enum Source {
    StandardInput,
    /// A file, which can be opened again once it has been read to its end.
    ReopenableFile(String),
}

/// What the reader does on reaching the end of its source.
#[derive(PartialEq, Eq, Structural, Debug, Clone, Copy)]
pub enum EndAction {
    /// Open the source again and read on.
    Reopen,
    /// Hand the pipeline the end-of-stream marker and stop.
    SendEnd,
}

/// The end of the source reopens it only for a file, and only when reading
/// is to go on; otherwise the stream ends.
pub fn at_end_of_source(source: &Source, continue_read: bool) -> (r: EndAction)
    ensures
        r == EndAction::Reopen <==> continue_read && source is ReopenableFile,
{
    match source {
        Source::ReopenableFile(_) => if continue_read {
            EndAction::Reopen
        } else {
            EndAction::SendEnd
        },
        Source::StandardInput => EndAction::SendEnd,
    }
}

} // verus!
