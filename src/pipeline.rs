//! The pipeline coordinator: the single owner of the line buffer and the
//! rotating writer. Each event (a chunk, a timeout, the end of the stream)
//! is one step, which says what to write and which file work to do.

use vstd::prelude::*;
use crate::buffer::{
    LineBuffer, NEWLINE, OVERFLOW_LIMIT, emit_len, has_newline, lemma_emission_keeps_lines,
};
use crate::naming::FileTurn;
use crate::writer::{RotatingWriter, WriterView, MAX_FILE_COUNT, saturating_sum};

verus! {

/// A partial line is written out once this many milliseconds have passed
/// since the last write without new input.
pub const IDLE_FLUSH_MS: u64 = 1000;

pub struct PipelineView {
    pub writer: WriterView,
    /// Bytes received and not yet written.
    pub buffered: Seq<u8>,
    /// The clock reading of the last write made on a chunk.
    pub last_flush_ms: nat,
    /// Every byte received so far.
    pub received: Seq<u8>,
    /// Every byte handed out for writing so far, in order.
    pub written: Seq<u8>,
}

impl PipelineView {
    pub open spec fn wf(self) -> bool {
        &&& self.writer.wf()
        &&& self.written + self.buffered == self.received
        &&& self.last_flush_ms <= u64::MAX
    }

    /// The bytes that a chunk step hands out for writing.
    pub open spec fn chunk_write(self, chunk: Seq<u8>) -> Seq<u8> {
        let all = self.buffered + chunk;
        all.take(emit_len(all) as int)
    }

    /// The writer after a chunk step has counted its write.
    pub open spec fn counted(self, chunk: Seq<u8>) -> WriterView {
        WriterView {
            written_len: saturating_sum(self.writer.written_len, self.chunk_write(chunk).len()),
            ..self.writer
        }
    }

    /// Whether a chunk step moves to a new file: only after a write, once
    /// the open file has reached the threshold.
    pub open spec fn chunk_rotates(self, chunk: Seq<u8>) -> bool {
        self.chunk_write(chunk).len() > 0 && self.counted(chunk).rotation_due()
    }

    /// The state after a chunk arrives at clock reading `now_ms`.
    pub open spec fn after_chunk(self, chunk: Seq<u8>, now_ms: nat) -> PipelineView {
        let all = self.buffered + chunk;
        let out = self.chunk_write(chunk);
        PipelineView {
            writer: if self.chunk_rotates(chunk) {
                WriterView { next_index: self.writer.next_index + 1, written_len: 0, ..self.writer }
            } else {
                self.counted(chunk)
            },
            buffered: all.skip(emit_len(all) as int),
            last_flush_ms: if out.len() > 0 { now_ms } else { self.last_flush_ms },
            received: self.received + chunk,
            written: self.written + out,
        }
    }

    /// Whether a timeout at clock reading `now_ms` writes out the buffer.
    pub open spec fn idle_flush_due(self, now_ms: nat) -> bool {
        self.buffered.len() > 0 && now_ms >= self.last_flush_ms + IDLE_FLUSH_MS
    }

    /// The state after a timeout at clock reading `now_ms`.
    pub open spec fn after_timeout(self, now_ms: nat) -> PipelineView {
        if self.idle_flush_due(now_ms) {
            PipelineView {
                writer: WriterView {
                    written_len: saturating_sum(self.writer.written_len, self.buffered.len()),
                    ..self.writer
                },
                buffered: Seq::empty(),
                written: self.written + self.buffered,
                ..self
            }
        } else {
            self
        }
    }
}

/// The state after the chunks `chunks` arrive in turn, all at clock reading
/// `now_ms`.
pub open spec fn after_chunks(v: PipelineView, chunks: Seq<Seq<u8>>, now_ms: nat) -> PipelineView
    decreases chunks.len(),
{
    if chunks.len() == 0 {
        v
    } else {
        after_chunks(v.after_chunk(chunks[0], now_ms), chunks.drop_first(), now_ms)
    }
}

/// A chunk step keeps the stream whole: what has been handed out, followed by
/// what is held back, is exactly what was received, and the chunk is added to
/// what was received.
pub proof fn lemma_chunk_keeps_stream(v: PipelineView, chunk: Seq<u8>, now_ms: nat)
    requires
        v.wf(),
        now_ms <= u64::MAX,
    ensures
        v.after_chunk(chunk, now_ms).wf(),
        v.after_chunk(chunk, now_ms).received == v.received + chunk,
{
    let all = v.buffered + chunk;
    lemma_emission_keeps_lines(all);
    assert(all.take(emit_len(all) as int) + all.skip(emit_len(all) as int) =~= all);
    assert(v.written + all =~= v.received + chunk);
    let w = v.after_chunk(chunk, now_ms);
    assert(w.written + w.buffered =~= w.received);
}

/// No byte is lost or repeated: after any chunks, the bytes handed out for
/// writing, in order, followed by those held back, are the input stream
/// exactly; `finish` then hands out the rest.
pub proof fn lemma_no_byte_lost(v: PipelineView, chunks: Seq<Seq<u8>>, now_ms: nat)
    requires
        v.wf(),
        now_ms <= u64::MAX,
    ensures
        after_chunks(v, chunks, now_ms).wf(),
        after_chunks(v, chunks, now_ms).received == v.received + chunks.flatten(),
        after_chunks(v, chunks, now_ms).written + after_chunks(v, chunks, now_ms).buffered == v.received
            + chunks.flatten(),
    decreases chunks.len(),
{
    if chunks.len() == 0 {
        assert(v.received + chunks.flatten() =~= v.received);
    } else {
        lemma_chunk_keeps_stream(v, chunks[0], now_ms);
        lemma_no_byte_lost(v.after_chunk(chunks[0], now_ms), chunks.drop_first(), now_ms);
        assert(v.received + chunks[0] + chunks.drop_first().flatten() =~= v.received
            + chunks.flatten());
    }
}

/// Rotation is checked after each write: from a file below the threshold, a
/// chunk step leaves the open file below it again, so the file that a
/// rotation closes holds less than the threshold plus that step's write.
pub proof fn lemma_chunk_size_bound(v: PipelineView, chunk: Seq<u8>, now_ms: nat)
    requires
        v.wf(),
        v.writer.written_len < v.writer.file_size,
        v.writer.next_index < i64::MAX,
    ensures
        v.after_chunk(chunk, now_ms).writer.written_len < v.writer.file_size,
        v.chunk_rotates(chunk) ==> v.counted(chunk).written_len < v.writer.file_size
            + v.chunk_write(chunk).len(),
{
}

/// Over any chunks, starting from a file below the threshold (a new one, with
/// a positive threshold), the open file stays below it after every step:
/// no file exceeds the threshold by more than the one write after which its
/// rotation was checked. Writes made on a timeout are not checked for
/// rotation and are left out here.
pub proof fn lemma_file_size_bound(v: PipelineView, chunks: Seq<Seq<u8>>, now_ms: nat)
    requires
        v.wf(),
        now_ms <= u64::MAX,
        v.writer.written_len < v.writer.file_size,
        v.writer.next_index + chunks.len() < i64::MAX,
    ensures
        after_chunks(v, chunks, now_ms).writer.written_len < v.writer.file_size,
        after_chunks(v, chunks, now_ms).writer.file_size == v.writer.file_size,
    decreases chunks.len(),
{
    if chunks.len() > 0 {
        lemma_chunk_size_bound(v, chunks[0], now_ms);
        lemma_chunk_keeps_stream(v, chunks[0], now_ms);
        lemma_file_size_bound(v.after_chunk(chunks[0], now_ms), chunks.drop_first(), now_ms);
    }
}

/// Files are closed at line boundaries: a rotation follows a chunk's write,
/// and that write ends with a line terminator, unless the buffered bytes held
/// none and had grown past the overflow limit, in which case the write is
/// all of them. Either way nothing is held back that would end the line.
pub proof fn lemma_rotation_at_line_end(v: PipelineView, chunk: Seq<u8>)
    requires
        v.chunk_rotates(chunk),
    ensures
        has_newline(v.buffered + chunk) ==> v.chunk_write(chunk).last() == NEWLINE,
        !has_newline(v.buffered + chunk) ==> (v.buffered + chunk).len() > OVERFLOW_LIMIT
            && v.chunk_write(chunk) == v.buffered + chunk,
{
    let all = v.buffered + chunk;
    lemma_emission_keeps_lines(all);
    if !has_newline(all) {
        assert(all.take(all.len() as int) =~= all);
    }
}

/// What a chunk step asks for: write `write` to the open file and flush it,
/// then, where `turn` is present, do that file work and write on to the new
/// file.
pub struct ChunkOutcome {
    pub write: Vec<u8>,
    pub turn: Option<FileTurn>,
}

pub struct Pipeline {
    buffer: LineBuffer,
    writer: RotatingWriter,
    last_flush_ms: u64,
    received: Ghost<Seq<u8>>,
    written: Ghost<Seq<u8>>,
}

impl View for Pipeline {
    type V = PipelineView;

    closed spec fn view(&self) -> PipelineView {
        PipelineView {
            writer: self.writer@,
            buffered: self.buffer@,
            last_flush_ms: self.last_flush_ms as nat,
            received: self.received@,
            written: self.written@,
        }
    }
}

impl Pipeline {
    /// Starts a pipeline at clock reading `now_ms`; the returned turn names
    /// the first file, index 0.
    pub fn start(prefix: String, suffix: String, file_size: u64, file_count: u32, now_ms: u64) -> (r:
        (Pipeline, FileTurn))
        requires
            file_count <= MAX_FILE_COUNT,
        ensures
            r.0@.wf(),
            r.0@.writer.prefix == prefix@,
            r.0@.writer.suffix == suffix@,
            r.0@.writer.file_size == file_size,
            r.0@.writer.file_count == file_count,
            r.0@.writer.next_index == 1,
            r.0@.writer.written_len == 0,
            r.0@.writer.turn_for(r.1, 0),
            r.0@.buffered == Seq::<u8>::empty(),
            r.0@.received == Seq::<u8>::empty(),
            r.0@.written == Seq::<u8>::empty(),
            r.0@.last_flush_ms == now_ms,
    {
        let (writer, turn) = RotatingWriter::open(prefix, suffix, file_size, file_count);
        let p = Pipeline {
            buffer: LineBuffer::new(),
            writer,
            last_flush_ms: now_ms,
            received: Ghost(Seq::empty()),
            written: Ghost(Seq::empty()),
        };
        assert(p@.written + p@.buffered =~= p@.received);
        (p, turn)
    }

    /// How many bytes are held back.
    pub fn buffered_len(&self) -> (r: usize)
        ensures
            r == self@.buffered.len(),
    {
        self.buffer.len()
    }

    /// A chunk of input arrived at clock reading `now_ms`.
    pub fn on_chunk(&mut self, chunk: &[u8], now_ms: u64) -> (out: ChunkOutcome)
        requires
            old(self)@.wf(),
            old(self)@.buffered.len() + chunk@.len() <= usize::MAX,
        ensures
            final(self)@ == old(self)@.after_chunk(chunk@, now_ms as nat),
            final(self)@.wf(),
            out.write@ == old(self)@.chunk_write(chunk@),
            out.turn is Some <==> old(self)@.chunk_rotates(chunk@),
            out.turn matches Some(t) ==> old(self)@.writer.turn_for(t, old(self)@.writer.next_index),
    {
        let ghost old_view = self@;
        let write = self.buffer.push(chunk);
        proof {
            self.received@ = self.received@ + chunk@;
            self.written@ = self.written@ + write@;
            let all = old_view.buffered + chunk@;
            lemma_emission_keeps_lines(all);
            assert(all.take(emit_len(all) as int) + all.skip(emit_len(all) as int) =~= all);
            assert(old_view.written + all =~= old_view.received + chunk@);
            assert(self.written@ + self.buffer@ =~= self.received@);
        }
        let mut turn: Option<FileTurn> = None;
        if write.len() > 0 {
            self.writer.record(write.len());
            self.last_flush_ms = now_ms;
            if self.writer.should_rotate() {
                turn = Some(self.writer.rotate());
            }
        }
        ChunkOutcome { write, turn }
    }

    /// No chunk arrived for a while; the clock reads `now_ms`. Hands back the
    /// bytes to write, empty where nothing is due.
    pub fn on_timeout(&mut self, now_ms: u64) -> (out: Vec<u8>)
        requires
            old(self)@.wf(),
        ensures
            final(self)@ == old(self)@.after_timeout(now_ms as nat),
            final(self)@.wf(),
            out@ == (if old(self)@.idle_flush_due(now_ms as nat) {
                old(self)@.buffered
            } else {
                Seq::<u8>::empty()
            }),
    {
        if !self.buffer.is_empty() && now_ms >= self.last_flush_ms && now_ms - self.last_flush_ms
            >= IDLE_FLUSH_MS {
            let out = self.buffer.take_all();
            self.writer.record(out.len());
            proof {
                self.written@ = self.written@ + out@;
                assert(self.written@ + self.buffer@ =~= self.received@);
            }
            out
        } else {
            Vec::new()
        }
    }

    /// The end of the stream: hands back the remaining bytes, which are to be
    /// written and flushed before the file is closed. Afterwards every byte
    /// received has been handed out, in order, exactly once.
    pub fn finish(&mut self) -> (out: Vec<u8>)
        requires
            old(self)@.wf(),
        ensures
            out@ == old(self)@.buffered,
            final(self)@.buffered == Seq::<u8>::empty(),
            final(self)@.written == old(self)@.written + out@,
            final(self)@.written == final(self)@.received,
            final(self)@.received == old(self)@.received,
            final(self)@.wf(),
    {
        let out = self.buffer.take_all();
        self.writer.record(out.len());
        proof {
            self.written@ = self.written@ + out@;
            assert(self.written@ + self.buffer@ =~= self.received@);
        }
        out
    }
}

} // verus!
