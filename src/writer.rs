//! The rotating writer's state: which file of the sequence is open, how many
//! bytes went into it, and when a new one is due.

use vstd::prelude::*;
use crate::naming::{FileTurn, evict_index, file_name, make_new_file_name};

verus! {

/// The largest number of files that the retained window can hold.
pub const MAX_FILE_COUNT: u32 = 1000;

/// `a + b`, held at the largest `u64`.
pub open spec fn saturating_sum(a: nat, b: nat) -> nat {
    if a + b > u64::MAX {
        u64::MAX as nat
    } else {
        a + b
    }
}

pub struct WriterView {
    pub prefix: Seq<char>,
    pub suffix: Seq<char>,
    /// Size threshold in bytes: a file that reaches it is rotated away.
    pub file_size: nat,
    /// Files kept besides the one being written.
    pub file_count: nat,
    /// The index that the next file opened will get; the open file has the
    /// one before it.
    pub next_index: int,
    /// Bytes written to the open file since it was opened.
    pub written_len: nat,
}

impl WriterView {
    pub open spec fn wf(self) -> bool {
        &&& 1 <= self.next_index <= i64::MAX
        &&& self.file_count <= MAX_FILE_COUNT
        &&& self.file_size <= u64::MAX
        &&& self.written_len <= u64::MAX
    }

    /// Whether the open file has reached the threshold and the sequence can
    /// still advance.
    pub open spec fn rotation_due(self) -> bool {
        self.written_len >= self.file_size && self.next_index < i64::MAX
    }

    /// The file work of opening index `index`.
    pub open spec fn turn_for(self, turn: FileTurn, index: int) -> bool {
        &&& turn.open@ == file_name(self.prefix, self.suffix, index)
        &&& turn.evict@ == file_name(self.prefix, self.suffix, evict_index(index, self.file_count as int))
    }
}

pub struct RotatingWriter {
    prefix: String,
    suffix: String,
    file_size: u64,
    file_count: u32,
    next_index: i64,
    written_len: u64,
}

impl View for RotatingWriter {
    type V = WriterView;

    closed spec fn view(&self) -> WriterView {
        WriterView {
            prefix: self.prefix@,
            suffix: self.suffix@,
            file_size: self.file_size as nat,
            file_count: self.file_count as nat,
            next_index: self.next_index as int,
            written_len: self.written_len as nat,
        }
    }
}

impl RotatingWriter {
    /// Starts the sequence at index 0: the returned turn names the first file.
    pub fn open(prefix: String, suffix: String, file_size: u64, file_count: u32) -> (r: (
        RotatingWriter,
        FileTurn,
    ))
        requires
            file_count <= MAX_FILE_COUNT,
        ensures
            r.0@.wf(),
            r.0@.prefix == prefix@,
            r.0@.suffix == suffix@,
            r.0@.file_size == file_size,
            r.0@.file_count == file_count,
            r.0@.next_index == 1,
            r.0@.written_len == 0,
            r.0@.turn_for(r.1, 0),
    {
        let mut next_index: i64 = 0;
        let turn = make_new_file_name(prefix.as_str(), suffix.as_str(), file_count, &mut next_index);
        let w = RotatingWriter { prefix, suffix, file_size, file_count, next_index, written_len: 0 };
        (w, turn)
    }

    pub fn written_len(&self) -> (r: u64)
        ensures
            r == self@.written_len,
    {
        self.written_len
    }

    pub fn file_size(&self) -> (r: u64)
        ensures
            r == self@.file_size,
    {
        self.file_size
    }

    pub fn file_count(&self) -> (r: u32)
        ensures
            r == self@.file_count,
    {
        self.file_count
    }

    /// Counts `n` more bytes into the open file.
    pub fn record(&mut self, n: usize)
        ensures
            final(self)@ == (WriterView {
                written_len: saturating_sum(old(self)@.written_len, n as nat),
                ..old(self)@
            }),
    {
        self.written_len = self.written_len.saturating_add(n as u64);
    }

    pub fn should_rotate(&self) -> (r: bool)
        ensures
            r == self@.rotation_due(),
    {
        self.written_len >= self.file_size && self.next_index < i64::MAX
    }

    /// Moves to the next index: the returned turn deletes the file leaving
    /// the window and creates the new one, which starts empty.
    pub fn rotate(&mut self) -> (turn: FileTurn)
        requires
            old(self)@.wf(),
            old(self)@.next_index < i64::MAX,
        ensures
            final(self)@ == (WriterView {
                next_index: old(self)@.next_index + 1,
                written_len: 0,
                ..old(self)@
            }),
            old(self)@.turn_for(turn, old(self)@.next_index),
    {
        let turn = make_new_file_name(
            self.prefix.as_str(),
            self.suffix.as_str(),
            self.file_count,
            &mut self.next_index,
        );
        self.written_len = 0;
        turn
    }
}

} // verus!
