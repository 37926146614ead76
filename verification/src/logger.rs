//! The log of the editor: a bounded buffer that drops its oldest records.
use std::collections::VecDeque;
use vstd::prelude::*;

verus! {

/// How grave a record is, the gravest first.
#[derive(Debug, Copy, Clone, PartialEq, Eq, PartialOrd, Ord, Hash, Structural)]
pub enum Level {
    Error,
    Warn,
    Info,
    Debug,
    Trace,
}

/// One record of the log.
#[derive(Debug, Clone)]
pub struct Record {
    /// When it was written: whole seconds since the logger started.
    pub secs: u64,
    /// When it was written: the nanoseconds beyond the whole seconds.
    pub subsec_nanos: u32,
    pub level: Level,
    pub target: String,
    pub msg: String,
}

impl Record {
    /// The record of `msg`, written by `target` at the time given.
    pub fn new(secs: u64, subsec_nanos: u32, level: Level, target: String, msg: String) -> (r:
        Self)
        ensures
            r.secs == secs,
            r.subsec_nanos == subsec_nanos,
            r.level == level,
            r.target == target,
            r.msg == msg,
    {
        Self { secs, subsec_nanos, level, target, msg }
    }
}

/// How many records a buffer holds at most.
pub const BUFFER_SIZE: usize = 100;

/// The last `limit` entries of `s`, or all of `s` where it has no more.
pub open spec fn newest<T>(s: Seq<T>, limit: int) -> Seq<T> {
    if s.len() <= limit {
        s
    } else {
        s.skip(s.len() - limit)
    }
}

/// Two buffers of records: one that is written to, and one that is read.
/// Each holds the newest records, oldest first, and no more than
/// [`BUFFER_SIZE`] of them.
#[derive(Debug)]
pub struct BufferLogger {
    buffer: VecDeque<Record>,
    read_buffer: VecDeque<Record>,
}

impl BufferLogger {
    /// The records written and not yet moved to be read, oldest first.
    pub closed spec fn written(&self) -> Seq<Record> {
        self.buffer@
    }

    /// The records to be read, oldest first.
    pub closed spec fn readable(&self) -> Seq<Record> {
        self.read_buffer@
    }

    /// Neither buffer holds more than it may.
    pub open spec fn wf(&self) -> bool {
        self.written().len() <= BUFFER_SIZE && self.readable().len() <= BUFFER_SIZE
    }

    /// The logger without records.
    pub fn new() -> (l: Self)
        ensures
            l.wf(),
            l.written().len() == 0,
            l.readable().len() == 0,
    {
        Self {
            buffer: VecDeque::with_capacity(BUFFER_SIZE),
            read_buffer: VecDeque::with_capacity(BUFFER_SIZE),
        }
    }

    /// Writes `record`. Where the buffer is full the oldest record makes
    /// room.
    pub fn log(&mut self, record: Record)
        requires
            old(self).wf(),
        ensures
            final(self).wf(),
            final(self).written() == newest(old(self).written().push(record), BUFFER_SIZE as int),
            final(self).readable() == old(self).readable(),
    {
        if self.buffer.len() >= BUFFER_SIZE {
            self.buffer.pop_front();
        }
        self.buffer.push_back(record);
        assert(self.buffer@ =~= newest(old(self).buffer@.push(record), BUFFER_SIZE as int));
    }

    /// Move written logs to read buffer
    pub fn swap(&mut self)
        requires
            old(self).wf(),
        ensures
            final(self).wf(),
            final(self).written().len() == 0,
            final(self).readable() == newest(
                old(self).readable() + old(self).written(),
                BUFFER_SIZE as int,
            ),
    {
        let num_read_free = BUFFER_SIZE - self.read_buffer.len();
        let num_write = self.buffer.len();
        let space_to_make = num_write.saturating_sub(num_read_free);
        let mut dropped: usize = 0;
        while dropped < space_to_make
            invariant
                dropped <= space_to_make <= old(self).read_buffer@.len(),
                self.read_buffer@ == old(self).read_buffer@.skip(dropped as int),
                self.buffer@ == old(self).buffer@,
            decreases space_to_make - dropped,
        {
            self.read_buffer.pop_front();
            assert(self.read_buffer@ =~= old(self).read_buffer@.skip(dropped + 1));
            dropped += 1;
        }
        self.read_buffer.append(&mut self.buffer);
        assert(self.read_buffer@ =~= newest(
            old(self).read_buffer@ + old(self).buffer@,
            BUFFER_SIZE as int,
        ));
    }
}

/// Returns the buffer of logs from oldest to newest, with what was written
/// since it was last asked for.
pub fn buffer(logger: &mut BufferLogger) -> (records: &VecDeque<Record>)
    requires
        old(logger).wf(),
    ensures
        final(logger).wf(),
        final(logger).written().len() == 0,
        final(logger).readable() == newest(
            old(logger).readable() + old(logger).written(),
            BUFFER_SIZE as int,
        ),
        records@ == final(logger).readable(),
{
    logger.swap();
    &logger.read_buffer
}

} // verus!
