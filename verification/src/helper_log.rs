//! When the log of the helper is started anew, and what is written to it.

use vstd::prelude::*;

use crate::{counter, text};

verus! {

/// How large the log may grow.
pub const MAX_LOG_BYTES: u64 = 2_097_152;

/// Whether a log that is `length` bytes long is put aside when it is opened.
pub fn rotates_on_open(length: u64) -> (yes: bool)
    ensures
        yes == (length >= MAX_LOG_BYTES),
{
    length >= MAX_LOG_BYTES
}

/// A line of the log.
pub open spec fn log_line(seconds: u64, message: Seq<char>) -> Seq<char> {
    text::decimal(seconds as nat) + " "@ + message + "\n"@
}

/// What writing a message takes.
#[derive(Debug)]
pub struct LogWrite {
    /// Whether the log is put aside first.
    pub roll: bool,
    pub line: String,
}

/// How much is in the log.
#[derive(Debug)]
pub struct LogMeter {
    written: u64,
}

impl LogMeter {
    /// The bytes written so far.
    pub closed spec fn written(&self) -> u64 {
        self.written
    }

    /// A log that holds `length` bytes.
    pub fn new(length: u64) -> (meter: LogMeter)
        ensures
            meter.written() == length,
    {
        LogMeter { written: length }
    }

    /// Counts a message written at `seconds`.
    ///
    /// The size is looked at for every line, not only when the helper starts: a
    /// tunnel that stays connected for weeks never opens its log again. A log
    /// that is put aside counts as empty whether or not that worked, so that
    /// it is not tried again for every line.
    pub fn write(&mut self, seconds: u64, message: &str) -> (write: LogWrite)
        ensures
            write.roll == (old(self).written() >= MAX_LOG_BYTES),
            write.line@ == log_line(seconds, message@),
            final(self).written() == counter::capped(
                (if old(self).written() >= MAX_LOG_BYTES {
                    0
                } else {
                    old(self).written() as int
                }) + text::byte_length(log_line(seconds, message@)),
            ),
    {
        let roll = self.written >= MAX_LOG_BYTES;
        if roll {
            self.written = 0;
        }
        let mut line = String::new();
        text::push_decimal(&mut line, seconds as u128);
        line.append(" ");
        line.append(message);
        line.append("\n");
        assert(line@ =~= log_line(seconds, message@));
        let chars = text::chars_of(line.as_str());
        let length = text::byte_count(&chars, chars.len());
        assert(chars@.subrange(0, chars@.len() as int) =~= chars@);
        let added: u64 = if length > u64::MAX as u128 {
            u64::MAX
        } else {
            length as u64
        };
        self.written = counter::sum(self.written, added);
        LogWrite { roll, line }
    }
}

/// After a line, the log holds no more than its limit and that line.
pub proof fn the_log_stays_bounded(written: u64, line: Seq<char>)
    requires
        text::byte_length(line) <= u64::MAX - MAX_LOG_BYTES,
    ensures
        counter::capped(
            (if written >= MAX_LOG_BYTES {
                0
            } else {
                written as int
            }) + text::byte_length(line),
        ) < MAX_LOG_BYTES + text::byte_length(line),
{
}

/// A log is put aside at two mebibytes, when it is opened as well as between
/// two lines.
pub proof fn logs_are_put_aside_at_two_mebibytes(length: u64, rotates: bool)
    requires
        call_ensures(rotates_on_open, (length,), rotates),
    ensures
        rotates <==> length >= 2 * 1024 * 1024,
        MAX_LOG_BYTES == 2 * 1024 * 1024,
{
}

/// A line of the log reads as the time, a space and the message, and ends in a
/// line feed.
pub proof fn log_lines_hold_time_and_message(seconds: u64, message: Seq<char>)
    ensures
        ({
            let line = log_line(seconds, message);
            let time = text::decimal(seconds as nat);
            &&& line.len() == time.len() + 1 + message.len() + 1
            &&& line.subrange(0, time.len() as int) == time
            &&& line[time.len() as int] == ' '
            &&& line.subrange(time.len() as int + 1, line.len() - 1) == message
            &&& line.last() == '\n'
        }),
{
    reveal_strlit(" ");
    reveal_strlit("\n");
    let line = log_line(seconds, message);
    let time = text::decimal(seconds as nat);
    assert(line.subrange(0, time.len() as int) =~= time);
    assert(line.subrange(time.len() as int + 1, line.len() - 1) =~= message);
}

} // verus!
