//! The log: its lines, when it is rotated, and the lines that are shown.

use vstd::prelude::*;
use vstd::string::*;

use crate::number::{decimal, decimal_text};
use crate::outside::{lossy_text_of, replaced_of, secret_pattern, text_from_utf8_lossy};
use crate::text::{chars_of, joined, lines, lines_of, text_between, texts};
use crate::util::redact_secrets;

verus! {

/// The most bytes that the log may have before it is rotated.
pub const LOG_MAX_BYTES: u64 = 2 * 1024 * 1024;

/// The number of earlier logs that are kept.
pub const LOG_BACKUPS: usize = 3;

/// The most bytes of the log that are read to show it.
pub const LOG_READ_BYTES: u64 = 512 * 1024;

/// The lines of the log that are shown.
pub const LOG_SHOWN_LINES: usize = 80;

/// A line of the log: a time, a level and a message of 4000 characters at
/// most.
pub open spec fn line_of(now: Seq<char>, level: Seq<char>, message: Seq<char>) -> Seq<char> {
    now + " "@ + level + " "@ + if message.len() > 4000 {
        message.take(4000)
    } else {
        message
    } + "\n"@
}

/// Writes a line of the log, given a message without secrets.
pub fn write_line(now: &str, level: &str, message: &str) -> (r: String)
    ensures
        r@ == line_of(now@, level@, message@),
{
    let chars = chars_of(message);
    let end: usize = if chars.len() > 4000 {
        4000
    } else {
        chars.len()
    };
    let kept = text_between(&chars, 0, end);
    assert(kept@ =~= if message@.len() > 4000 {
        message@.take(4000)
    } else {
        message@
    });
    let mut line = joined(now, " ");
    line.append(level);
    line.append(" ");
    line.append(&kept);
    line.append("\n");
    line
}

/// Writes a line of the log, with the secrets in the message hidden.
pub fn log_line(now: &str, level: &str, message: &str) -> (r: String)
    ensures
        r@ == line_of(now@, level@, replaced_of(secret_pattern(), message@, "$1[redacted]"@)),
{
    write_line(now, level, &redact_secrets(message))
}

/// Decides whether the log is rotated before so many bytes are written to it.
pub fn needs_rotation(current_bytes: u64, incoming_bytes: u64, max_bytes: u64) -> (r: bool)
    ensures
        r == (current_bytes + incoming_bytes > max_bytes),
{
    incoming_bytes > max_bytes || current_bytes > max_bytes - incoming_bytes
}

/// The name of an earlier log.
pub open spec fn numbered_name(name: Seq<char>, index: nat) -> Seq<char> {
    name + "."@ + decimal_text(index)
}

/// The name of an earlier log, given that of the log, where that has one.
pub fn numbered_log_name(name: &Option<String>, index: usize) -> (r: String)
    ensures
        r@ == numbered_name(
            match name {
                Some(name) => name@,
                None => "service.log"@,
            },
            index as nat,
        ),
{
    let mut text = match name {
        Some(name) => joined(name, "."),
        None => joined("service.log", "."),
    };
    text.append(&decimal(index as u64));
    text
}

/// A step of the rotation: which log takes the place of which. Number zero is
/// the log itself.
#[derive(Clone, Copy, Debug, PartialEq, Eq, Structural)]
pub struct RotationStep {
    pub source: usize,
    pub destination: usize,
}

/// The steps of the rotation, for so many earlier logs: the oldest first, so
/// that none is overwritten before it has moved on.
pub fn rotation_steps(backups: usize) -> (r: Vec<RotationStep>)
    ensures
        oldest_first(r@, backups),
{
    let mut steps: Vec<RotationStep> = Vec::new();
    let mut index: usize = backups;
    while index > 0
        invariant
            index <= backups,
            steps@.len() == backups - index,
            forall|i: int|
                0 <= i < backups - index ==> #[trigger] steps@[i] == (RotationStep {
                    source: (backups - i - 1) as usize,
                    destination: (backups - i) as usize,
                }),
        decreases index,
    {
        steps.push(RotationStep { source: index - 1, destination: index });
        index -= 1;
    }
    steps
}

/// The logs by their numbers once a step of the rotation was taken.
pub open spec fn moved<C>(logs: Map<int, C>, step: RotationStep) -> Map<int, C> {
    let source = step.source as int;
    let destination = step.destination as int;
    let cleared = logs.remove(destination);
    if logs.contains_key(source) {
        cleared.insert(destination, logs[source]).remove(source)
    } else {
        cleared
    }
}

/// The logs by their numbers once the first steps of the rotation were taken.
pub open spec fn rotated<C>(logs: Map<int, C>, steps: Seq<RotationStep>, taken: int) -> Map<int, C>
    decreases taken,
{
    if taken <= 0 {
        logs
    } else {
        moved(rotated(logs, steps, taken - 1), steps[taken - 1])
    }
}

/// Whether these are the steps of the rotation for so many earlier logs: the
/// oldest first.
pub open spec fn oldest_first(steps: Seq<RotationStep>, backups: usize) -> bool {
    &&& steps.len() == backups
    &&& forall|i: int|
        0 <= i < backups ==> #[trigger] steps[i] == (RotationStep {
            source: (backups - i - 1) as usize,
            destination: (backups - i) as usize,
        })
}

proof fn lemma_rotated<C>(logs: Map<int, C>, steps: Seq<RotationStep>, backups: usize, taken: int)
    requires
        oldest_first(steps, backups),
        0 <= taken <= backups,
    ensures
        ({
            let after = rotated(logs, steps, taken);
            &&& forall|i: int|
                backups - taken < i <= backups ==> #[trigger] after.contains_key(i)
                    == logs.contains_key(i - 1) && (logs.contains_key(i - 1) ==> after[i]
                    == logs[i - 1])
            &&& forall|i: int|
                i < backups - taken || i > backups ==> #[trigger] after.contains_key(i)
                    == logs.contains_key(i) && (logs.contains_key(i) ==> after[i] == logs[i])
            &&& taken > 0 ==> !after.contains_key(backups - taken)
            &&& taken == 0 ==> after == logs
        }),
    decreases taken,
{
    if taken > 0 {
        lemma_rotated(logs, steps, backups, taken - 1);
        assert(steps[taken - 1].source == backups - taken);
        assert(steps[taken - 1].destination == backups - taken + 1);
    }
}

/// The rotation moves every log on by one number and loses none but the
/// oldest; there is no log any more that lines are written to.
pub proof fn law_rotation_moves_logs_on<C>(
    logs: Map<int, C>,
    steps: Seq<RotationStep>,
    backups: usize,
)
    requires
        oldest_first(steps, backups),
        backups > 0,
    ensures
        ({
            let after = rotated(logs, steps, backups as int);
            &&& !after.contains_key(0)
            &&& forall|i: int|
                1 <= i <= backups ==> #[trigger] after.contains_key(i) == logs.contains_key(i - 1)
                    && (logs.contains_key(i - 1) ==> after[i] == logs[i - 1])
        }),
{
    lemma_rotated(logs, steps, backups, backups as int);
}

/// How much of the log is read from its end.
pub fn read_length(length: u64, max_bytes: u64) -> (r: u64)
    ensures
        r == if length < max_bytes {
            length
        } else {
            max_bytes
        },
{
    if length < max_bytes {
        length
    } else {
        max_bytes
    }
}

/// The place behind the first line feed, or the beginning where there is
/// none.
pub open spec fn behind_first_line(bytes: Seq<u8>) -> int {
    let end = crate::torrent::find_byte(bytes, 0x0a, 0);
    if end < bytes.len() {
        end + 1
    } else {
        0
    }
}

/// The last lines of what was read of a log. Where it was not read from its
/// beginning, the first line may not be whole, and is left out.
pub open spec fn last_lines(bytes: Seq<u8>, cut: bool, limit: usize) -> Seq<Seq<char>> {
    let kept = if cut {
        bytes.skip(behind_first_line(bytes))
    } else {
        bytes
    };
    let all = lines_of(lossy_text_of(kept));
    if all.len() > limit {
        all.skip(all.len() - limit)
    } else {
        all
    }
}

fn bytes_from(bytes: &Vec<u8>, start: usize) -> (r: Vec<u8>)
    requires
        start <= bytes@.len(),
    ensures
        r@ == bytes@.skip(start as int),
{
    let mut kept: Vec<u8> = Vec::new();
    let mut i: usize = start;
    while i < bytes.len()
        invariant
            start <= i <= bytes@.len(),
            kept@ == bytes@.subrange(start as int, i as int),
        decreases bytes@.len() - i,
    {
        kept.push(bytes[i]);
        i += 1;
    }
    kept
}

fn first_line_end(bytes: &Vec<u8>) -> (r: usize)
    ensures
        r == behind_first_line(bytes@),
        r <= bytes@.len(),
{
    let mut i: usize = 0;
    while i < bytes.len()
        invariant
            i <= bytes@.len(),
            crate::torrent::find_byte(bytes@, 0x0a, 0) == crate::torrent::find_byte(
                bytes@,
                0x0a,
                i as int,
            ),
        decreases bytes@.len() - i,
    {
        if bytes[i] == 0x0a {
            return i + 1;
        }
        i += 1;
    }
    0
}

/// Reads the last lines of what was read of a log, given its text.
pub fn last_of(text: &str, limit: usize) -> (r: Vec<String>)
    ensures
        ({
            let all = lines_of(text@);
            texts(r@) == if all.len() > limit {
                all.skip(all.len() - limit)
            } else {
                all
            }
        }),
{
    let all = lines(text);
    if all.len() <= limit {
        return all;
    }
    let start: usize = all.len() - limit;
    let mut kept: Vec<String> = Vec::new();
    let mut i: usize = start;
    while i < all.len()
        invariant
            start <= i <= all@.len(),
            kept@ == all@.subrange(start as int, i as int),
        decreases all@.len() - i,
    {
        kept.push(all[i].clone());
        i += 1;
    }
    assert(texts(kept@) =~= texts(all@).skip(start as int));
    kept
}

/// Reads the last lines of what was read of a log.
pub fn read_recent_lines(bytes: &Vec<u8>, cut: bool, limit: usize) -> (r: Vec<String>)
    ensures
        texts(r@) == last_lines(bytes@, cut, limit),
{
    let start: usize = if cut {
        first_line_end(bytes)
    } else {
        0
    };
    let kept = bytes_from(bytes, start);
    assert(!cut ==> kept@ =~= bytes@);
    last_of(&text_from_utf8_lossy(&kept), limit)
}

/// No more lines are shown than are asked for.
pub proof fn law_shown_lines_are_limited(bytes: Seq<u8>, cut: bool, limit: usize)
    ensures
        last_lines(bytes, cut, limit).len() <= limit,
{
}

/// A line of the log is one line, if neither the time nor the level nor the
/// message breaks it.
pub proof fn law_log_line_is_one_line(now: Seq<char>, level: Seq<char>, message: Seq<char>)
    requires
        !now.contains('\n'),
        !level.contains('\n'),
        !message.contains('\n'),
    ensures
        ({
            let line = line_of(now, level, message);
            line.last() == '\n' && !line.drop_last().contains('\n')
        }),
{
    reveal_strlit(" ");
    reveal_strlit("\n");
    let kept = if message.len() > 4000 {
        message.take(4000)
    } else {
        message
    };
    let line = line_of(now, level, message);
    let body = now + " "@ + level + " "@ + kept;
    assert(line.drop_last() =~= body);
    assert forall|i: int| 0 <= i < body.len() implies body[i] != '\n' by {
        let first = now.len() as int;
        let second = first + 1 + level.len();
        if i < first {
            assert(body[i] == now[i]);
            assert(now.contains(now[i]));
        } else if i == first {
            assert(body[i] == ' ');
        } else if i < second {
            assert(body[i] == level[i - first - 1]);
            assert(level.contains(level[i - first - 1]));
        } else if i == second {
            assert(body[i] == ' ');
        } else {
            assert(body[i] == message[i - second - 1]);
            assert(message.contains(message[i - second - 1]));
        }
    }
}

} // verus!
