//! The capability detector: reads the effective capability set out of the
//! text of `/proc/self/status` and says whether the process may block file
//! accesses.
//!
//! The text is read line by line. The first line that starts with `CapEff:`
//! and whose second word is a hexadecimal number decides: blocking needs bit
//! 21 of that number, `CAP_SYS_ADMIN`. Without such a line the answer is no.

use vstd::prelude::*;
use vstd::slice::slice_subrange;
use crate::text::chars_of;
use crate::fanotify::MonitorMode;

verus! {

/// The capability that blocking needs, as a mask over the capability set.
pub const CAP_SYS_ADMIN: u64 = 0x200000;

/// Whether `c` separates words: the characters that Unicode calls white space.
pub open spec fn is_whitespace(c: char) -> bool {
    let u = c as u32;
    ||| 0x09 <= u <= 0x0d
    ||| u == 0x20
    ||| u == 0x85
    ||| u == 0xa0
    ||| u == 0x1680
    ||| 0x2000 <= u <= 0x200a
    ||| u == 0x2028
    ||| u == 0x2029
    ||| u == 0x202f
    ||| u == 0x205f
    ||| u == 0x3000
}

/// The value of `c` as a hexadecimal digit, in either case.
pub open spec fn hex_digit(c: char) -> Option<nat> {
    let u = c as u32;
    if 0x30 <= u <= 0x39 {
        Some((u - 0x30) as nat)
    } else if 0x61 <= u <= 0x66 {
        Some((u - 0x61 + 10) as nat)
    } else if 0x41 <= u <= 0x46 {
        Some((u - 0x41 + 10) as nat)
    } else {
        None
    }
}

/// The number that `digits` spell in base 16, if each of them is a digit.
pub open spec fn hex_value(digits: Seq<char>) -> Option<nat>
    decreases digits.len(),
{
    if digits.len() == 0 {
        Some(0)
    } else {
        match (hex_value(digits.drop_last()), hex_digit(digits.last())) {
            (Some(high), Some(low)) => Some(16 * high + low),
            _ => None,
        }
    }
}

/// The number that a word spells: an optional `+`, then one or more
/// hexadecimal digits whose value fits 64 bits.
pub open spec fn parse_hex_u64(word: Seq<char>) -> Option<u64> {
    let digits = if word.len() > 0 && word[0] == '+' {
        word.drop_first()
    } else {
        word
    };
    if digits.len() == 0 {
        None
    } else {
        match hex_value(digits) {
            Some(value) => if value <= u64::MAX {
                Some(value as u64)
            } else {
                None
            },
            None => None,
        }
    }
}

/// Index of the first `newline` at or after `from`, or the length of `text`.
pub open spec fn line_end(text: Seq<char>, from: int) -> int
    decreases text.len() - from,
{
    if from >= text.len() {
        text.len() as int
    } else if text[from] == '\n' {
        from
    } else {
        line_end(text, from + 1)
    }
}

/// Index of the first white space at or after `from`, or the length of `line`.
pub open spec fn word_end(line: Seq<char>, from: int) -> int
    decreases line.len() - from,
{
    if from >= line.len() {
        line.len() as int
    } else if is_whitespace(line[from]) {
        from
    } else {
        word_end(line, from + 1)
    }
}

/// Index of the first character at or after `from` that is no white space,
/// or the length of `line`.
pub open spec fn word_start(line: Seq<char>, from: int) -> int
    decreases line.len() - from,
{
    if from >= line.len() {
        line.len() as int
    } else if !is_whitespace(line[from]) {
        from
    } else {
        word_start(line, from + 1)
    }
}

/// The second word of a line, words being separated by white space.
pub open spec fn second_word(line: Seq<char>) -> Option<Seq<char>> {
    let first = word_start(line, 0);
    let start = word_start(line, word_end(line, first));
    if start < line.len() {
        Some(line.subrange(start, word_end(line, start)))
    } else {
        None
    }
}

/// The label of the line that holds the effective capability set.
pub open spec fn cap_eff_label() -> Seq<char> {
    seq!['C', 'a', 'p', 'E', 'f', 'f', ':']
}

/// What one line says about the privilege: `Some` with the answer if it is
/// a `CapEff:` line with a number, `None` if the line says nothing.
pub open spec fn line_verdict(line: Seq<char>) -> Option<bool> {
    if line.len() >= 7 && line.subrange(0, 7) == cap_eff_label() {
        match second_word(line) {
            Some(word) => match parse_hex_u64(word) {
                Some(caps) => Some(caps & CAP_SYS_ADMIN != 0),
                None => None,
            },
            None => None,
        }
    } else {
        None
    }
}

/// Whether the lines of `text` that begin at or after `from` grant the
/// privilege to block: the first line with a verdict decides.
pub open spec fn grants_from(text: Seq<char>, from: int) -> bool
    decreases text.len() - from,
    via grants_from_terminates
{
    if from < 0 || from >= text.len() {
        false
    } else {
        let end = line_end(text, from);
        match line_verdict(text.subrange(from, end)) {
            Some(verdict) => verdict,
            None => if end < text.len() {
                grants_from(text, end + 1)
            } else {
                false
            },
        }
    }
}

#[via_fn]
proof fn grants_from_terminates(text: Seq<char>, from: int) {
    if 0 <= from < text.len() {
        lemma_line_end_bounds(text, from);
    }
}

/// Whether a process with this status text may block file accesses.
pub open spec fn grants_blocking(status: Seq<char>) -> bool {
    grants_from(status, 0)
}

pub proof fn lemma_line_end_bounds(text: Seq<char>, from: int)
    requires
        0 <= from <= text.len(),
    ensures
        from <= line_end(text, from) <= text.len(),
    decreases text.len() - from,
{
    if from < text.len() && text[from] != '\n' {
        lemma_line_end_bounds(text, from + 1);
    }
}

/// The digits before a position spell a number no larger than all of them do.
proof fn lemma_hex_value_prefix(digits: Seq<char>, k: int)
    requires
        0 <= k <= digits.len(),
        hex_value(digits) is Some,
    ensures
        hex_value(digits.take(k)) is Some,
        hex_value(digits.take(k))->0 <= hex_value(digits)->0,
    decreases digits.len() - k,
{
    if k == digits.len() {
        assert(digits.take(k) =~= digits);
    } else {
        lemma_hex_value_prefix(digits.drop_last(), k);
        assert(digits.drop_last().take(k) =~= digits.take(k));
    }
}

fn char_is_whitespace(c: char) -> (b: bool)
    ensures
        b == is_whitespace(c),
{
    let u: u32 = c as u32;
    (0x09 <= u && u <= 0x0d) || u == 0x20 || u == 0x85 || u == 0xa0 || u == 0x1680 || (0x2000 <= u
        && u <= 0x200a) || u == 0x2028 || u == 0x2029 || u == 0x202f || u == 0x205f || u
        == 0x3000
}

fn hex_digit_of(c: char) -> (d: Option<u64>)
    ensures
        d is Some <==> hex_digit(c) is Some,
        d matches Some(v) ==> v == hex_digit(c)->0 && v < 16,
{
    let u: u32 = c as u32;
    if 0x30 <= u && u <= 0x39 {
        Some((u - 0x30) as u64)
    } else if 0x61 <= u && u <= 0x66 {
        Some((u - 0x61 + 10) as u64)
    } else if 0x41 <= u && u <= 0x46 {
        Some((u - 0x41 + 10) as u64)
    } else {
        None
    }
}

fn find_line_end(text: &[char], from: usize) -> (end: usize)
    requires
        from <= text@.len(),
    ensures
        end == line_end(text@, from as int),
        from <= end <= text@.len(),
{
    let mut i = from;
    while i < text.len() && text[i] != '\n'
        invariant
            from <= i <= text@.len(),
            line_end(text@, from as int) == line_end(text@, i as int),
        decreases text@.len() - i,
    {
        i += 1;
    }
    i
}

fn find_word_end(line: &[char], from: usize) -> (end: usize)
    requires
        from <= line@.len(),
    ensures
        end == word_end(line@, from as int),
        from <= end <= line@.len(),
{
    let mut i = from;
    while i < line.len() && !char_is_whitespace(line[i])
        invariant
            from <= i <= line@.len(),
            word_end(line@, from as int) == word_end(line@, i as int),
        decreases line@.len() - i,
    {
        i += 1;
    }
    i
}

fn find_word_start(line: &[char], from: usize) -> (start: usize)
    requires
        from <= line@.len(),
    ensures
        start == word_start(line@, from as int),
        from <= start <= line@.len(),
{
    let mut i = from;
    while i < line.len() && char_is_whitespace(line[i])
        invariant
            from <= i <= line@.len(),
            word_start(line@, from as int) == word_start(line@, i as int),
        decreases line@.len() - i,
    {
        i += 1;
    }
    i
}

/// Read a word as a hexadecimal number of at most 64 bits.
pub fn parse_hex(word: &[char]) -> (value: Option<u64>)
    ensures
        value == parse_hex_u64(word@),
{
    let n = word.len();
    let first: usize = if n > 0 && word[0] == '+' {
        1
    } else {
        0
    };
    if first == n {
        return None;
    }
    let ghost digits = word@.subrange(first as int, n as int);
    assert(digits =~= if first == 1 {
        word@.drop_first()
    } else {
        word@
    });
    let mut acc: u64 = 0;
    let mut i: usize = first;
    assert(digits.take(0) =~= Seq::<char>::empty());
    while i < n
        invariant
            first <= i <= n,
            n == word@.len(),
            digits == word@.subrange(first as int, n as int),
            digits.len() > 0,
            digits == if word@.len() > 0 && word@[0] == '+' {
                word@.drop_first()
            } else {
                word@
            },
            hex_value(digits.take(i - first)) == Some(acc as nat),
        decreases n - i,
    {
        let ghost k = i - first;
        assert(digits.take(k + 1).drop_last() =~= digits.take(k));
        assert(digits.take(k + 1).last() == word@[i as int]);
        match hex_digit_of(word[i]) {
            None => {
                proof {
                    assert(hex_value(digits.take(k + 1)) is None);
                    if hex_value(digits) is Some {
                        lemma_hex_value_prefix(digits, k + 1);
                    }
                }
                return None;
            },
            Some(d) => {
                if acc > (u64::MAX - d) / 16 {
                    proof {
                        assert(hex_value(digits.take(k + 1)) == Some((16 * acc + d) as nat));
                        assert(16 * acc + d > u64::MAX);
                        if hex_value(digits) is Some {
                            lemma_hex_value_prefix(digits, k + 1);
                        }
                    }
                    return None;
                }
                acc = 16 * acc + d;
            },
        }
        i += 1;
    }
    assert(digits.take(n - first) =~= digits);
    Some(acc)
}

/// What one line says about the privilege to block.
fn verdict_of_line(line: &[char]) -> (verdict: Option<bool>)
    ensures
        verdict == line_verdict(line@),
{
    let n = line.len();
    if n < 7 {
        return None;
    }
    let labelled = line[0] == 'C' && line[1] == 'a' && line[2] == 'p' && line[3] == 'E' && line[4]
        == 'f' && line[5] == 'f' && line[6] == ':';
    proof {
        let head = line@.subrange(0, 7);
        if labelled {
            assert(head =~= cap_eff_label());
        } else {
            assert(head[0] == line@[0] && head[1] == line@[1] && head[2] == line@[2] && head[3]
                == line@[3] && head[4] == line@[4] && head[5] == line@[5] && head[6] == line@[6]);
            assert(cap_eff_label()[0] == 'C' && cap_eff_label()[6] == ':');
        }
    }
    if !labelled {
        return None;
    }
    let first = find_word_start(line, 0);
    let first_end = find_word_end(line, first);
    let start = find_word_start(line, first_end);
    if start >= n {
        return None;
    }
    let end = find_word_end(line, start);
    let word = slice_subrange(line, start, end);
    match parse_hex(word) {
        Some(caps) => Some(caps & CAP_SYS_ADMIN != 0),
        None => None,
    }
}

/// Check whether the process may block file accesses, from the text of its
/// status file.
pub fn can_use_fanotify_perm(status: &str) -> (granted: bool)
    ensures
        granted == grants_blocking(status@),
{
    let chars = chars_of(status);
    let text = chars.as_slice();
    let n = text.len();
    let mut from: usize = 0;
    while from < n
        invariant
            n == text@.len(),
            text@ == status@,
            from <= n,
            grants_blocking(status@) == grants_from(text@, from as int),
        decreases n - from,
    {
        let end = find_line_end(text, from);
        let line = slice_subrange(text, from, end);
        match verdict_of_line(line) {
            Some(verdict) => {
                return verdict;
            },
            None => {},
        }
        if end == n {
            return false;
        }
        from = end + 1;
    }
    false
}

/// Choose the monitor variant that the process is privileged for: the
/// permission variant only if its status text grants the privilege to block,
/// the audit-only variant otherwise. Detection never fails.
pub fn detect(status: &str) -> (mode: MonitorMode)
    ensures
        mode == if grants_blocking(status@) {
            MonitorMode::Permission
        } else {
            MonitorMode::AuditOnly
        },
{
    if can_use_fanotify_perm(status) {
        MonitorMode::Permission
    } else {
        MonitorMode::AuditOnly
    }
}

} // verus!
