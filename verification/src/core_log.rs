//! The log lines of the core: their levels, what is shown of them and what they give away about a
//! failed start.

use vstd::prelude::*;

use crate::json::{Json, JsonView};
use crate::status::ErrorCode;
use crate::text::{begins_with, chars_at, chars_of, contains_text, occurs_in, opt_view, text_of};

verus! {

/// How much of the end of the startup log is read for the cause of a failure.
pub const CORE_FATAL_SCAN_BYTES: u64 = 65536;

/// The levels of a log line, the most severe first.
#[derive(Clone, Copy, PartialEq, Eq, Structural, Debug)]
pub enum Level {
    Error,
    Warn,
    Info,
    Debug,
    Trace,
}

/// The most verbose level that is written.
#[derive(Clone, Copy, PartialEq, Eq, Structural, Debug)]
pub enum LevelFilter {
    Off,
    Error,
    Warn,
    Info,
    Debug,
    Trace,
}

/// The log levels that the configuration knows.
#[derive(Clone, Copy, PartialEq, Eq, Structural, Debug)]
pub enum ConfigLogLevel {
    Debug,
    Info,
    Warn,
    Error,
    Fatal,
}

/// What the log gives away about a failed start.
#[derive(Clone, Copy, PartialEq, Eq, Structural, Debug)]
pub enum CoreFatalKind {
    TunAddressUnavailable,
    DhcpMonitorMissing,
}

/// A place in the startup log, and which file it was taken in.
#[derive(Clone, Copy, PartialEq, Eq, Structural, Debug)]
pub struct StartupLogCursor {
    pub offset: u64,
    pub identity: Option<u128>,
}

impl Level {
    /// How verbose a level is.
    pub open spec fn verbosity(self) -> int {
        match self {
            Level::Error => 1,
            Level::Warn => 2,
            Level::Info => 3,
            Level::Debug => 4,
            Level::Trace => 5,
        }
    }

    /// How verbose a level is.
    fn rank(self) -> (r: u8)
        ensures
            r as int == self.verbosity(),
    {
        match self {
            Level::Error => 1,
            Level::Warn => 2,
            Level::Info => 3,
            Level::Debug => 4,
            Level::Trace => 5,
        }
    }
}

impl LevelFilter {
    /// How verbose a line may be.
    pub open spec fn verbosity(self) -> int {
        match self {
            LevelFilter::Off => 0,
            LevelFilter::Error => 1,
            LevelFilter::Warn => 2,
            LevelFilter::Info => 3,
            LevelFilter::Debug => 4,
            LevelFilter::Trace => 5,
        }
    }

    /// How verbose a line may be.
    fn rank(self) -> (r: u8)
        ensures
            r as int == self.verbosity(),
    {
        match self {
            LevelFilter::Off => 0,
            LevelFilter::Error => 1,
            LevelFilter::Warn => 2,
            LevelFilter::Info => 3,
            LevelFilter::Debug => 4,
            LevelFilter::Trace => 5,
        }
    }
}

/// The level of the core's level number: the three most severe are errors, and a number that is
/// not known counts as information, so that no line is lost.
pub open spec fn level_of_number(raw: i32) -> Level {
    if 0 <= raw <= 2 {
        Level::Error
    } else if raw == 3 {
        Level::Warn
    } else if raw == 5 {
        Level::Debug
    } else if raw == 6 {
        Level::Trace
    } else {
        Level::Info
    }
}

/// The level of the core's level number.
pub fn core_log_level(raw: i32) -> (r: Level)
    ensures
        r == level_of_number(raw),
{
    match raw {
        0 | 1 | 2 => Level::Error,
        3 => Level::Warn,
        5 => Level::Debug,
        6 => Level::Trace,
        _ => Level::Info,
    }
}

/// The most verbose level that is passed on: warnings where privacy is on, everything otherwise.
pub fn core_log_privacy_floor(privacy: bool) -> (r: Level)
    ensures
        r == (if privacy {
            Level::Warn
        } else {
            Level::Trace
        }),
{
    if privacy {
        Level::Warn
    } else {
        Level::Trace
    }
}

/// A line of level `level` is neither more verbose than `floor` nor than `max`.
pub open spec fn admits(level: Level, floor: Level, max: LevelFilter) -> bool {
    level.verbosity() <= floor.verbosity() && level.verbosity() <= max.verbosity()
}

/// May a line be passed on?
pub fn core_log_admits(level: Level, floor: Level, max: LevelFilter) -> (r: bool)
    ensures
        r == admits(level, floor, max),
{
    level.rank() <= floor.rank() && level.rank() <= max.rank()
}

/// Where privacy is on, nothing more verbose than a warning is passed on, whatever else is set.
pub proof fn law_privacy_keeps_detail_back(level: Level, max: LevelFilter)
    requires
        admits(level, Level::Warn, max),
    ensures
        level is Error || level is Warn,
{
}

/// A line that is passed on stays so when more may be written.
pub proof fn law_admission_is_monotone(
    level: Level,
    floor: Level,
    max: LevelFilter,
    wider_floor: Level,
    wider_max: LevelFilter,
)
    requires
        admits(level, floor, max),
        floor.verbosity() <= wider_floor.verbosity(),
        max.verbosity() <= wider_max.verbosity(),
    ensures
        admits(level, wider_floor, wider_max),
{
}

/// The level at which a message about the configuration is logged.
pub fn config_log(level: ConfigLogLevel) -> (r: Level)
    ensures
        r == (match level {
            ConfigLogLevel::Debug => Level::Debug,
            ConfigLogLevel::Info => Level::Info,
            ConfigLogLevel::Warn => Level::Warn,
            ConfigLogLevel::Error => Level::Error,
            ConfigLogLevel::Fatal => Level::Error,
        }),
{
    match level {
        ConfigLogLevel::Debug => Level::Debug,
        ConfigLogLevel::Info => Level::Info,
        ConfigLogLevel::Warn => Level::Warn,
        ConfigLogLevel::Error => Level::Error,
        ConfigLogLevel::Fatal => Level::Error,
    }
}

/// What follows the escape sequence that `s` begins in the middle of: everything behind the first
/// character that ends one.
pub open spec fn after_sequence(s: Seq<char>) -> Seq<char>
    decreases s.len(),
{
    if s.len() == 0 {
        s
    } else if '\u{40}' <= s[0] <= '\u{7e}' {
        s.drop_first()
    } else {
        after_sequence(s.drop_first())
    }
}

/// What is left of a text without its escape sequences: an escape character goes, and with it the
/// sequence that a bracket behind it opens.
pub open spec fn without_sequences(s: Seq<char>) -> Seq<char>
    decreases s.len(),
    via without_sequences_shrinks
{
    if s.len() == 0 {
        s
    } else if s[0] != '\u{1b}' {
        seq![s[0]] + without_sequences(s.drop_first())
    } else if s.len() > 1 && s[1] == '[' {
        without_sequences(after_sequence(s.skip(2)))
    } else {
        without_sequences(s.drop_first())
    }
}

#[via_fn]
proof fn without_sequences_shrinks(s: Seq<char>) {
    if s.len() > 1 {
        lemma_after_sequence_len(s.skip(2));
    }
}

proof fn lemma_after_sequence_len(s: Seq<char>)
    ensures
        after_sequence(s).len() <= s.len(),
    decreases s.len(),
{
    if s.len() > 0 && !('\u{40}' <= s[0] <= '\u{7e}') {
        lemma_after_sequence_len(s.drop_first());
    }
}

/// A text without an escape character is left as it is.
pub proof fn law_plain_text_is_kept(s: Seq<char>)
    requires
        forall|i: int| 0 <= i < s.len() ==> s[i] != '\u{1b}',
    ensures
        without_sequences(s) == s,
    decreases s.len(),
{
    if s.len() > 0 {
        let t = s.drop_first();
        assert forall|i: int| 0 <= i < t.len() implies t[i] != '\u{1b}' by {
            assert(t[i] == s[i + 1]);
        }
        law_plain_text_is_kept(t);
        assert(seq![s[0]] + t =~= s);
    }
}

/// No escape character is left.
pub proof fn law_no_escape_is_left(s: Seq<char>)
    ensures
        forall|i: int|
            0 <= i < without_sequences(s).len() ==> without_sequences(s)[i] != '\u{1b}',
    decreases s.len(),
{
    if s.len() > 0 {
        if s[0] != '\u{1b}' {
            let t = without_sequences(s.drop_first());
            law_no_escape_is_left(s.drop_first());
            assert forall|i: int| 0 <= i < without_sequences(s).len() implies without_sequences(s)[i]
                != '\u{1b}' by {
                if i > 0 {
                    assert(without_sequences(s)[i] == t[i - 1]);
                }
            }
        } else if s.len() > 1 && s[1] == '[' {
            lemma_after_sequence_len(s.skip(2));
            law_no_escape_is_left(after_sequence(s.skip(2)));
            assert(without_sequences(s) == without_sequences(after_sequence(s.skip(2))));
        } else {
            law_no_escape_is_left(s.drop_first());
            assert(without_sequences(s) == without_sequences(s.drop_first()));
        }
    }
}

/// Removing escape sequences twice is removing them once.
pub proof fn law_removing_sequences_is_idempotent(s: Seq<char>)
    ensures
        without_sequences(without_sequences(s)) == without_sequences(s),
{
    law_no_escape_is_left(s);
    law_plain_text_is_kept(without_sequences(s));
}

/// The text without its escape sequences.
pub fn strip_ansi(s: &str) -> (r: String)
    ensures
        r@ == without_sequences(s@),
{
    let v = chars_of(s);
    let mut out = String::new();
    let mut i: usize = 0;
    assert(v@.skip(0) =~= v@);
    assert(out@ + without_sequences(v@) =~= without_sequences(v@));
    while i < v.len()
        invariant
            i <= v@.len(),
            out@ + without_sequences(v@.skip(i as int)) == without_sequences(v@),
        decreases v@.len() - i,
    {
        let ghost rest = v@.skip(i as int);
        assert(rest[0] == v@[i as int]);
        assert(rest.drop_first() =~= v@.skip(i + 1));
        if v[i] != '\u{1b}' {
            assert(out@ + (seq![v@[i as int]] + without_sequences(v@.skip(i + 1))) =~= out@.push(
                v@[i as int],
            ) + without_sequences(v@.skip(i + 1)));
            out.push(v[i]);
            i += 1;
        } else if v.len() - i > 1 && v[i + 1] == '[' {
            assert(rest[1] == v@[i + 1]);
            assert(rest.skip(2) =~= v@.skip(i + 2));
            let mut j: usize = i + 2;
            while j < v.len() && !('\u{40}' <= v[j] && v[j] <= '\u{7e}')
                invariant
                    i + 2 <= j <= v@.len(),
                    after_sequence(v@.skip(j as int)) == after_sequence(v@.skip(i + 2)),
                decreases v@.len() - j,
            {
                assert(v@.skip(j as int)[0] == v@[j as int]);
                assert(v@.skip(j as int).drop_first() =~= v@.skip(j + 1));
                j += 1;
            }
            if j < v.len() {
                assert(v@.skip(j as int)[0] == v@[j as int]);
                assert(v@.skip(j as int).drop_first() =~= v@.skip(j + 1));
                j += 1;
            } else {
                assert(v@.skip(j as int).len() == 0);
                assert(after_sequence(v@.skip(j as int)) =~= v@.skip(j as int));
            }
            i = j;
        } else {
            i += 1;
        }
    }
    assert(v@.skip(i as int).len() == 0);
    assert(out@ + without_sequences(v@.skip(i as int)) =~= out@);
    out
}

/// The length of the level word that `s` begins with, or 0.
pub open spec fn level_word_len(s: Seq<char>) -> nat {
    if begins_with(s, "PANIC"@) {
        "PANIC"@.len()
    } else if begins_with(s, "FATAL"@) {
        "FATAL"@.len()
    } else if begins_with(s, "ERROR"@) {
        "ERROR"@.len()
    } else if begins_with(s, "WARN"@) {
        "WARN"@.len()
    } else if begins_with(s, "INFO"@) {
        "INFO"@.len()
    } else if begins_with(s, "DEBUG"@) {
        "DEBUG"@.len()
    } else if begins_with(s, "TRACE"@) {
        "TRACE"@.len()
    } else {
        0
    }
}

/// Behind its level word `s` holds a number in brackets, whose closing bracket stands at `close`.
pub open spec fn stamp_closes_at(s: Seq<char>, close: int) -> bool {
    let w = level_word_len(s) as int;
    &&& w > 0
    &&& w + 1 < close < s.len()
    &&& s[w] == '['
    &&& s[close] == ']'
    &&& forall|i: int| w < i < close ==> '0' <= #[trigger] s[i] <= '9'
}

/// What is left of a line without the level and the time stamp that it begins with. A line of
/// another shape is left as it is.
pub open spec fn without_level(s: Seq<char>) -> Seq<char> {
    if exists|close: int| stamp_closes_at(s, close) {
        let close = choose|close: int| stamp_closes_at(s, close);
        let rest = s.skip(close + 1);
        if rest.len() > 0 && rest[0] == ' ' {
            rest.drop_first()
        } else {
            rest
        }
    } else {
        s
    }
}

proof fn lemma_stamp_unique(s: Seq<char>, a: int, b: int)
    requires
        stamp_closes_at(s, a),
        stamp_closes_at(s, b),
    ensures
        a == b,
{
    if a < b {
        assert('0' <= s[a] <= '9');
    }
    if b < a {
        assert('0' <= s[b] <= '9');
    }
}

fn word_len(v: &Vec<char>, word: &str) -> (r: Option<usize>)
    ensures
        r == (if begins_with(v@, word@) {
            Some(word@.len() as usize)
        } else {
            None
        }),
        begins_with(v@, word@) ==> word@.len() <= usize::MAX,
{
    let w = chars_of(word);
    if chars_at(v, &w, 0) {
        Some(w.len())
    } else {
        None
    }
}

fn level_len(v: &Vec<char>) -> (r: usize)
    ensures
        r as nat == level_word_len(v@),
        r <= v@.len(),
{
    if let Some(n) = word_len(v, "PANIC") {
        return n;
    }
    if let Some(n) = word_len(v, "FATAL") {
        return n;
    }
    if let Some(n) = word_len(v, "ERROR") {
        return n;
    }
    if let Some(n) = word_len(v, "WARN") {
        return n;
    }
    if let Some(n) = word_len(v, "INFO") {
        return n;
    }
    if let Some(n) = word_len(v, "DEBUG") {
        return n;
    }
    if let Some(n) = word_len(v, "TRACE") {
        return n;
    }
    0
}

/// The line without the level and the time stamp that it begins with.
pub fn strip_level_prefix(s: &str) -> (r: String)
    ensures
        r@ == without_level(s@),
{
    let v = chars_of(s);
    let w = level_len(&v);
    if w == 0 || w >= v.len() || v[w] != '[' {
        return s.to_owned();
    }
    let mut i: usize = w + 1;
    while i < v.len() && '0' <= v[i] && v[i] <= '9'
        invariant
            w + 1 <= i <= v@.len(),
            forall|k: int| w < k < i ==> '0' <= #[trigger] v@[k] <= '9',
        decreases v@.len() - i,
    {
        i += 1;
    }
    if i == w + 1 || i >= v.len() || v[i] != ']' {
        assert forall|c: int| !stamp_closes_at(s@, c) by {
            if stamp_closes_at(s@, c) {
                if c < i {
                    assert('0' <= v@[c] <= '9');
                } else if c > i {
                    assert('0' <= v@[i as int] <= '9');
                }
            }
        }
        return s.to_owned();
    }
    proof {
        assert(stamp_closes_at(s@, i as int));
        let c = choose|c: int| stamp_closes_at(s@, c);
        lemma_stamp_unique(s@, i as int, c);
        assert(s@.skip(i + 1) =~= v@.subrange(i + 1, v@.len() as int));
    }
    if i + 1 < v.len() && v[i + 1] == ' ' {
        assert(s@.skip(i + 1).drop_first() =~= v@.subrange(i + 2, v@.len() as int));
        text_of(&v, i + 2, v.len())
    } else {
        text_of(&v, i + 1, v.len())
    }
}

/// What is shown of a line of the core.
pub open spec fn undecorated(s: Seq<char>) -> Seq<char> {
    without_level(without_sequences(s))
}

/// What is shown of a line of the core.
pub fn strip_core_log_decoration(msg: &str) -> (r: String)
    ensures
        r@ == undecorated(msg@),
{
    let plain = strip_ansi(msg);
    strip_level_prefix(plain.as_str())
}

/// A line that carries neither an escape character nor a level is shown as it is.
pub proof fn law_other_shapes_are_kept(s: Seq<char>)
    requires
        forall|i: int| 0 <= i < s.len() ==> s[i] != '\u{1b}',
        level_word_len(s) == 0,
    ensures
        undecorated(s) == s,
{
    law_plain_text_is_kept(s);
}

/// The level of a line that the core printed.
pub open spec fn printed_level(line: Seq<char>) -> Level {
    if occurs_in(line, "FATAL"@) || occurs_in(line, "ERROR"@) {
        Level::Error
    } else if occurs_in(line, "WARN"@) {
        Level::Warn
    } else if occurs_in(line, "INFO"@) {
        Level::Info
    } else if occurs_in(line, "DEBUG"@) {
        Level::Debug
    } else if occurs_in(line, "TRACE"@) {
        Level::Trace
    } else {
        Level::Info
    }
}

/// The level of a line that the core printed.
pub fn singbox_line_level(line: &str) -> (r: Level)
    ensures
        r == printed_level(line@),
{
    if contains_text(line, "FATAL") || contains_text(line, "ERROR") {
        Level::Error
    } else if contains_text(line, "WARN") {
        Level::Warn
    } else if contains_text(line, "INFO") {
        Level::Info
    } else if contains_text(line, "DEBUG") {
        Level::Debug
    } else if contains_text(line, "TRACE") {
        Level::Trace
    } else {
        Level::Info
    }
}

/// What a line of level `level` gives away.
pub open spec fn line_fatal(line: Seq<char>, level: Level) -> Option<CoreFatalKind> {
    if level != Level::Error {
        None
    } else if occurs_in(line, "missing monitor for auto DHCP"@) {
        Some(CoreFatalKind::DhcpMonitorMissing)
    } else if occurs_in(line, "configure tun interface"@) && (occurs_in(line, "set ipv4 address"@)
        || occurs_in(line, "set ipv6 address"@) || occurs_in(line, "add address "@)) {
        Some(CoreFatalKind::TunAddressUnavailable)
    } else {
        None
    }
}

/// What a line of level `level` gives away.
pub fn classify_core_fatal_line(line: &str, level: Level) -> (r: Option<CoreFatalKind>)
    ensures
        r == line_fatal(line@, level),
{
    if level != Level::Error {
        return None;
    }
    if contains_text(line, "missing monitor for auto DHCP") {
        return Some(CoreFatalKind::DhcpMonitorMissing);
    }
    if !contains_text(line, "configure tun interface") {
        return None;
    }
    if contains_text(line, "set ipv4 address") || contains_text(line, "set ipv6 address")
        || contains_text(line, "add address ") {
        return Some(CoreFatalKind::TunAddressUnavailable);
    }
    None
}

/// The line without a carriage return at its end.
pub open spec fn without_return(s: Seq<char>) -> Seq<char> {
    if s.len() > 0 && s.last() == '\r' {
        s.drop_last()
    } else {
        s
    }
}

/// What the first line of `text` from `from` on that gives something away gives away. A line ends
/// at a line feed, with or without a carriage return before it, or at the end of the text.
pub open spec fn fatal_from(text: Seq<char>, from: int, at: int) -> Option<CoreFatalKind>
    decreases text.len() - at,
{
    if at < from || from < 0 {
        None
    } else if at >= text.len() {
        if from >= text.len() {
            None
        } else {
            let line = text.subrange(from, text.len() as int);
            line_fatal(line, printed_level(line))
        }
    } else if text[at] == '\n' {
        let line = without_return(text.subrange(from, at));
        match line_fatal(line, printed_level(line)) {
            Some(k) => Some(k),
            None => fatal_from(text, at + 1, at + 1),
        }
    } else {
        fatal_from(text, from, at + 1)
    }
}

/// What a log gives away: what its first line that gives something away does.
pub open spec fn text_fatal(text: Seq<char>) -> Option<CoreFatalKind> {
    fatal_from(text, 0, 0)
}

/// Where a log is read further than `front`, what is found does not depend on `front`.
proof fn lemma_fatal_behind(front: Seq<char>, back: Seq<char>, from: int, at: int)
    requires
        0 <= from <= at <= back.len(),
    ensures
        fatal_from(front + back, front.len() + from, front.len() + at) == fatal_from(
            back,
            from,
            at,
        ),
    decreases back.len() - at,
{
    let whole = front + back;
    let n = front.len() as int;
    assert(whole.subrange(n + from, n + at) =~= back.subrange(from, at));
    if at >= back.len() {
        assert(whole.subrange(n + from, whole.len() as int) =~= back.subrange(
            from,
            back.len() as int,
        ));
    } else {
        assert(whole[n + at] == back[at]);
        lemma_fatal_behind(front, back, at + 1, at + 1);
        lemma_fatal_behind(front, back, from, at + 1);
    }
}

/// What is found in whole lines, and after them.
proof fn lemma_fatal_in_front(front: Seq<char>, back: Seq<char>, from: int, at: int)
    requires
        front.len() > 0 ==> front.last() == '\n',
        0 <= from <= at <= front.len(),
        at == front.len() ==> from == at,
    ensures
        fatal_from(front + back, from, at) == (match fatal_from(front, from, at) {
            Some(k) => Some(k),
            None => text_fatal(back),
        }),
    decreases front.len() - at,
{
    let whole = front + back;
    if at >= front.len() {
        lemma_fatal_behind(front, back, 0, 0);
    } else {
        assert(whole[at] == front[at]);
        assert(whole.subrange(from, at) =~= front.subrange(from, at));
        if front[at] == '\n' {
            lemma_fatal_in_front(front, back, at + 1, at + 1);
        } else {
            lemma_fatal_in_front(front, back, from, at + 1);
        }
    }
}

/// What a log gives away in whole lines stands, whatever is written after them; and where they
/// give nothing away, what is written after them is read as if it were the whole log.
pub proof fn law_what_follows_a_fatal_line_changes_nothing(lines: Seq<char>, more: Seq<char>)
    requires
        lines.len() > 0 ==> lines.last() == '\n',
    ensures
        text_fatal(lines) is Some ==> text_fatal(lines + more) == text_fatal(lines),
        text_fatal(lines) is None ==> text_fatal(lines + more) == text_fatal(more),
{
    lemma_fatal_in_front(lines, more, 0, 0);
}

/// What a log gives away.
pub fn scan_core_fatal(text: &str) -> (r: Option<CoreFatalKind>)
    ensures
        r == text_fatal(text@),
{
    let v = chars_of(text);
    let mut from: usize = 0;
    let mut at: usize = 0;
    while at < v.len()
        invariant
            from <= at <= v@.len(),
            v@ == text@,
            fatal_from(v@, from as int, at as int) == text_fatal(v@),
        decreases v@.len() - at,
    {
        if v[at] == '\n' {
            let end = if at > from && v[at - 1] == '\r' {
                at - 1
            } else {
                at
            };
            assert(v@.subrange(from as int, end as int) =~= without_return(
                v@.subrange(from as int, at as int),
            ));
            let line = text_of(&v, from, end);
            let kind = classify_core_fatal_line(line.as_str(), singbox_line_level(line.as_str()));
            if kind.is_some() {
                return kind;
            }
            at += 1;
            from = at;
        } else {
            at += 1;
        }
    }
    if from < v.len() {
        let line = text_of(&v, from, v.len());
        classify_core_fatal_line(line.as_str(), singbox_line_level(line.as_str()))
    } else {
        None
    }
}

/// Where in a startup log of `current_len` bytes the lines of this start begin: behind those that
/// were there before, where it is the same file and it has not been cut.
pub fn startup_log_read_start(
    cursor: StartupLogCursor,
    current_len: u64,
    current_identity: Option<u128>,
) -> (r: u64)
    ensures
        r == (if cursor.identity is Some && cursor.identity == current_identity && current_len
            >= cursor.offset {
            cursor.offset
        } else {
            0
        }),
        r <= current_len,
{
    let same = match (cursor.identity, current_identity) {
        (Some(a), Some(b)) => a == b,
        _ => false,
    };
    if same && current_len >= cursor.offset {
        cursor.offset
    } else {
        0
    }
}

/// Where in a startup log of `current_len` bytes the scan for what the core died of begins: with
/// the lines of this start, but no further than `CORE_FATAL_SCAN_BYTES` from the end, for what a
/// core dies of is the last that it writes.
pub fn startup_log_scan_start(
    cursor: StartupLogCursor,
    current_len: u64,
    current_identity: Option<u128>,
) -> (r: u64)
    ensures
        ({
            let start: int = if cursor.identity is Some && cursor.identity == current_identity
                && current_len >= cursor.offset {
                cursor.offset as int
            } else {
                0
            };
            let tail: int = current_len - CORE_FATAL_SCAN_BYTES;
            r == (if start < tail {
                tail
            } else {
                start
            })
        }),
        r <= current_len,
        current_len - r <= CORE_FATAL_SCAN_BYTES,
{
    let start: u64 = startup_log_read_start(cursor, current_len, current_identity);
    if current_len - start > CORE_FATAL_SCAN_BYTES {
        current_len - CORE_FATAL_SCAN_BYTES
    } else {
        start
    }
}

/// The place from which the log of this start is read. Only a core that the helper starts writes
/// to the file; `file` is its length and identity, where it could be looked at.
pub fn startup_log_cursor(via_helper: bool, file: Option<(u64, Option<u128>)>) -> (r:
    StartupLogCursor)
    ensures
        r == (match file {
            Some(f) if via_helper => StartupLogCursor { offset: f.0, identity: f.1 },
            _ => StartupLogCursor { offset: 0, identity: None },
        }),
{
    if via_helper {
        if let Some(f) = file {
            return StartupLogCursor { offset: f.0, identity: f.1 };
        }
    }
    StartupLogCursor { offset: 0, identity: None }
}

/// What is known of a failed start: from the log file where the helper started the core, and from
/// what was noted of its output otherwise.
pub fn observe_core_fatal(
    via_helper: bool,
    log_tail: Option<&str>,
    noted: Option<CoreFatalKind>,
) -> (r: Option<CoreFatalKind>)
    ensures
        r == (if via_helper {
            match log_tail {
                Some(t) => text_fatal(t@),
                None => None,
            }
        } else {
            noted
        }),
{
    if via_helper {
        match log_tail {
            Some(t) => scan_core_fatal(t),
            None => None,
        }
    } else {
        noted
    }
}

/// The code and the message of a start that failed for good: those of its cause where one is known
/// that the user can act on, and those of its symptom otherwise.
pub fn settle_start_failure(
    base_msg: String,
    fatal: Option<CoreFatalKind>,
    tun_address_msg: &str,
) -> (r: (String, ErrorCode))
    ensures
        match fatal {
            Some(CoreFatalKind::TunAddressUnavailable) => r.0@ == tun_address_msg@ && r.1
                == ErrorCode::TunAddressUnavailable,
            _ => r.0 == base_msg && r.1 == ErrorCode::StartupFailed,
        },
{
    match fatal {
        Some(CoreFatalKind::TunAddressUnavailable) => (
            tun_address_msg.to_owned(),
            ErrorCode::TunAddressUnavailable,
        ),
        _ => (base_msg, ErrorCode::StartupFailed),
    }
}

/// The bytes without the line ends behind them.
pub open spec fn without_line_end(b: Seq<u8>) -> Seq<u8>
    decreases b.len(),
{
    if b.len() > 0 && (b.last() == 10 || b.last() == 13) {
        without_line_end(b.drop_last())
    } else {
        b
    }
}

/// Takes the line ends off the end of a line that was read.
pub fn trim_line_end(buf: &mut Vec<u8>)
    ensures
        final(buf)@ == without_line_end(old(buf)@),
{
    while buf.len() > 0 && (buf[buf.len() - 1] == 10 || buf[buf.len() - 1] == 13)
        invariant
            without_line_end(buf@) == without_line_end(old(buf)@),
        decreases buf@.len(),
    {
        let _ = buf.pop();
    }
}

/// What is done with a line of the core's output.
pub struct PipedLine {
    pub level: Level,
    /// The line is written to the log.
    pub write: bool,
}

/// A line of the core's output came in. It is written unless the log stream has taken over, and
/// what it gives away is noted, the first line that gives something away being the one that counts.
/// `noted` is `None` where nothing is to be noted.
pub fn pipe_line(line: &str, handed_off: bool, noted: Option<&mut Option<CoreFatalKind>>) -> (r:
    PipedLine)
    ensures
        r.level == printed_level(line@),
        r.write == !handed_off,
        noted matches Some(slot) ==> *final(slot) == (match *slot {
            Some(k) => Some(k),
            None => line_fatal(line@, printed_level(line@)),
        }),
{
    let level = singbox_line_level(line);
    if let Some(slot) = noted {
        if slot.is_none() {
            *slot = classify_core_fatal_line(line, level);
        }
    }
    PipedLine { level, write: !handed_off }
}

/// A line that the log stream of the core delivers.
pub struct CoreLogLine {
    pub level: i32,
    pub message: String,
}

/// What a relay of the core's log stream remembers.
pub struct LogRelay {
    pub my_gen: u64,
    /// The history that the stream begins with has not been shown yet.
    pub history_pending: bool,
    pub forwarded: u64,
    pub filtered: u64,
}

/// What a relay does on its round.
#[derive(Clone, Copy, PartialEq, Eq, Structural, Debug)]
pub enum RelayRound {
    /// The generation is over: hand the output back and leave.
    Retire,
    /// Wait for the next frame.
    Listen,
}

/// A line of the stream is shown.
pub open spec fn line_shown(l: CoreLogLine, floor: Level, max: LevelFilter) -> bool {
    admits(level_of_number(l.level), floor, max) && undecorated(l.message@).len() > 0
}

/// The lines that are shown of a frame, with their levels.
pub open spec fn shown(lines: Seq<CoreLogLine>, floor: Level, max: LevelFilter) -> Seq<
    (Level, Seq<char>),
>
    decreases lines.len(),
{
    if lines.len() == 0 {
        Seq::empty()
    } else {
        let l = lines.last();
        let before = shown(lines.drop_last(), floor, max);
        if line_shown(l, floor, max) {
            before.push((level_of_number(l.level), undecorated(l.message@)))
        } else {
            before
        }
    }
}

/// How many lines of a frame are too verbose to be shown.
pub open spec fn too_verbose(lines: Seq<CoreLogLine>, floor: Level, max: LevelFilter) -> nat
    decreases lines.len(),
{
    if lines.len() == 0 {
        0
    } else {
        too_verbose(lines.drop_last(), floor, max) + (if admits(
            level_of_number(lines.last().level),
            floor,
            max,
        ) {
            0nat
        } else {
            1nat
        })
    }
}

/// The levels and texts of the lines to write.
pub open spec fn written(v: Seq<(Level, String)>) -> Seq<(Level, Seq<char>)> {
    v.map_values(|l: (Level, String)| (l.0, l.1@))
}

/// A relay shows a frame, unless it repeats a history that was shown already.
pub open spec fn frame_is_shown(relay: LogRelay, reset: bool) -> bool {
    !reset || relay.history_pending
}

impl LogRelay {
    /// A relay for this generation. `None` where the user switched the log off. Where the output of
    /// the core was read until now, its history has been shown already.
    pub fn begin(my_gen: u64, log_file_disabled: bool, takes_over: bool) -> (r: Option<Self>)
        ensures
            log_file_disabled ==> r is None,
            !log_file_disabled ==> {
                &&& r matches Some(relay)
                &&& relay.my_gen == my_gen
                &&& relay.history_pending == !takes_over
                &&& relay.forwarded == 0
                &&& relay.filtered == 0
            },
    {
        if log_file_disabled {
            return None;
        }
        Some(LogRelay { my_gen, history_pending: !takes_over, forwarded: 0, filtered: 0 })
    }

    /// The relay begins a round.
    pub fn round(&self, generation: u64) -> (r: RelayRound)
        ensures
            r == (if generation != self.my_gen {
                RelayRound::Retire
            } else {
                RelayRound::Listen
            }),
    {
        if generation != self.my_gen {
            RelayRound::Retire
        } else {
            RelayRound::Listen
        }
    }

    /// A frame came in: the lines to write. `None` where the generation is over, and then the
    /// output is not taken over either.
    pub fn frame(
        &mut self,
        generation: u64,
        reset: bool,
        lines: &Vec<CoreLogLine>,
        floor: Level,
        max: LevelFilter,
    ) -> (r: Option<Vec<(Level, String)>>)
        requires
            old(self).forwarded + lines@.len() <= u64::MAX,
            old(self).filtered + lines@.len() <= u64::MAX,
        ensures
            final(self).my_gen == old(self).my_gen,
            generation != old(self).my_gen ==> r is None && *final(self) == *old(self),
            generation == old(self).my_gen ==> {
                &&& r matches Some(out)
                &&& if frame_is_shown(*old(self), reset) {
                    &&& written(out@) == shown(lines@, floor, max)
                    &&& final(self).history_pending == (old(self).history_pending && !reset)
                    &&& final(self).forwarded == old(self).forwarded + shown(
                        lines@,
                        floor,
                        max,
                    ).len()
                    &&& final(self).filtered == old(self).filtered + too_verbose(lines@, floor, max)
                } else {
                    out@.len() == 0 && *final(self) == *old(self)
                }
            },
    {
        if generation != self.my_gen {
            return None;
        }
        let mut out: Vec<(Level, String)> = Vec::new();
        if reset {
            if !self.history_pending {
                return Some(out);
            }
            self.history_pending = false;
        }
        let ghost start = *self;
        let mut i: usize = 0;
        while i < lines.len()
            invariant
                i <= lines@.len(),
                start.forwarded + lines@.len() <= u64::MAX,
                start.filtered + lines@.len() <= u64::MAX,
                self.my_gen == start.my_gen,
                self.history_pending == start.history_pending,
                written(out@) == shown(lines@.take(i as int), floor, max),
                self.forwarded == start.forwarded + shown(lines@.take(i as int), floor, max).len(),
                self.filtered == start.filtered + too_verbose(lines@.take(i as int), floor, max),
                shown(lines@.take(i as int), floor, max).len() <= i,
                too_verbose(lines@.take(i as int), floor, max) <= i,
            decreases lines@.len() - i,
        {
            let ghost next = lines@.take(i + 1);
            assert(next.drop_last() =~= lines@.take(i as int));
            assert(next.last() == lines@[i as int]);
            let level = core_log_level(lines[i].level);
            if !core_log_admits(level, floor, max) {
                self.filtered = self.filtered + 1;
            } else {
                let text = strip_core_log_decoration(lines[i].message.as_str());
                if !text.as_str().is_empty() {
                    let ghost before = out@;
                    out.push((level, text));
                    assert(written(out@) =~= written(before).push((level, text@)));
                    self.forwarded = self.forwarded + 1;
                }
            }
            i += 1;
        }
        assert(lines@.take(i as int) =~= lines@);
        Some(out)
    }
}

/// A relay that is told of a renewed subscription after its history was shown writes nothing: no
/// line is shown twice.
pub proof fn law_history_is_shown_once(relay: LogRelay)
    requires
        !relay.history_pending,
    ensures
        !frame_is_shown(relay, true),
        frame_is_shown(relay, false),
{
}

/// Whether the log file is switched off.
pub fn log_file_disabled(config: Option<&Json>) -> (r: bool)
    ensures
        r == (match config {
            Some(c) => match c@.get("disableLogFile"@) {
                Some(v) => v.truth() == Some(true),
                None => false,
            },
            None => false,
        }),
{
    match config {
        Some(c) => match c.get("disableLogFile") {
            Some(v) => match v.as_truth() {
                Some(b) => b,
                None => false,
            },
            None => false,
        },
        None => false,
    }
}

/// The log settings of a configuration: the text of its level, where it has one, and whether the
/// log file is switched off.
pub fn log_axes_from_config(config: &Json) -> (r: (Option<String>, bool))
    ensures
        opt_view(r.0) == config@.text_at("logLevel"@),
        r.1 == (match config@.get("disableLogFile"@) {
            Some(v) => v.truth() == Some(true),
            None => false,
        }),
{
    let level = match config.text_at("logLevel") {
        Some(s) => Some(s.clone()),
        None => None,
    };
    (level, log_file_disabled(Some(config)))
}

/// The level of a number: the three most severe are errors, the fourth is a warning, the sixth and
/// the seventh are detail, and any other number is information.
pub proof fn law_each_number_has_its_level(raw: i32, r: Level, c: ConfigLogLevel, logged: Level)
    requires
        call_ensures(core_log_level, (raw,), r),
        call_ensures(config_log, (c,), logged),
    ensures
        r == Level::Error <==> raw == 0 || raw == 1 || raw == 2,
        r == Level::Warn <==> raw == 3,
        r == Level::Debug <==> raw == 5,
        r == Level::Trace <==> raw == 6,
        r == Level::Info <==> raw < 0 || raw == 4 || raw > 6,
        logged == Level::Error <==> c == ConfigLogLevel::Error || c == ConfigLogLevel::Fatal,
        logged == Level::Warn <==> c == ConfigLogLevel::Warn,
        logged == Level::Info <==> c == ConfigLogLevel::Info,
        logged == Level::Debug <==> c == ConfigLogLevel::Debug,
{
}

/// Each level is passed on by the limits that are as verbose as it or more so, and by no others;
/// privacy is a limit at warnings, and without it there is none but the other.
pub proof fn law_a_line_is_passed_on_within_both_limits(
    level: Level,
    floor: Level,
    max: LevelFilter,
    r: bool,
    privacy: bool,
    limit: Level,
    q: bool,
)
    requires
        call_ensures(core_log_admits, (level, floor, max), r),
        call_ensures(core_log_privacy_floor, (privacy,), limit),
        call_ensures(core_log_admits, (level, limit, LevelFilter::Trace), q),
    ensures
        max == LevelFilter::Off ==> !r,
        level == Level::Error ==> (r <==> max != LevelFilter::Off),
        level == Level::Warn ==> (r <==> floor != Level::Error && max != LevelFilter::Off && max
            != LevelFilter::Error),
        level == Level::Info ==> (r <==> floor != Level::Error && floor != Level::Warn && max
            != LevelFilter::Off && max != LevelFilter::Error && max != LevelFilter::Warn),
        level == Level::Debug ==> (r <==> (floor == Level::Debug || floor == Level::Trace) && (max
            == LevelFilter::Debug || max == LevelFilter::Trace)),
        level == Level::Trace ==> (r <==> floor == Level::Trace && max == LevelFilter::Trace),
        q <==> !privacy || level == Level::Error || level == Level::Warn,
{
}

/// Taking escape sequences out leaves what stands around them: what stands before one is kept as it
/// is, a sequence goes up to the character that ends it, and what follows is treated the same way.
/// An escape that opens no sequence goes alone.
pub proof fn law_a_sequence_goes_and_its_surroundings_stay(
    s: &str,
    r: String,
    rest: &str,
    q: String,
    front: Seq<char>,
    inside: Seq<char>,
    end: char,
)
    requires
        call_ensures(strip_ansi, (s,), r),
        call_ensures(strip_ansi, (rest,), q),
        forall|k: int| 0 <= k < front.len() ==> #[trigger] front[k] != '\u{1b}',
        forall|k: int|
            0 <= k < inside.len() ==> #[trigger] inside[k] < '\u{40}' || inside[k] > '\u{7e}',
        '\u{40}' <= end <= '\u{7e}',
    ensures
        s@ == front + rest@ ==> r@ == front + q@,
        s@ == front + (seq!['\u{1b}', '['] + inside.push(end) + rest@) ==> r@ == front + q@,
        s@ == front.push('\u{1b}') + rest@ && (rest@.len() == 0 || rest@[0] != '[') ==> r@ == front
            + q@,
{
    if s@ == front + rest@ {
        lemma_front_is_kept(front, rest@);
    }
    if s@ == front + (seq!['\u{1b}', '['] + inside.push(end) + rest@) {
        let t = seq!['\u{1b}', '['] + inside.push(end) + rest@;
        lemma_front_is_kept(front, t);
        assert(t.skip(2) =~= inside.push(end) + rest@);
        lemma_sequence_ends(inside, end, rest@);
    }
    if s@ == front.push('\u{1b}') + rest@ && (rest@.len() == 0 || rest@[0] != '[') {
        let t = seq!['\u{1b}'] + rest@;
        assert(s@ =~= front + t);
        lemma_front_is_kept(front, t);
        assert(t.drop_first() =~= rest@);
        assert(rest@.len() > 0 ==> t[1] == rest@[0]);
    }
}

proof fn lemma_front_is_kept(front: Seq<char>, rest: Seq<char>)
    requires
        forall|k: int| 0 <= k < front.len() ==> #[trigger] front[k] != '\u{1b}',
    ensures
        without_sequences(front + rest) == front + without_sequences(rest),
    decreases front.len(),
{
    if front.len() == 0 {
        assert(front + rest =~= rest);
        assert(front + without_sequences(rest) =~= without_sequences(rest));
    } else {
        let f = front.drop_first();
        assert forall|k: int| 0 <= k < f.len() implies #[trigger] f[k] != '\u{1b}' by {
            assert(f[k] == front[k + 1]);
        }
        lemma_front_is_kept(f, rest);
        assert(front[0] != '\u{1b}');
        assert((front + rest).drop_first() =~= f + rest);
        assert(seq![front[0]] + (f + without_sequences(rest)) =~= front + without_sequences(rest));
    }
}

proof fn lemma_sequence_ends(inside: Seq<char>, end: char, rest: Seq<char>)
    requires
        forall|k: int|
            0 <= k < inside.len() ==> #[trigger] inside[k] < '\u{40}' || inside[k] > '\u{7e}',
        '\u{40}' <= end <= '\u{7e}',
    ensures
        after_sequence(inside.push(end) + rest) == rest,
    decreases inside.len(),
{
    let t = inside.push(end) + rest;
    if inside.len() == 0 {
        assert(t[0] == end);
        assert(t.drop_first() =~= rest);
    } else {
        let f = inside.drop_first();
        assert forall|k: int| 0 <= k < f.len() implies #[trigger] f[k] < '\u{40}' || f[k]
            > '\u{7e}' by {
            assert(f[k] == inside[k + 1]);
        }
        lemma_sequence_ends(f, end, rest);
        assert(t[0] == inside[0]);
        assert(t.drop_first() =~= f.push(end) + rest);
    }
}

/// The words that a line may begin its level with.
pub open spec fn level_words() -> Seq<Seq<char>> {
    seq!["PANIC"@, "FATAL"@, "ERROR"@, "WARN"@, "INFO"@, "DEBUG"@, "TRACE"@]
}

/// A level word with a number in brackets goes from the front of a line, and a space behind it
/// goes too, but no more than one; a line that begins with no level word and bracket is kept.
pub proof fn law_a_level_and_its_stamp_go(
    s: &str,
    r: String,
    i: int,
    digits: Seq<char>,
    rest: Seq<char>,
)
    requires
        call_ensures(strip_level_prefix, (s,), r),
    ensures
        0 <= i < level_words().len() && digits.len() > 0 && (forall|k: int|
            0 <= k < digits.len() ==> '0' <= #[trigger] digits[k] <= '9') && s@
            == level_words()[i].push('[') + digits.push(']') + rest ==> r@ == (if rest.len() > 0
            && rest[0] == ' ' {
            rest.drop_first()
        } else {
            rest
        }),
        (forall|k: int|
            0 <= k < level_words().len() ==> !begins_with(
                s@,
                (#[trigger] level_words()[k]).push('['),
            )) ==> r@ == s@,
{
    reveal_strlit("PANIC");
    reveal_strlit("FATAL");
    reveal_strlit("ERROR");
    reveal_strlit("WARN");
    reveal_strlit("INFO");
    reveal_strlit("DEBUG");
    reveal_strlit("TRACE");
    let t = s@;
    lemma_level_word(t);
    if 0 <= i < level_words().len() && digits.len() > 0 && (forall|k: int|
        0 <= k < digits.len() ==> '0' <= #[trigger] digits[k] <= '9') && t
        == level_words()[i].push('[') + digits.push(']') + rest {
        let word = level_words()[i];
        let w = word.len() as int;
        assert(t.subrange(0, w) =~= word);
        assert(begins_with(t, word));
        assert(t[0] == word[0]);
        assert(level_word_len(t) == w);
        let close = w + 1 + digits.len();
        assert(t[w] == '[');
        assert(t[close] == ']');
        assert forall|k: int| w < k < close implies '0' <= #[trigger] t[k] <= '9' by {
            assert(t[k] == digits[k - w - 1]);
        }
        assert(stamp_closes_at(t, close));
        let c = choose|c: int| stamp_closes_at(t, c);
        lemma_stamp_unique(t, c, close);
        assert(t.skip(close + 1) =~= rest);
    }
    if (forall|k: int|
        0 <= k < level_words().len() ==> !begins_with(t, (#[trigger] level_words()[k]).push('[')))
        && exists|c: int| stamp_closes_at(t, c) {
        let c = choose|c: int| stamp_closes_at(t, c);
        let w = level_word_len(t) as int;
        let k = choose|k: int|
            0 <= k < level_words().len() && begins_with(t, #[trigger] level_words()[k])
                && level_words()[k].len() == w;
        assert(t.subrange(0, w) =~= level_words()[k]);
        assert(t.subrange(0, w + 1) =~= level_words()[k].push('['));
        assert(begins_with(t, level_words()[k].push('[')));
    }
}

proof fn lemma_level_word(t: Seq<char>)
    ensures
        level_word_len(t) > 0 ==> exists|k: int|
            0 <= k < level_words().len() && begins_with(t, #[trigger] level_words()[k])
                && level_words()[k].len() == level_word_len(t),
{
    let w = level_words();
    assert(w[0] == "PANIC"@ && w[1] == "FATAL"@ && w[2] == "ERROR"@ && w[3] == "WARN"@ && w[4]
        == "INFO"@ && w[5] == "DEBUG"@ && w[6] == "TRACE"@);
}

/// What is shown of a line is what is left once its escape sequences and then its level are gone.
pub proof fn law_decoration_is_sequences_and_level(
    msg: &str,
    r: String,
    plain: &str,
    p: String,
    q: String,
)
    requires
        call_ensures(strip_core_log_decoration, (msg,), r),
        call_ensures(strip_ansi, (msg,), p),
        plain@ == p@,
        call_ensures(strip_level_prefix, (plain,), q),
    ensures
        r@ == q@,
{
}

/// A printed line has the level of the most severe word that occurs in it, and counts as
/// information where none does.
pub proof fn law_a_printed_line_has_its_most_severe_level(line: &str, r: Level)
    requires
        call_ensures(singbox_line_level, (line,), r),
    ensures
        ({
            let error = occurs_in(line@, "FATAL"@) || occurs_in(line@, "ERROR"@);
            let warn = occurs_in(line@, "WARN"@);
            let info = occurs_in(line@, "INFO"@);
            let debug = occurs_in(line@, "DEBUG"@);
            let trace = occurs_in(line@, "TRACE"@);
            &&& r == Level::Error <==> error
            &&& r == Level::Warn <==> !error && warn
            &&& r == Level::Debug <==> !error && !warn && !info && debug
            &&& r == Level::Trace <==> !error && !warn && !info && !debug && trace
            &&& r == Level::Info <==> !error && !warn && (info || (!debug && !trace))
        }),
{
}

/// Only an error gives something away: a missing monitor, or an address that could not be set on
/// the virtual interface, by the words that the core uses for them.
pub proof fn law_what_a_line_gives_away(line: &str, level: Level, r: Option<CoreFatalKind>)
    requires
        call_ensures(classify_core_fatal_line, (line, level), r),
    ensures
        r is Some ==> level == Level::Error,
        level == Level::Error ==> (r == Some(CoreFatalKind::DhcpMonitorMissing) <==> occurs_in(
            line@,
            "missing monitor for auto DHCP"@,
        )),
        level == Level::Error ==> (r == Some(CoreFatalKind::TunAddressUnavailable) <==> !occurs_in(
            line@,
            "missing monitor for auto DHCP"@,
        ) && occurs_in(line@, "configure tun interface"@) && (occurs_in(
            line@,
            "set ipv4 address"@,
        ) || occurs_in(line@, "set ipv6 address"@) || occurs_in(line@, "add address "@))),
{
}

/// A log is read line by line, and the first line that gives something away counts: what a log
/// gives away is what its first line does, read at its own level and without a carriage return at
/// its end, and otherwise what the rest of the log does.
pub proof fn law_a_log_is_read_line_by_line(
    text: &str,
    r: Option<CoreFatalKind>,
    line: Seq<char>,
    read: &str,
    level: Level,
    first: Option<CoreFatalKind>,
    rest: &str,
    q: Option<CoreFatalKind>,
)
    requires
        call_ensures(scan_core_fatal, (text,), r),
        forall|k: int| 0 <= k < line.len() ==> #[trigger] line[k] != '\n',
        call_ensures(singbox_line_level, (read,), level),
        call_ensures(classify_core_fatal_line, (read, level), first),
        call_ensures(scan_core_fatal, (rest,), q),
    ensures
        text@ == line.push('\n') + rest@ && (read@ == line && (line.len() == 0 || line.last()
            != '\r') || line == read@.push('\r')) ==> r == (if first is Some {
            first
        } else {
            q
        }),
        text@ == line && read@ == line && line.len() > 0 ==> r == first,
        text@.len() == 0 ==> r is None,
{
    let n = line.len() as int;
    if text@ == line.push('\n') + rest@ {
        let front = line.push('\n');
        assert forall|k: int| 0 <= k < n implies text@[k] != '\n' by {
            assert(text@[k] == line[k]);
        }
        lemma_no_feed(text@, 0, 0, n);
        assert(text@[n] == '\n');
        assert(text@.subrange(0, n) =~= line);
        lemma_fatal_behind(front, rest@, 0, 0);
        if line == read@.push('\r') {
            assert(line.drop_last() =~= read@);
        }
    }
    if text@ == line && line.len() > 0 {
        lemma_no_feed(text@, 0, 0, n);
        assert(text@.subrange(0, n) =~= line);
    }
}

proof fn lemma_no_feed(text: Seq<char>, from: int, at: int, to: int)
    requires
        0 <= from <= at <= to <= text.len(),
        forall|k: int| at <= k < to ==> text[k] != '\n',
    ensures
        fatal_from(text, from, at) == fatal_from(text, from, to),
    decreases to - at,
{
    if at < to {
        lemma_no_feed(text, from, at + 1, to);
    }
}

/// The lines of a start are read from where the file ended before it, as long as it is known to be
/// the same file and has not been cut, and from its beginning otherwise; a scan skips to the last
/// part of them. The place is noted only for a core of the helper.
pub proof fn law_a_log_is_read_from_where_it_ended(
    cursor: StartupLogCursor,
    len: u64,
    identity: Option<u128>,
    from: u64,
    scan: u64,
    via_helper: bool,
    file: Option<(u64, Option<u128>)>,
    noted: StartupLogCursor,
)
    requires
        call_ensures(startup_log_read_start, (cursor, len, identity), from),
        call_ensures(startup_log_scan_start, (cursor, len, identity), scan),
        call_ensures(startup_log_cursor, (via_helper, file), noted),
    ensures
        ({
            let same = cursor.identity is Some && identity is Some && cursor.identity->0
                == identity->0 && cursor.offset <= len;
            &&& same ==> from == cursor.offset
            &&& !same ==> from == 0
        }),
        from <= scan <= len,
        len - from <= 65536 ==> scan == from,
        len - from > 65536 ==> len - scan == 65536,
        via_helper && file is Some ==> noted.offset == (file->0).0 && noted.identity == (
        file->0).1,
        !via_helper || file is None ==> noted.offset == 0 && noted.identity is None,
{
}

/// What is known of a failed start comes from the log file for a core of the helper and from what
/// was noted otherwise; and only an address that could not be set is said in place of the symptom.
pub proof fn law_a_failed_start_is_explained_by_its_log(
    via_helper: bool,
    tail: Option<&str>,
    noted: Option<CoreFatalKind>,
    r: Option<CoreFatalKind>,
    scanned: Option<CoreFatalKind>,
    base: String,
    fatal: Option<CoreFatalKind>,
    tun_msg: &str,
    said: (String, ErrorCode),
)
    requires
        call_ensures(observe_core_fatal, (via_helper, tail, noted), r),
        tail is Some ==> call_ensures(scan_core_fatal, (tail->0,), scanned),
        call_ensures(settle_start_failure, (base, fatal, tun_msg), said),
    ensures
        !via_helper ==> r == noted,
        via_helper && tail is Some ==> r == scanned,
        via_helper && tail is None ==> r is None,
        fatal == Some(CoreFatalKind::TunAddressUnavailable) ==> said.0@ == tun_msg@ && said.1
            == ErrorCode::TunAddressUnavailable,
        fatal != Some(CoreFatalKind::TunAddressUnavailable) ==> said.0@ == base@ && said.1
            == ErrorCode::StartupFailed,
{
}

/// Exactly the line ends at the end of a line are taken off it: what is left is what it began with,
/// ends in none, and only line ends went.
pub proof fn law_only_line_ends_are_taken_off(buf: &mut Vec<u8>, i: int)
    requires
        call_ensures(trim_line_end, (buf,), ()),
    ensures
        final(buf)@.len() <= old(buf)@.len(),
        final(buf)@ == old(buf)@.take(final(buf)@.len() as int),
        final(buf)@.len() > 0 ==> final(buf)@.last() != 10 && final(buf)@.last() != 13,
        final(buf)@.len() <= i < old(buf)@.len() ==> old(buf)@[i] == 10 || old(buf)@[i] == 13,
{
    lemma_line_end(old(buf)@, i);
}

proof fn lemma_line_end(b: Seq<u8>, i: int)
    ensures
        ({
            let t = without_line_end(b);
            &&& t.len() <= b.len()
            &&& t == b.take(t.len() as int)
            &&& t.len() > 0 ==> t.last() != 10 && t.last() != 13
            &&& t.len() <= i < b.len() ==> b[i] == 10 || b[i] == 13
        }),
    decreases b.len(),
{
    if b.len() > 0 && (b.last() == 10 || b.last() == 13) {
        lemma_line_end(b.drop_last(), i);
        let t = without_line_end(b);
        assert(b.drop_last().take(t.len() as int) =~= b.take(t.len() as int));
    } else {
        assert(b.take(b.len() as int) =~= b);
    }
}

/// A line of the output is written exactly while the log stream has not taken over; what it gives
/// away is noted where nothing was noted before.
pub proof fn law_the_first_fatal_line_is_noted(
    line: &str,
    handed_off: bool,
    slot: &mut Option<CoreFatalKind>,
    r: PipedLine,
    level: Level,
    found: Option<CoreFatalKind>,
)
    requires
        call_ensures(pipe_line, (line, handed_off, Some(slot)), r),
        call_ensures(singbox_line_level, (line,), level),
        call_ensures(classify_core_fatal_line, (line, level), found),
    ensures
        r.level == level,
        r.write <==> !handed_off,
        *old(slot) is Some ==> *final(slot) == *old(slot),
        *old(slot) is None ==> *final(slot) == found,
{
}

/// How many of the first `n` lines are passed on and have something to show.
pub open spec fn lines_to_show(lines: Seq<CoreLogLine>, floor: Level, max: LevelFilter, n: int) -> nat
    decreases n,
{
    if n <= 0 || n > lines.len() {
        0
    } else {
        lines_to_show(lines, floor, max, n - 1) + (if admits(
            level_of_number(lines[n - 1].level),
            floor,
            max,
        ) && undecorated(lines[n - 1].message@).len() > 0 {
            1nat
        } else {
            0nat
        })
    }
}

/// How many of the first `n` lines are kept back.
pub open spec fn lines_kept_back(lines: Seq<CoreLogLine>, floor: Level, max: LevelFilter, n: int) -> nat
    decreases n,
{
    if n <= 0 || n > lines.len() {
        0
    } else {
        lines_kept_back(lines, floor, max, n - 1) + (if admits(
            level_of_number(lines[n - 1].level),
            floor,
            max,
        ) {
            0nat
        } else {
            1nat
        })
    }
}

/// A relay of the current generation writes every line of a frame that is passed on and has
/// something to show, in order, at its level and without its decoration, and no other; it counts
/// what it wrote and what it kept back. A history that was shown is not shown again, and a relay
/// whose generation is over writes nothing.
pub proof fn law_a_frame_is_written_line_by_line(
    relay: &mut LogRelay,
    generation: u64,
    reset: bool,
    lines: Vec<CoreLogLine>,
    floor: Level,
    max: LevelFilter,
    r: Option<Vec<(Level, String)>>,
    i: int,
)
    requires
        old(relay).forwarded + lines@.len() <= u64::MAX,
        old(relay).filtered + lines@.len() <= u64::MAX,
        call_ensures(LogRelay::frame, (relay, generation, reset, &lines, floor, max), r),
    ensures
        r is None <==> generation != old(relay).my_gen,
        ({
            let repeated = reset && !old(relay).history_pending;
            let n = lines@.len() as int;
            &&& r is None || repeated ==> *final(relay) == *old(relay)
            &&& r is Some && repeated ==> r->0@.len() == 0
            &&& r is Some && !repeated ==> {
                &&& r->0@.len() == lines_to_show(lines@, floor, max, n)
                &&& final(relay).forwarded == old(relay).forwarded + r->0@.len()
                &&& final(relay).filtered == old(relay).filtered + lines_kept_back(
                    lines@,
                    floor,
                    max,
                    n,
                )
                &&& final(relay).history_pending <==> old(relay).history_pending && !reset
                &&& 0 <= i < n && admits(level_of_number(lines@[i].level), floor, max)
                    && undecorated(lines@[i].message@).len() > 0 ==> {
                    let at = lines_to_show(lines@, floor, max, i) as int;
                    &&& at < r->0@.len()
                    &&& r->0@[at].0 == level_of_number(lines@[i].level)
                    &&& r->0@[at].1@ == undecorated(lines@[i].message@)
                }
            }
        }),
        final(relay).my_gen == old(relay).my_gen,
{
    if r is Some && (!reset || old(relay).history_pending) {
        lemma_shown_places(lines@, floor, max, i);
        let w = written(r->0@);
        assert(w.len() == r->0@.len());
        let at = lines_to_show(lines@, floor, max, i) as int;
        if at < w.len() {
            assert(w[at] == (r->0@[at].0, r->0@[at].1@));
        }
    }
}

proof fn lemma_shown_places(lines: Seq<CoreLogLine>, floor: Level, max: LevelFilter, i: int)
    ensures
        shown(lines, floor, max).len() == lines_to_show(lines, floor, max, lines.len() as int),
        too_verbose(lines, floor, max) == lines_kept_back(lines, floor, max, lines.len() as int),
        0 <= i < lines.len() && admits(level_of_number(lines[i].level), floor, max) && undecorated(
            lines[i].message@,
        ).len() > 0 ==> {
            let at = lines_to_show(lines, floor, max, i) as int;
            &&& at < shown(lines, floor, max).len()
            &&& shown(lines, floor, max)[at] == (
                level_of_number(lines[i].level),
                undecorated(lines[i].message@),
            )
        },
    decreases lines.len(),
{
    if lines.len() > 0 {
        let front = lines.drop_last();
        lemma_shown_places(front, floor, max, i);
        lemma_lines_front(lines, floor, max, lines.len() - 1);
        if 0 <= i < front.len() {
            lemma_lines_front(lines, floor, max, i);
            assert(front[i] == lines[i]);
        }
    }
}

proof fn lemma_lines_front(lines: Seq<CoreLogLine>, floor: Level, max: LevelFilter, n: int)
    requires
        lines.len() > 0,
        0 <= n <= lines.len() - 1,
    ensures
        lines_to_show(lines.drop_last(), floor, max, n) == lines_to_show(lines, floor, max, n),
        lines_kept_back(lines.drop_last(), floor, max, n) == lines_kept_back(lines, floor, max, n),
    decreases n,
{
    if n > 0 {
        lemma_lines_front(lines, floor, max, n - 1);
        assert(lines.drop_last()[n - 1] == lines[n - 1]);
    }
}

/// There is a relay exactly where the log is not switched off; it begins with the history unless
/// the output was read until now, listens while its generation lasts, and a log is switched off by
/// the configuration's own words alone.
pub proof fn law_a_relay_listens_for_its_generation(
    my_gen: u64,
    disabled: bool,
    takes_over: bool,
    r: Option<LogRelay>,
    generation: u64,
    round: RelayRound,
    config: Json,
    off: bool,
    none_off: bool,
    axes: (Option<String>, bool),
    b: bool,
)
    requires
        call_ensures(LogRelay::begin, (my_gen, disabled, takes_over), r),
        r is Some ==> call_ensures(LogRelay::round, (&r->0, generation), round),
        call_ensures(log_file_disabled, (Some(&config),), off),
        call_ensures(log_file_disabled, (None,), none_off),
        call_ensures(log_axes_from_config, (&config,), axes),
    ensures
        r is Some <==> !disabled,
        r matches Some(relay) ==> {
            &&& relay.my_gen == my_gen
            &&& relay.history_pending <==> !takes_over
            &&& relay.forwarded == 0 && relay.filtered == 0
            &&& round == RelayRound::Listen <==> generation == my_gen
        },
        !none_off,
        config@.get("disableLogFile"@) == Some(JsonView::Bool(b)) ==> off == b,
        config@.get("disableLogFile"@) is None ==> !off,
        axes.1 == off,
        axes.0 is Some <==> config@.text_at("logLevel"@) is Some,
        axes.0 is Some ==> Some(axes.0->0@) == config@.text_at("logLevel"@),
{
    assert(opt_view(axes.0) == (match axes.0 {
        Some(m) => Some(m@),
        None => None,
    }));
}

/// Only a number in brackets is a stamp: a line whose bracket holds no digit, or something else
/// behind its digits, or is not closed, is kept as it is.
pub proof fn law_a_bracket_without_a_number_is_kept(
    s: &str,
    r: String,
    i: int,
    digits: Seq<char>,
    rest: Seq<char>,
)
    requires
        call_ensures(strip_level_prefix, (s,), r),
        0 <= i < level_words().len(),
        forall|k: int| 0 <= k < digits.len() ==> '0' <= #[trigger] digits[k] <= '9',
        s@ == level_words()[i].push('[') + digits + rest,
        rest.len() > 0 ==> !('0' <= rest[0] <= '9') && (digits.len() == 0 || rest[0] != ']'),
    ensures
        r@ == s@,
{
    reveal_strlit("PANIC");
    reveal_strlit("FATAL");
    reveal_strlit("ERROR");
    reveal_strlit("WARN");
    reveal_strlit("INFO");
    reveal_strlit("DEBUG");
    reveal_strlit("TRACE");
    let t = s@;
    let word = level_words()[i];
    let w = word.len() as int;
    assert(t.subrange(0, w) =~= word);
    assert(begins_with(t, word));
    assert(t[0] == word[0]);
    assert(level_word_len(t) == w);
    let n = digits.len() as int;
    assert forall|k: int| 0 <= k < n implies t[w + 1 + k] == digits[k] by {}
    if exists|c: int| stamp_closes_at(t, c) {
        let c = choose|c: int| stamp_closes_at(t, c);
        if c < w + 1 + n {
            assert(t[c] == digits[c - w - 1]);
        } else if c == w + 1 + n {
            assert(t[c] == rest[0]);
        } else {
            assert(t[w + 1 + n] == rest[0]);
        }
    }
}

} // verus!
