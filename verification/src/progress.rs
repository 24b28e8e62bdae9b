//! Following a run through its logs.

use vstd::prelude::*;
use vstd::string::*;
use crate::paths::{file_name, parent};
use crate::paths;
use crate::text::{
    chars_of, contains, find_in, parse_unsigned, split_lines, split_words, string_of,
};
use crate::text;

verus! {

/// What follows the first `p` in `s`.
pub open spec fn behind(s: Seq<char>, p: Seq<char>) -> Option<Seq<char>>
    decreases s.len(),
{
    if text::has_prefix(s, p) {
        Some(s.skip(p.len() as int))
    } else if s.len() == 0 {
        None
    } else {
        behind(s.skip(1), p)
    }
}

proof fn lemma_behind(s: Seq<char>, p: Seq<char>, i: int)
    requires
        text::first_at(s, p, i),
    ensures
        behind(s, p) == Some(s.skip(i + p.len())),
    decreases i,
{
    assert(s.skip(0) =~= s);
    if i > 0 {
        let t = s.skip(1);
        assert(!text::has_prefix(s.skip(0), p));
        assert(t.skip(i - 1) =~= s.skip(i));
        assert forall|j: int| 0 <= j < i - 1 implies !text::has_prefix(#[trigger] t.skip(j), p) by {
            assert(t.skip(j) =~= s.skip(j + 1));
        }
        lemma_behind(t, p, i - 1);
        assert(t.skip(i - 1 + p.len()) =~= s.skip(i + p.len()));
    }
}

proof fn lemma_nothing_behind(s: Seq<char>, p: Seq<char>)
    requires
        !text::occurs_in(p, s),
    ensures
        behind(s, p) is None,
    decreases s.len(),
{
    assert(s.skip(0) =~= s);
    assert(!text::has_prefix(s.skip(0), p));
    if s.len() > 0 {
        let t = s.skip(1);
        assert forall|i: int| 0 <= i <= t.len() implies !text::has_prefix(#[trigger] t.skip(i), p) by {
            assert(t.skip(i) =~= s.skip(i + 1));
        }
        lemma_nothing_behind(t, p);
    }
}

/// The number behind the first `field=` in a line.
pub open spec fn field_number(line: Seq<char>, field: Seq<char>) -> Option<u64> {
    match behind(line, field + "="@) {
        None => None,
        Some(rest) => {
            let w = text::words(rest);
            if w.len() == 0 {
                None
            } else {
                match text::unsigned_of(w[0], u64::MAX as nat) {
                    Some(n) => Some(n as u64),
                    None => None,
                }
            }
        },
    }
}

/// The number behind the first `field=` in a line.
pub fn parse_u64_field(line: &str, field: &str) -> (r: Option<u64>)
    ensures
        r == field_number(line@, field@),
{
    let v = chars_of(line);
    let mut key = field.to_owned();
    key.append("=");
    let k = chars_of(key.as_str());
    match find_in(&v, &k) {
        None => {
            proof {
                lemma_nothing_behind(line@, key@);
            }
            None
        },
        Some(i) => {
            proof {
                lemma_behind(line@, key@, i as int);
                assert(line@.skip(i as int).len() == line@.len() - i);
            }
            let n: usize = v.len();
            let m: usize = k.len();
            let rest = string_of(&v, i + m, n);
            assert(rest@ =~= line@.skip(i + m));
            let w = split_words(rest.as_str());
            let ghost words = text::words(rest@);
            assert(text::texts(w@) == words);
            if w.len() == 0 {
                None
            } else {
                assert(words[0] == w@[0]@);
                match parse_unsigned(w[0].as_str(), u64::MAX as u128) {
                    Some(n) => Some(n as u64),
                    None => None,
                }
            }
        },
    }
}

/// What a log tells of a dataset.
#[derive(Debug, Clone, Copy)]
pub struct LogTally {
    pub scanned: u64,
    pub todo: u64,
    pub converted: u64,
    pub ok: u64,
    pub failed: u64,
    pub skipped: u64,
    pub done: bool,
    pub errored: bool,
}

/// What a log tells before its first line.
pub open spec fn empty_tally() -> LogTally {
    LogTally {
        scanned: 0,
        todo: 0,
        converted: 0,
        ok: 0,
        failed: 0,
        skipped: 0,
        done: false,
        errored: false,
    }
}

pub open spec fn or_was(n: Option<u64>, was: u64) -> u64 {
    match n {
        Some(v) => v,
        None => was,
    }
}

/// Whether a line tells that a file is done.
pub open spec fn tells_file_done(line: Seq<char>) -> bool {
    text::occurs_in(" converted "@, line) || text::occurs_in(" indexed "@, line) || text::occurs_in(
        " verified "@,
        line,
    )
}

/// Whether a line tells that there was nothing to do.
pub open spec fn tells_nothing_to_do(line: Seq<char>) -> bool {
    text::occurs_in("all files already converted"@, line) || text::occurs_in(
        "all files already indexed"@,
        line,
    ) || text::occurs_in("all files already verified"@, line)
}

/// The counts that a line tells, and the file that it tells of.
pub open spec fn after_counts(t: LogTally, line: Seq<char>) -> LogTally {
    LogTally {
        scanned: or_was(field_number(line, "source_files"@), t.scanned),
        todo: or_was(field_number(line, "todo_files"@), t.todo),
        converted: if tells_file_done(line) {
            (t.converted + 1) as u64
        } else {
            t.converted
        },
        ..t
    }
}

/// The line with which a stage ends.
pub open spec fn after_summary(t: LogTally, line: Seq<char>) -> LogTally {
    if text::occurs_in(" summary "@, line) {
        let failed = or_was(field_number(line, "failed"@), t.failed);
        LogTally {
            ok: or_was(field_number(line, "ok"@), t.ok),
            failed,
            scanned: or_was(field_number(line, "scanned"@), t.scanned),
            errored: t.errored || failed > 0,
            done: true,
            ..t
        }
    } else {
        t
    }
}

/// The line of a stage with nothing to do: all that was scanned is skipped.
pub open spec fn after_skip(t: LogTally, line: Seq<char>) -> LogTally {
    if tells_nothing_to_do(line) {
        LogTally { done: true, skipped: t.scanned, ..t }
    } else {
        t
    }
}

/// What a log tells after one line more.
pub open spec fn after_line(t: LogTally, line: Seq<char>) -> LogTally {
    after_skip(after_summary(after_counts(t, line), line), line)
}

/// What the lines of a log tell.
pub open spec fn told_by(lines: Seq<Seq<char>>) -> LogTally
    decreases lines.len(),
{
    if lines.len() == 0 {
        empty_tally()
    } else {
        after_line(told_by(lines.drop_last()), lines.last())
    }
}

impl LogTally {
    /// Reads one line more.
    pub fn read_line(&mut self, line: &str)
        requires
            old(self).converted < u64::MAX,
        ensures
            *final(self) == after_line(*old(self), line@),
    {
        if let Some(v) = parse_u64_field(line, "source_files") {
            self.scanned = v;
        }
        if let Some(v) = parse_u64_field(line, "todo_files") {
            self.todo = v;
        }
        if contains(line, " converted ") || contains(line, " indexed ") || contains(
            line,
            " verified ",
        ) {
            self.converted = self.converted + 1;
        }
        if contains(line, " summary ") {
            if let Some(v) = parse_u64_field(line, "ok") {
                self.ok = v;
            }
            if let Some(v) = parse_u64_field(line, "failed") {
                self.failed = v;
            }
            if let Some(v) = parse_u64_field(line, "scanned") {
                self.scanned = v;
            }
            if self.failed > 0 {
                self.errored = true;
            }
            self.done = true;
        }
        if contains(line, "all files already converted") || contains(
            line,
            "all files already indexed",
        ) || contains(line, "all files already verified") {
            self.done = true;
            self.skipped = self.scanned;
        }
    }
}

/// Where the work on a dataset stands.
#[derive(Debug, Clone, Copy, PartialEq, Eq, Structural)]
pub enum LiveState {
    Pending,
    InProgress,
    Done,
    Error,
}

/// Where the work on a dataset stands, by what its log tells.
pub open spec fn state_of(t: LogTally) -> LiveState {
    if t.errored {
        LiveState::Error
    } else if t.done {
        LiveState::Done
    } else if t.scanned > 0 || t.converted > 0 {
        LiveState::InProgress
    } else {
        LiveState::Pending
    }
}

pub open spec fn state_word(s: LiveState) -> Seq<char> {
    match s {
        LiveState::Pending => "pending"@,
        LiveState::InProgress => "in-progress"@,
        LiveState::Done => "done"@,
        LiveState::Error => "error"@,
    }
}

impl LiveState {
    /// The state in a word.
    pub fn word(self) -> (r: String)
        ensures
            r@ == state_word(self),
    {
        match self {
            LiveState::Pending => "pending".to_owned(),
            LiveState::InProgress => "in-progress".to_owned(),
            LiveState::Done => "done".to_owned(),
            LiveState::Error => "error".to_owned(),
        }
    }
}

/// How far the work on a dataset has come.
#[derive(Debug)]
pub struct LiveDatasetStatus {
    pub dataset: String,
    pub state: LiveState,
    pub tally: LogTally,
    pub last_log: String,
}

/// The last of the lines.
pub open spec fn last_line(lines: Seq<Seq<char>>) -> Seq<char> {
    if lines.len() == 0 {
        Seq::empty()
    } else {
        lines.last()
    }
}

/// How far the work on a dataset has come, by its log; it is missing where the
/// work has not begun.
pub fn live_dataset_status(dataset: &str, log: Option<&str>) -> (r: LiveDatasetStatus)
    ensures
        r.dataset@ == dataset@,
        ({
            let lines = match log {
                Some(s) => text::lines(s@),
                None => Seq::empty(),
            };
            &&& r.tally == told_by(lines)
            &&& r.state == state_of(told_by(lines))
            &&& r.last_log@ == last_line(lines)
        }),
{
    let lines: Vec<String> = match log {
        Some(s) => split_lines(s),
        None => Vec::new(),
    };
    let ghost all = match log {
        Some(s) => text::lines(s@),
        None => Seq::empty(),
    };
    assert(text::texts(lines@) =~= all);
    let mut t = LogTally {
        scanned: 0,
        todo: 0,
        converted: 0,
        ok: 0,
        failed: 0,
        skipped: 0,
        done: false,
        errored: false,
    };
    let mut i: usize = 0;
    assert(all.take(0) =~= Seq::<Seq<char>>::empty());
    while i < lines.len()
        invariant
            i <= lines@.len(),
            text::texts(lines@) == all,
            t == told_by(all.take(i as int)),
            t.converted <= i,
        decreases lines@.len() - i,
    {
        proof {
            assert(all.take(i + 1).drop_last() =~= all.take(i as int));
            assert(all.take(i + 1).last() == lines@[i as int]@);
        }
        t.read_line(lines[i].as_str());
        i += 1;
    }
    assert(all.take(i as int) =~= all);
    let state = if t.errored {
        LiveState::Error
    } else if t.done {
        LiveState::Done
    } else if t.scanned > 0 || t.converted > 0 {
        LiveState::InProgress
    } else {
        LiveState::Pending
    };
    let last_log = if lines.len() == 0 {
        String::new()
    } else {
        assert(all.last() == lines@[lines@.len() - 1]@);
        lines[lines.len() - 1].clone()
    };
    assert(last_log@ =~= last_line(all));
    LiveDatasetStatus { dataset: dataset.to_owned(), state, tally: t, last_log }
}

/// The dataset that a log speaks of: the directory two above it.
pub open spec fn log_dataset(log_path: Seq<char>) -> Seq<char> {
    match paths::parent_of(log_path) {
        Some(p) => match paths::parent_of(p) {
            Some(q) => paths::file_name_of(q).unwrap_or(Seq::empty()),
            None => Seq::empty(),
        },
        None => Seq::empty(),
    }
}

/// The dataset that a log speaks of.
pub fn dataset_of_log(log_path: &str) -> (r: String)
    ensures
        r@ == log_dataset(log_path@),
{
    match parent(log_path) {
        Some(p) => match parent(p.as_str()) {
            Some(q) => match file_name(q.as_str()) {
                Some(n) => n,
                None => String::new(),
            },
            None => String::new(),
        },
        None => String::new(),
    }
}

/// A stage that failed is never shown as done, however its log goes on.
pub proof fn law_errors_stay(lines: Seq<Seq<char>>, more: Seq<Seq<char>>)
    requires
        state_of(told_by(lines)) == LiveState::Error,
    ensures
        state_of(told_by(lines + more)) == LiveState::Error,
    decreases more.len(),
{
    if more.len() == 0 {
        assert(lines + more =~= lines);
    } else {
        law_errors_stay(lines, more.drop_last());
        assert((lines + more).drop_last() =~= lines + more.drop_last());
    }
}

/// A number that a line gives for a field, as `field=number`, is the number that is
/// read, up to the next space.
pub proof fn law_fields_of_a_line(before: Seq<char>, field: Seq<char>, n: u64, after: Seq<char>)
    requires
        after.len() > 0 ==> after[0] == ' ',
        forall|i: int|
            0 <= i < before.len() ==> !text::has_prefix(
                #[trigger] (before + field + "="@ + text::decimal(n as nat) + after).skip(i),
                field + "="@,
            ),
    ensures
        field_number(before + field + "="@ + text::decimal(n as nat) + after, field) == Some(n),
{
    reveal_strlit("=");
    let p = field + "="@;
    let d = text::decimal(n as nat);
    let line = before + field + "="@ + d + after;
    let k = before.len() as int;
    assert(line.skip(k) =~= p + d + after);
    assert((p + d + after).take(p.len() as int) =~= p);
    lemma_behind(line, p, k);
    let rest = line.skip(k + p.len());
    assert(rest =~= d + after);
    text::law_decimal_round_trip(n as nat);
    text::law_unsigned_reading(d, u64::MAX as nat);
    lemma_first_word(d, after);
}

proof fn lemma_first_word(d: Seq<char>, after: Seq<char>)
    requires
        text::is_decimal(d),
        after.len() > 0 ==> after[0] == ' ',
    ensures
        text::words(d + after).len() > 0,
        text::words(d + after)[0] == d,
    decreases after.len(),
{
    assert(text::is_digit(d[0]));
    assert forall|i: int| 0 <= i < d.len() implies !text::is_space(#[trigger] d[i]) by {
        assert(text::is_digit(d[i]));
    }
    assert(text::is_space(' '));
    if after.len() == 0 {
        assert(d + after =~= d);
        text::law_words(Seq::empty(), ' ', d);
    } else {
        let s = d + after;
        let a = after.drop_last();
        assert(s.drop_last() =~= d + a);
        if after.len() == 1 {
            assert(a =~= Seq::<char>::empty());
            lemma_first_word(d, a);
        } else {
            assert(a[0] == after[0]);
            lemma_first_word(d, a);
            let c = s.last();
            assert(s[s.len() - 2] == (d + a).last());
            if !text::is_space(c) && !text::is_space(s[s.len() - 2]) {
                lemma_second_word(d, a);
            }
        }
    }
}

/// Behind a space stands another word.
proof fn lemma_second_word(d: Seq<char>, a: Seq<char>)
    requires
        text::is_decimal(d),
        a.len() > 0,
        a[0] == ' ',
        !text::is_space(a.last()),
    ensures
        text::words(d + a).len() > 1,
    decreases a.len(),
{
    let b = a.drop_last();
    assert((d + a).drop_last() =~= d + b);
    assert((d + a).last() == a.last());
    assert(text::is_space(' '));
    assert(b.len() > 0);
    assert(b[0] == ' ');
    assert((d + a)[(d + a).len() - 2] == b.last());
    if text::is_space(b.last()) {
        lemma_first_word(d, b);
    } else {
        lemma_second_word(d, b);
    }
}

/// A line that tells of a file, and neither of the end nor of nothing to do, counts
/// that file; any other such line changes no more than the two numbers it may give.
pub proof fn law_lines_on_files(t: LogTally, line: Seq<char>)
    requires
        t.converted < u64::MAX,
        !text::occurs_in(" summary "@, line),
        !text::occurs_in("all files already converted"@, line),
        !text::occurs_in("all files already indexed"@, line),
        !text::occurs_in("all files already verified"@, line),
    ensures
        ({
            let u = after_line(t, line);
            &&& u.ok == t.ok && u.failed == t.failed && u.skipped == t.skipped && u.done == t.done
                && u.errored == t.errored
            &&& text::occurs_in(" converted "@, line) || text::occurs_in(" indexed "@, line)
                || text::occurs_in(" verified "@, line) ==> u.converted == t.converted + 1
            &&& !text::occurs_in(" converted "@, line) && !text::occurs_in(" indexed "@, line)
                && !text::occurs_in(" verified "@, line) ==> u.converted == t.converted
            &&& field_number(line, "source_files"@) matches Some(n) ==> u.scanned == n
            &&& field_number(line, "source_files"@) is None ==> u.scanned == t.scanned
            &&& field_number(line, "todo_files"@) matches Some(n) ==> u.todo == n
            &&& field_number(line, "todo_files"@) is None ==> u.todo == t.todo
        }),
{
}

/// A line that sums up ends a run: it gives what went well and what failed, and the run
/// is in error where anything failed.
pub proof fn law_lines_that_sum_up(t: LogTally, line: Seq<char>, ok: u64, failed: u64)
    requires
        text::occurs_in(" summary "@, line),
        !text::occurs_in("all files already converted"@, line),
        !text::occurs_in("all files already indexed"@, line),
        !text::occurs_in("all files already verified"@, line),
        field_number(line, "ok"@) == Some(ok),
        field_number(line, "failed"@) == Some(failed),
    ensures
        after_line(t, line).done,
        after_line(t, line).ok == ok,
        after_line(t, line).failed == failed,
        after_line(t, line).skipped == t.skipped,
        after_line(t, line).errored <==> t.errored || failed > 0,
        field_number(line, "scanned"@) matches Some(n) ==> after_line(t, line).scanned == n,
        state_of(after_line(t, line)) == LiveState::Error <==> t.errored || failed > 0,
        state_of(after_line(t, line)) == LiveState::Done <==> !t.errored && failed == 0,
{
}

/// A line that says that nothing is to do ends a run: all that was scanned is skipped.
pub proof fn law_lines_on_nothing_to_do(t: LogTally, line: Seq<char>)
    requires
        text::occurs_in("all files already converted"@, line) || text::occurs_in(
            "all files already indexed"@,
            line,
        ) || text::occurs_in("all files already verified"@, line),
    ensures
        after_line(t, line).done,
        after_line(t, line).skipped == after_line(t, line).scanned,
{
}

/// A run that has told nothing is pending; one that has told of files is under way; an
/// end is an end, and an error outlasts it.
pub proof fn law_states(t: LogTally)
    ensures
        state_of(told_by(Seq::empty())) == LiveState::Pending,
        state_of(t) == LiveState::Error <==> t.errored,
        state_of(t) == LiveState::Done <==> t.done && !t.errored,
        state_of(t) == LiveState::InProgress <==> !t.done && !t.errored && (t.scanned > 0
            || t.converted > 0),
        state_of(t) == LiveState::Pending <==> !t.done && !t.errored && t.scanned == 0
            && t.converted == 0,
        state_word(LiveState::Pending) == "pending"@,
        state_word(LiveState::InProgress) == "in-progress"@,
        state_word(LiveState::Done) == "done"@,
        state_word(LiveState::Error) == "error"@,
{
}

/// What a log tells is what its lines tell one after the other.
pub proof fn law_lines_are_told_in_order(lines: Seq<Seq<char>>, line: Seq<char>)
    ensures
        told_by(lines.push(line)) == after_line(told_by(lines), line),
{
    assert(lines.push(line).drop_last() =~= lines);
}

/// The dataset of a log is the one whose directory the log stands in.
pub proof fn law_dataset_of_a_log(parquet_dir: Seq<char>, dataset: Seq<char>, command: Seq<char>)
    requires
        paths::is_component(dataset),
        paths::is_component(command + ".log"@),
        paths::is_tidy(crate::layout::metadata_root_of(parquet_dir)),
    ensures
        log_dataset(crate::layout::dataset_log_path_of(parquet_dir, dataset, command)) == dataset,
{
    reveal_strlit("convert");
    reveal_strlit("conversion-verify");
    reveal_strlit("index");
    reveal_strlit("index-verify");
    let (one, two) = (seq!['.'], seq!['.', '.']);
    assert(one.len() == 1 && two.len() == 2);
    assert("convert"@.len() == 7 && "conversion-verify"@.len() == 17);
    assert("index"@.len() == 5 && "index-verify"@.len() == 12);
    assert(!"convert"@.contains('/'));
    assert(!"conversion-verify"@.contains('/'));
    assert(!"index"@.contains('/'));
    assert(!"index-verify"@.contains('/'));
    let dir = crate::layout::dataset_metadata_dir_of(parquet_dir, dataset);
    paths::lemma_joined_is_tidy(crate::layout::metadata_root_of(parquet_dir), dataset);
    paths::law_parent_and_file_name_of_a_joined_path(
        crate::layout::metadata_root_of(parquet_dir),
        dataset,
    );
    lemma_log_in_a_step(dir, "convert"@, command + ".log"@);
    lemma_log_in_a_step(dir, "conversion-verify"@, command + ".log"@);
    lemma_log_in_a_step(dir, "index"@, command + ".log"@);
    lemma_log_in_a_step(dir, "index-verify"@, command + ".log"@);
}

proof fn lemma_log_in_a_step(dir: Seq<char>, step: Seq<char>, name: Seq<char>)
    requires
        paths::is_tidy(dir),
        paths::is_component(step),
        paths::is_component(name),
    ensures
        paths::parent_of(paths::join_of(paths::join_of(dir, step), name)) == Some(
            paths::join_of(dir, step),
        ),
        paths::parent_of(paths::join_of(dir, step)) == Some(dir),
{
    paths::lemma_joined_is_tidy(dir, step);
    paths::law_parent_and_file_name_of_a_joined_path(paths::join_of(dir, step), name);
    paths::law_parent_and_file_name_of_a_joined_path(dir, step);
}
/// A line that sums up changes no number that it does not give.
pub proof fn law_numbers_not_given_stay(t: LogTally, line: Seq<char>)
    requires
        text::occurs_in(" summary "@, line),
        !text::occurs_in("all files already converted"@, line),
        !text::occurs_in("all files already indexed"@, line),
        !text::occurs_in("all files already verified"@, line),
    ensures
        field_number(line, "ok"@) is None ==> after_line(t, line).ok == t.ok,
        field_number(line, "failed"@) is None ==> after_line(t, line).failed == t.failed,
        field_number(line, "scanned"@) is None && field_number(line, "source_files"@) is None
            ==> after_line(t, line).scanned == t.scanned,
        field_number(line, "todo_files"@) is None ==> after_line(t, line).todo == t.todo,
        after_line(t, line).skipped == t.skipped,
{
}
} // verus!
