//! Crash reports: how they are written, and what the last one says.
use vstd::prelude::*;

use crate::seqs;
use crate::text;
use crate::time;
use crate::time::LocalDateTime;

verus! {

/// What the user is told of the last crash.
#[derive(Debug, PartialEq, Eq)]
pub struct CrashNotice {
    pub path: String,
    pub fingerprint: String,
    pub summary: String,
}

/// The model of a crash notice.
#[verifier::ext_equal]
pub struct CrashNoticeModel {
    pub path: Seq<char>,
    pub fingerprint: Seq<char>,
    pub summary: Seq<char>,
}

impl DeepView for CrashNotice {
    type V = CrashNoticeModel;

    open spec fn deep_view(&self) -> CrashNoticeModel {
        CrashNoticeModel {
            path: self.path@,
            fingerprint: self.fingerprint@,
            summary: self.summary@,
        }
    }
}

impl Clone for CrashNotice {
    fn clone(&self) -> (copy: CrashNotice)
        ensures
            copy == *self,
    {
        CrashNotice {
            path: self.path.clone(),
            fingerprint: self.fingerprint.clone(),
            summary: self.summary.clone(),
        }
    }
}

/// What is known of a crash.
#[derive(Debug)]
pub struct CrashReport {
    pub occurred_at: LocalDateTime,
    pub thread_name: String,
    pub message: String,
    pub location: String,
    pub backtrace: String,
}

/// The model of a crash report.
#[verifier::ext_equal]
pub struct CrashReportModel {
    pub occurred_at: LocalDateTime,
    pub thread_name: Seq<char>,
    pub message: Seq<char>,
    pub location: Seq<char>,
    pub backtrace: Seq<char>,
}

impl DeepView for CrashReport {
    type V = CrashReportModel;

    open spec fn deep_view(&self) -> CrashReportModel {
        CrashReportModel {
            occurred_at: self.occurred_at,
            thread_name: self.thread_name@,
            message: self.message@,
            location: self.location@,
            backtrace: self.backtrace@,
        }
    }
}

/// What a report begins with.
pub const REPORT_MARK: &'static str = "=== crash ";

/// What a report says after its mark, for the text of the time.
pub open spec fn report_body(report: CrashReportModel, when: Seq<char>) -> Seq<char> {
    when + " ===\nthread: "@ + report.thread_name + "\npanic: "@ + report.message
        + "\nlocation: "@ + report.location + "\nbacktrace:\n"@ + report.backtrace + "\n\n"@
}

impl CrashReportModel {
    /// The text of the report.
    pub open spec fn written(self) -> Seq<char> {
        REPORT_MARK@ + report_body(self, self.occurred_at.rfc3339())
    }
}

/// The text of a report, as it is put at the end of the log.
pub fn crash_report_text(report: &CrashReport) -> (written: String)
    ensures
        written@ == report.deep_view().written(),
{
    let mut written = REPORT_MARK.to_owned();
    written.append(report.occurred_at.to_rfc3339().as_str());
    written.append(" ===\nthread: ");
    written.append(report.thread_name.as_str());
    written.append("\npanic: ");
    written.append(report.message.as_str());
    written.append("\nlocation: ");
    written.append(report.location.as_str());
    written.append("\nbacktrace:\n");
    written.append(report.backtrace.as_str());
    written.append("\n\n");
    assert(written@ =~= report.deep_view().written());
    written
}

/// The place of a crash: the file, the line and the column.
pub fn crash_location(place: Option<(String, u32, u32)>) -> (location: String)
    ensures
        location@ == match place {
            Some((file, line, column)) => file@ + ":"@ + text::decimal(line as nat) + ":"@
                + text::decimal(column as nat),
            None => "unknown"@,
        },
{
    match place {
        Some((file, line, column)) => {
            let mut location = file;
            location.append(":");
            text::push_decimal(&mut location, line as u128);
            location.append(":");
            text::push_decimal(&mut location, column as u128);
            location
        },
        None => "unknown".to_owned(),
    }
}

/// The name of the thread that crashed.
pub fn crash_thread_name(name: Option<String>) -> (shown: String)
    ensures
        shown@ == match name {
            Some(n) => n@,
            None => "unnamed"@,
        },
{
    match name {
        Some(name) => name,
        None => "unnamed".to_owned(),
    }
}

/// What a crash says, if it says anything.
pub fn panic_message(payload: Option<String>) -> (message: String)
    ensures
        message@ == match payload {
            Some(p) => p@,
            None => "panic payload was not a string"@,
        },
{
    match payload {
        Some(message) => message,
        None => "panic payload was not a string".to_owned(),
    }
}

/// Whether `at` is the last place at which `needle` stands in `s`.
pub open spec fn is_last_place(s: Seq<char>, needle: Seq<char>, at: int) -> bool {
    text::occurs_at(s, needle, at) && forall|later: int|
        at < later ==> !text::occurs_at(s, needle, later)
}

/// The last place at which `needle` stands in `s`, if it does.
pub open spec fn last_place(s: Seq<char>, needle: Seq<char>) -> Option<int> {
    if exists|at: int| is_last_place(s, needle, at) {
        Some(choose|at: int| is_last_place(s, needle, at))
    } else {
        None
    }
}

proof fn lemma_last_place_found(s: Seq<char>, needle: Seq<char>, at: int)
    requires
        is_last_place(s, needle, at),
    ensures
        last_place(s, needle) == Some(at),
{
    let k = choose|k: int| is_last_place(s, needle, k);
    assert(is_last_place(s, needle, k));
    assert(!(k < at) && !(at < k));
}

/// The last part of a log, between marks, that mentions a panic.
pub open spec fn latest_report(log: Seq<char>) -> Option<Seq<char>>
    decreases log.len(),
{
    match last_place(log, REPORT_MARK@) {
        Some(at) => if 0 <= at < log.len() {
            let section = log.skip(at + REPORT_MARK@.len());
            if text::occurs_in(section, "panic:"@) {
                Some(section)
            } else {
                latest_report(log.take(at))
            }
        } else {
            None
        },
        None => if text::occurs_in(log, "panic:"@) {
            Some(log)
        } else {
            None
        },
    }
}

/// What follows a prefix in the first line that begins with it.
pub open spec fn first_entry(report: Seq<char>, prefix: Seq<char>) -> Option<Seq<char>> {
    let lines = text::lines_of(report);
    match seqs::first_where(lines, |line: Seq<char>| text::begins_with(line, prefix)) {
        Some(i) => Some(lines[i].skip(prefix.len() as int)),
        None => None,
    }
}

/// What the last report of a log says in short.
pub open spec fn log_summary(log: Seq<char>) -> Option<Seq<char>> {
    match latest_report(log) {
        Some(report) => match first_entry(report, "panic: "@) {
            Some(panic) => Some(
                panic + " at "@ + match first_entry(report, "location: "@) {
                    Some(location) => location,
                    None => "unknown"@,
                },
            ),
            None => None,
        },
        None => None,
    }
}

/// The last place at which a text stands in another.
fn find_last(chars: &Vec<char>, needle: &Vec<char>) -> (found: Option<usize>)
    requires
        needle@.len() > 0,
    ensures
        match found {
            Some(at) => last_place(chars@, needle@) == Some(at as int) && at + needle@.len()
                <= chars@.len(),
            None => last_place(chars@, needle@) is None,
        },
{
    let mut at: usize = chars.len();
    while at > 0
        invariant
            at <= chars@.len(),
            needle@.len() > 0,
            forall|later: int| at <= later ==> !text::occurs_at(chars@, needle@, later),
        decreases at,
    {
        at = at - 1;
        if text::stands_at(chars, needle, at) {
            proof {
                assert(is_last_place(chars@, needle@, at as int));
                lemma_last_place_found(chars@, needle@, at as int);
            }
            return Some(at);
        }
    }
    assert forall|k: int| !is_last_place(chars@, needle@, k) by {
        if is_last_place(chars@, needle@, k) {
            assert(text::occurs_at(chars@, needle@, k));
        }
    }
    None
}

/// The last part of a log, between marks, that mentions a panic.
fn find_latest_report(log: &str) -> (found: Option<String>)
    ensures
        found.deep_view() == latest_report(log@),
{
    let mark = text::chars_of(REPORT_MARK);
    let chars = text::chars_of(log);
    proof {
        reveal_strlit("=== crash ");
    }
    let mut end: usize = chars.len();
    assert(chars@.take(end as int) =~= log@);
    loop
        invariant
            end <= chars@.len(),
            mark@ == REPORT_MARK@,
            mark@.len() == 10,
            latest_report(log@) == latest_report(chars@.take(end as int)),
        decreases end,
    {
        let part = text::text_of(&chars, 0, end);
        assert(part@ =~= chars@.take(end as int));
        let part_chars = text::chars_of(part.as_str());
        match find_last(&part_chars, &mark) {
            Some(at) => {
                let section = text::text_of(&part_chars, at + mark.len(), part_chars.len());
                assert(section@ =~= part@.skip(at + REPORT_MARK@.len()));
                if text::contains(section.as_str(), "panic:") {
                    return Some(section);
                }
                assert(part@.take(at as int) =~= chars@.take(at as int));
                end = at;
            },
            None => {
                if text::contains(part.as_str(), "panic:") {
                    return Some(part);
                }
                return None;
            },
        }
    }
}

/// What follows a prefix in the first line that begins with it.
fn find_entry(report: &str, prefix: &str) -> (found: Option<String>)
    ensures
        found.deep_view() == first_entry(report@, prefix@),
{
    let lines = text::lines(report);
    let ghost all = lines.deep_view();
    let ghost pred = |line: Seq<char>| text::begins_with(line, prefix@);
    let mut i: usize = 0;
    while i < lines.len()
        invariant
            i <= lines@.len(),
            all == lines.deep_view(),
            all == text::lines_of(report@),
            pred == (|line: Seq<char>| text::begins_with(line, prefix@)),
            forall|j: int| 0 <= j < i ==> !pred(#[trigger] all[j]),
        decreases lines@.len() - i,
    {
        assert(all[i as int] == lines@[i as int]@);
        match text::strip_prefix(lines[i].as_str(), prefix) {
            Some(rest) => {
                proof {
                    seqs::first_is_found(all, pred, i as int);
                }
                return Some(rest.to_owned());
            },
            None => {},
        }
        i = i + 1;
    }
    proof {
        seqs::first_is_found(all, pred, i as int);
    }
    None
}

/// What the last report of a log says in short.
pub fn latest_crash_summary(contents: &str) -> (summary: Option<String>)
    ensures
        summary.deep_view() == log_summary(contents@),
{
    let report = match find_latest_report(contents) {
        Some(report) => report,
        None => {
            return None;
        },
    };
    let mut summary = match find_entry(report.as_str(), "panic: ") {
        Some(panic) => panic,
        None => {
            return None;
        },
    };
    summary.append(" at ");
    match find_entry(report.as_str(), "location: ") {
        Some(location) => summary.append(location.as_str()),
        None => summary.append("unknown"),
    }
    Some(summary)
}

/// What tells one state of the log from another: its length and when it was changed.
pub open spec fn fingerprint_of(length: u64, modified_nanos: Option<u128>) -> Seq<char> {
    text::decimal(length as nat) + ":"@ + text::decimal(
        match modified_nanos {
            Some(n) => n as nat,
            None => 0,
        },
    )
}

/// What the user is told of the log, if it is not empty.
pub open spec fn notice_of(
    path: Seq<char>,
    length: u64,
    modified_nanos: Option<u128>,
    contents: Seq<char>,
) -> Option<CrashNoticeModel> {
    if length == 0 {
        None
    } else {
        Some(
            CrashNoticeModel {
                path,
                fingerprint: fingerprint_of(length, modified_nanos),
                summary: match log_summary(contents) {
                    Some(summary) => summary,
                    None => "panic recorded"@,
                },
            },
        )
    }
}

/// What the user is told of a log at a path, with its length in bytes and the nanoseconds from
/// the start of 1970 to its last change.
pub fn latest_crash_notice(
    path: &str,
    length: u64,
    modified_nanos: Option<u128>,
    contents: &str,
) -> (notice: Option<CrashNotice>)
    ensures
        notice.deep_view() == notice_of(path@, length, modified_nanos, contents@),
{
    if length == 0 {
        return None;
    }
    let summary = match latest_crash_summary(contents) {
        Some(summary) => summary,
        None => "panic recorded".to_owned(),
    };
    let mut fingerprint = text::decimal_text(length as u128);
    fingerprint.append(":");
    text::push_decimal(
        &mut fingerprint,
        match modified_nanos {
            Some(nanos) => nanos,
            None => 0,
        },
    );
    Some(CrashNotice { path: path.to_owned(), fingerprint, summary })
}

/// Whether a text stays on one line.
pub open spec fn single_line(s: Seq<char>) -> bool {
    forall|i: int| 0 <= i < s.len() ==> #[trigger] s[i] != '\n' && s[i] != '\r'
}

/// The mark does not begin again within itself.
proof fn lemma_mark_does_not_overlap(k: int)
    requires
        0 < k < REPORT_MARK@.len(),
    ensures
        REPORT_MARK@.len() == 10,
        REPORT_MARK@[0] == '=',
        REPORT_MARK@[1] == '=',
        REPORT_MARK@[2] == '=',
        REPORT_MARK@[k] != '=' || (k == 1 && REPORT_MARK@[3] != '=') || (k == 2
            && REPORT_MARK@[3] != '='),
{
    reveal_strlit("=== crash ");
}

proof fn lemma_no_later_mark(log: Seq<char>, mark: Seq<char>, body: Seq<char>, later: int)
    requires
        mark == REPORT_MARK@,
        mark.len() == 10,
        !text::occurs_in(body, mark),
        log.len() < later,
    ensures
        !text::occurs_at(log + mark + body, mark, later),
{
    let whole = log + mark + body;
    if text::occurs_at(whole, mark, later) {
        let part = whole.subrange(later, later + 10);
        assert(part == mark);
        let k = later - log.len();
        if k < 10 {
            lemma_mark_does_not_overlap(k);
            assert(part[0] == mark[k]);
            if k == 1 {
                assert(part[2] == mark[3]);
            }
            if k == 2 {
                assert(part[1] == mark[3]);
            }
        } else {
            assert(body.subrange(k - 10, k) =~= part);
            assert(text::occurs_at(body, mark, k - 10));
        }
    }
}

/// The mark stands in a log behind which a report was put last where that report begins.
proof fn lemma_mark_of_last_report(log: Seq<char>, body: Seq<char>)
    requires
        !text::occurs_in(body, REPORT_MARK@),
    ensures
        REPORT_MARK@.len() == 10,
        last_place(log + REPORT_MARK@ + body, REPORT_MARK@) == Some(log.len() as int),
{
    let mark = REPORT_MARK@;
    assert(mark.len() == 10) by {
        reveal_strlit("=== crash ");
    }
    let whole = log + mark + body;
    let at = log.len() as int;
    assert(whole.subrange(at, at + 10) =~= mark);
    assert forall|later: int| at < later implies !text::occurs_at(whole, mark, later) by {
        lemma_no_later_mark(log, mark, body, later);
    }
    assert(is_last_place(whole, mark, at));
    lemma_last_place_found(whole, mark, at);
}

proof fn lemma_line_stays(line: Seq<char>, rest: Seq<char>)
    requires
        single_line(line),
    ensures
        text::pieces(line.push('\n') + rest, seq!['\n']) == seq![line] + text::pieces(
            rest,
            seq!['\n'],
        ),
        text::without_carriage_return(line) == line,
{
    let separators = seq!['\n'];
    assert(separators[0] == '\n');
    text::pieces_around(line, '\n', rest, separators);
    assert forall|i: int| 0 <= i < line.len() implies !separators.contains(#[trigger] line[i]) by {
    }
    text::pieces_of_one(line, separators);
}

/// The lines of a report, up to the backtrace.
proof fn lemma_report_lines(report: CrashReportModel, when: Seq<char>)
    requires
        single_line(when),
        single_line(report.thread_name),
        single_line(report.message),
        single_line(report.location),
    ensures
        text::lines_of(report_body(report, when)).len() >= 4,
        text::lines_of(report_body(report, when))[0] == when + " ==="@,
        text::lines_of(report_body(report, when))[1] == "thread: "@ + report.thread_name,
        text::lines_of(report_body(report, when))[2] == "panic: "@ + report.message,
        text::lines_of(report_body(report, when))[3] == "location: "@ + report.location,
{
    reveal_strlit(" ===");
    reveal_strlit(" ===\nthread: ");
    reveal_strlit("thread: ");
    reveal_strlit("\npanic: ");
    reveal_strlit("panic: ");
    reveal_strlit("\nlocation: ");
    reveal_strlit("location: ");
    reveal_strlit("\nbacktrace:\n");
    reveal_strlit("backtrace:\n");
    let l0 = when + " ==="@;
    let l1 = "thread: "@ + report.thread_name;
    let l2 = "panic: "@ + report.message;
    let l3 = "location: "@ + report.location;
    let tail = "backtrace:\n"@ + report.backtrace + "\n\n"@;
    let t3 = l3.push('\n') + tail;
    let t2 = l2.push('\n') + t3;
    let t1 = l1.push('\n') + t2;
    let body = report_body(report, when);
    assert(" ===\nthread: "@ =~= " ==="@.push('\n') + "thread: "@);
    assert("\npanic: "@ =~= seq!['\n'] + "panic: "@);
    assert("\nlocation: "@ =~= seq!['\n'] + "location: "@);
    assert("\nbacktrace:\n"@ =~= seq!['\n'] + "backtrace:\n"@);
    assert(body =~= l0.push('\n') + t1);
    lemma_line_stays(l0, t1);
    lemma_line_stays(l1, t2);
    lemma_line_stays(l2, t3);
    lemma_line_stays(l3, tail);
    text::pieces_are_some(tail, seq!['\n']);
    let parts = text::pieces(body, seq!['\n']);
    let last = text::pieces(tail, seq!['\n']);
    assert(parts =~= seq![l0] + (seq![l1] + (seq![l2] + (seq![l3] + last))));
    assert(parts[0] == l0 && parts[1] == l1 && parts[2] == l2 && parts[3] == l3);
    assert(parts.len() >= 5);
    let ended = parts.drop_last().map_values(
        |line: Seq<char>| text::without_carriage_return(line),
    );
    assert(ended[0] == l0 && ended[1] == l1 && ended[2] == l2 && ended[3] == l3);
}

/// The entries of a report are its message and its place.
proof fn lemma_report_entries(report: CrashReportModel, when: Seq<char>)
    requires
        time::looks_like_rfc3339(when),
        single_line(report.thread_name),
        single_line(report.message),
        single_line(report.location),
    ensures
        first_entry(report_body(report, when), "panic: "@) == Some(report.message),
        first_entry(report_body(report, when), "location: "@) == Some(report.location),
{
    assert forall|i: int| 0 <= i < when.len() implies #[trigger] when[i] != '\n' && when[i] != '\r' by {
        assert(text::is_digit(when[i]) || when[i] == '+' || when[i] == '-' || when[i] == ':'
            || when[i] == '.' || when[i] == 'T');
    }
    lemma_report_lines(report, when);
    let lines = text::lines_of(report_body(report, when));
    reveal_strlit("panic: ");
    reveal_strlit("location: ");
    reveal_strlit("thread: ");
    let panics = |line: Seq<char>| text::begins_with(line, "panic: "@);
    let locations = |line: Seq<char>| text::begins_with(line, "location: "@);
    lemma_other_beginning(lines[0], "panic: "@);
    lemma_other_beginning(lines[1], "panic: "@);
    lemma_other_beginning(lines[0], "location: "@);
    lemma_other_beginning(lines[1], "location: "@);
    lemma_other_beginning(lines[2], "location: "@);
    assert(lines[2].subrange(0, 7) =~= "panic: "@);
    assert(lines[3].subrange(0, 10) =~= "location: "@);
    seqs::first_is_found(lines, panics, 2);
    seqs::first_is_found(lines, locations, 3);
    assert(lines[2].skip(7) =~= report.message);
    assert(lines[3].skip(10) =~= report.location);
}

proof fn lemma_report_mentions_panic(report: CrashReportModel, when: Seq<char>)
    ensures
        text::occurs_in(report_body(report, when), "panic:"@),
{
    let body = report_body(report, when);
    let before = when + " ===\nthread: "@ + report.thread_name;
    let after = report.message + "\nlocation: "@ + report.location + "\nbacktrace:\n"@
        + report.backtrace + "\n\n"@;
    let at = before.len() as int + 1;
    assert(body =~= before + "\npanic: "@ + after);
    assert(body.subrange(at, at + "panic:"@.len()) =~= "panic:"@) by {
        reveal_strlit("\npanic: ");
        reveal_strlit("panic:");
    }
    assert(at + "panic:"@.len() <= body.len()) by {
        reveal_strlit("\npanic: ");
        reveal_strlit("panic:");
    }
    assert(text::occurs_at(body, "panic:"@, at));
}

/// A report that was put at the end of a log is the one that the log is summed up by, with its
/// message and its place, if these stay on one line and nothing in the report looks like the
/// beginning of another report.
pub proof fn last_report_sums_up_the_log(log: Seq<char>, report: CrashReportModel)
    requires
        time::looks_like_rfc3339(report.occurred_at.rfc3339()),
        single_line(report.thread_name),
        single_line(report.message),
        single_line(report.location),
        !text::occurs_in(report_body(report, report.occurred_at.rfc3339()), REPORT_MARK@),
    ensures
        log_summary(log + report.written()) == Some(report.message + " at "@ + report.location),
{
    let when = report.occurred_at.rfc3339();
    let body = report_body(report, when);
    let whole = log + report.written();
    assert(whole =~= log + REPORT_MARK@ + body);
    lemma_mark_of_last_report(log, body);
    assert(whole.skip(log.len() as int + REPORT_MARK@.len()) =~= body);
    lemma_report_mentions_panic(report, when);
    assert(latest_report(whole) == Some(body));
    lemma_report_entries(report, when);
}

/// A text that begins with another character does not begin with a prefix.
proof fn lemma_other_beginning(line: Seq<char>, prefix: Seq<char>)
    requires
        line.len() > 0,
        prefix.len() > 0,
        line[0] != prefix[0],
    ensures
        !text::begins_with(line, prefix),
{
    if text::begins_with(line, prefix) {
        assert(line.subrange(0, prefix.len() as int)[0] == prefix[0]);
    }
}

/// A log that changed its length or was changed at another time has another fingerprint.
pub proof fn fingerprints_tell_logs_apart(
    length: u64,
    nanos: u128,
    other_length: u64,
    other_nanos: u128,
)
    requires
        fingerprint_of(length, Some(nanos)) == fingerprint_of(other_length, Some(other_nanos)),
    ensures
        length == other_length,
        nanos == other_nanos,
{
    let a = text::decimal(length as nat);
    let b = text::decimal(nanos as nat);
    let c = text::decimal(other_length as nat);
    let d = text::decimal(other_nanos as nat);
    let x = fingerprint_of(length, Some(nanos));
    let y = fingerprint_of(other_length, Some(other_nanos));
    reveal_strlit(":");
    text::decimal_reads_back(length as nat);
    text::decimal_reads_back(nanos as nat);
    text::decimal_reads_back(other_length as nat);
    text::decimal_reads_back(other_nanos as nat);
    assert(x[a.len() as int] == ':');
    assert(y[c.len() as int] == ':');
    if a.len() < c.len() {
        assert(y[a.len() as int] == c[a.len() as int]);
        assert(text::is_digit(c[a.len() as int]));
    } else if c.len() < a.len() {
        assert(x[c.len() as int] == a[c.len() as int]);
        assert(text::is_digit(a[c.len() as int]));
    }
    assert(x.take(a.len() as int) =~= a);
    assert(y.take(c.len() as int) =~= c);
    assert(x.skip(a.len() as int + 1) =~= b);
    assert(y.skip(c.len() as int + 1) =~= d);
}

/// A log that is not empty is told of with the place where it lies and with what the last report
/// in it says; an empty one is not. The same log has the same fingerprint wherever it lies.
pub proof fn crash_log_is_told_of(
    path: Seq<char>,
    other_path: Seq<char>,
    length: u64,
    modified_nanos: Option<u128>,
    log: Seq<char>,
    report: CrashReportModel,
)
    requires
        time::looks_like_rfc3339(report.occurred_at.rfc3339()),
        single_line(report.thread_name),
        single_line(report.message),
        single_line(report.location),
        !text::occurs_in(report_body(report, report.occurred_at.rfc3339()), REPORT_MARK@),
    ensures
        notice_of(path, 0, modified_nanos, log) is None,
        length > 0 ==> ({
            let notice = notice_of(path, length, modified_nanos, log + report.written());
            let other = notice_of(other_path, length, modified_nanos, log);
            &&& notice is Some
            &&& notice->0.path == path
            &&& notice->0.summary == report.message + " at "@ + report.location
            &&& other is Some
            &&& other->0.fingerprint == notice->0.fingerprint
        }),
{
    last_report_sums_up_the_log(log, report);
}

} // verus!
