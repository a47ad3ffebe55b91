//! What holds of every log of a session: a running turn is in no error, and what is added to a log
//! decides over what was there.

use crate::json::JsonView;
use crate::moment::Moment;
use crate::rollout;
use crate::rollout::TurnView;
use crate::sessions::ErrorView;
use crate::text;
use vstd::prelude::*;

verus! {

// ---------------------------------------------------------------------------
// Lines
// ---------------------------------------------------------------------------

proof fn lemma_trimmed_concat(lines: Seq<Seq<char>>, more: Seq<Seq<char>>)
    ensures
        rollout::trimmed_lines(lines + more) == rollout::trimmed_lines(lines)
            + rollout::trimmed_lines(more),
{
    assert(rollout::trimmed_lines(lines + more) =~= rollout::trimmed_lines(lines)
        + rollout::trimmed_lines(more));
}

proof fn lemma_newest_concat(lines: Seq<Seq<char>>, more: Seq<Seq<char>>)
    ensures
        rollout::newest_event(lines + more) == match rollout::newest_event(more) {
            Some(event) => Some(event),
            None => rollout::newest_event(lines),
        },
    decreases more.len(),
{
    if more.len() == 0 {
        assert(lines + more =~= lines);
    } else {
        assert((lines + more).drop_last() =~= lines + more.drop_last());
        lemma_newest_concat(lines, more.drop_last());
    }
}

/// The newest event of a turn in the lines, without the blanks at their ends.
pub open spec fn newest_in(lines: Seq<Seq<char>>) -> Option<TurnView> {
    rollout::newest_event(rollout::trimmed_lines(lines))
}

proof fn lemma_newest_in_concat(lines: Seq<Seq<char>>, more: Seq<Seq<char>>)
    ensures
        newest_in(lines + more) == (if newest_in(more) is Some {
            newest_in(more)
        } else {
            newest_in(lines)
        }),
{
    lemma_trimmed_concat(lines, more);
    lemma_newest_concat(rollout::trimmed_lines(lines), rollout::trimmed_lines(more));
}

/// When lines are added to a log, they alone decide if they tell of the start or the end of a
/// turn. If they tell of neither, they change nothing.
pub proof fn added_lines_decide(
    lines: Seq<Seq<char>>,
    more: Seq<Seq<char>>,
    session_id: Seq<char>,
    now: Moment,
)
    ensures
        rollout::error_in_lines(lines + more, session_id, now) == (if newest_in(more) is Some {
            rollout::error_in_lines(more, session_id, now)
        } else {
            rollout::error_in_lines(lines, session_id, now)
        }),
{
    lemma_newest_in_concat(lines, more);
}

/// Once a turn has started, the session is in no error, whatever came before.
pub proof fn started_turn_has_no_error(
    lines: Seq<Seq<char>>,
    more: Seq<Seq<char>>,
    session_id: Seq<char>,
    now: Moment,
)
    requires
        newest_in(more) == Some(TurnView::Started),
    ensures
        rollout::error_in_lines(lines + more, session_id, now) is None,
{
    added_lines_decide(lines, more, session_id, now);
}

/// Once a turn has ended, its end alone tells of an error, whatever came before.
pub proof fn ended_turn_decides(
    lines: Seq<Seq<char>>,
    more: Seq<Seq<char>>,
    payload: JsonView,
    session_id: Seq<char>,
    now: Moment,
)
    requires
        newest_in(more) == Some(TurnView::Completed(payload)),
    ensures
        rollout::error_in_lines(lines + more, session_id, now) == rollout::error_in(
            payload,
            session_id,
            now,
        ),
{
    added_lines_decide(lines, more, session_id, now);
}

/// A turn that ended without an error leaves the session without one, whatever came before.
pub proof fn successful_turn_has_no_error(
    lines: Seq<Seq<char>>,
    more: Seq<Seq<char>>,
    payload: JsonView,
    session_id: Seq<char>,
    now: Moment,
)
    requires
        newest_in(more) == Some(TurnView::Completed(payload)),
        payload.member("error"@) is None || payload.member("error"@) == Some(JsonView::Null),
    ensures
        rollout::error_in_lines(lines + more, session_id, now) is None,
{
    ended_turn_decides(lines, more, payload, session_id, now);
}

/// An error is reported for the session that was asked about, at the time of asking.
pub proof fn error_belongs_to_the_session(
    lines: Seq<Seq<char>>,
    session_id: Seq<char>,
    now: Moment,
)
    ensures
        rollout::error_in_lines(lines, session_id, now) matches Some(error) ==> error.session_id
            == session_id && error.detected_at == now,
{
}

/// The same error, if any, but for the time at which it was detected.
pub open spec fn same_but_for_time(a: Option<ErrorView>, b: Option<ErrorView>) -> bool {
    match (a, b) {
        (Some(x), Some(y)) => x == (ErrorView { detected_at: x.detected_at, ..y }),
        (None, None) => true,
        _ => false,
    }
}

/// When the same lines are read again later, only the time of the error is another.
pub proof fn time_alone_changes_only_the_time(
    lines: Seq<Seq<char>>,
    session_id: Seq<char>,
    now: Moment,
    later: Moment,
)
    ensures
        same_but_for_time(
            rollout::error_in_lines(lines, session_id, now),
            rollout::error_in_lines(lines, session_id, later),
        ),
{
}

// ---------------------------------------------------------------------------
// Bytes
// ---------------------------------------------------------------------------

/// The lines that bytes of a log hold.
pub open spec fn lines_in(bytes: Seq<u8>) -> Seq<Seq<char>> {
    text::lines_of(text::lossy_text(bytes))
}

/// The newest event of a turn in bytes of a log.
pub open spec fn newest_in_bytes(bytes: Seq<u8>) -> Option<TurnView> {
    newest_in(lines_in(bytes))
}

/// Whole lines: no bytes, or bytes that end with a line feed.
pub open spec fn is_whole_lines(bytes: Seq<u8>) -> bool {
    bytes.len() == 0 || bytes.last() == 10
}

/// The last `window` bytes of a file.
pub open spec fn tail_of(file: Seq<u8>, window: int) -> Seq<u8> {
    file.skip(rollout::tail_start(file.len() as int, window))
}

/// Where the first line of a file begins that does not begin before the position; its end where
/// there is none.
pub open spec fn line_start(file: Seq<u8>, from: int) -> int
    decreases file.len() - from,
{
    if from >= file.len() {
        file.len() as int
    } else if from <= 0 {
        0
    } else if file[from - 1] == 10 {
        from
    } else {
        line_start(file, from + 1)
    }
}

/// Where the first whole line in the last `window` bytes of a file begins.
pub open spec fn whole_start(file: Seq<u8>, window: int) -> int {
    line_start(file, rollout::tail_start(file.len() as int, window))
}

/// The whole lines in the last `window` bytes of a file.
pub open spec fn whole_lines(file: Seq<u8>, window: int) -> Seq<u8> {
    file.skip(whole_start(file, window))
}

/// What the last `window` bytes of a file hold of a line that begins before them.
pub open spec fn cut_line(file: Seq<u8>, window: int) -> Seq<u8> {
    file.subrange(
        rollout::tail_start(file.len() as int, window),
        whole_start(file, window),
    )
}

proof fn lemma_line_start(file: Seq<u8>, from: int)
    requires
        0 <= from <= file.len(),
    ensures
        from <= line_start(file, from) <= file.len(),
        line_start(file, from) == 0 || file[line_start(file, from) - 1] == 10 || line_start(
            file,
            from,
        ) == file.len(),
    decreases file.len() - from,
{
    if 0 < from < file.len() && file[from - 1] != 10 {
        lemma_line_start(file, from + 1);
    }
}

/// Lines that are put behind whole lines come behind them, whatever the bytes are.
proof fn lemma_lines_put_behind(log: Seq<u8>, more: Seq<u8>)
    requires
        is_whole_lines(log),
    ensures
        lines_in(log + more) == lines_in(log) + lines_in(more),
        newest_in_bytes(log + more) == (if newest_in_bytes(more) is Some {
            newest_in_bytes(more)
        } else {
            newest_in_bytes(log)
        }),
{
    text::lines_are_mended_apart(log, more);
    text::lines_are_put_behind_lines(text::lossy_text(log), text::lossy_text(more));
    lemma_newest_in_concat(lines_in(log), lines_in(more));
}

/// Where the lines from a position on tell of a turn, what stands before them does not count.
proof fn lemma_newest_from(bytes: Seq<u8>, start: int)
    requires
        0 <= start <= bytes.len(),
        start == 0 || bytes[start - 1] == 10,
        newest_in_bytes(bytes.skip(start)) is Some,
    ensures
        newest_in_bytes(bytes) == newest_in_bytes(bytes.skip(start)),
{
    assert(bytes =~= bytes.take(start) + bytes.skip(start));
    lemma_lines_put_behind(bytes.take(start), bytes.skip(start));
}

proof fn lemma_nothing_in_no_bytes()
    ensures
        lines_in(Seq::empty()) == Seq::<Seq<char>>::empty(),
        newest_in_bytes(Seq::empty()) is None,
{
    assert(text::lossy_text(Seq::empty()) =~= Seq::empty());
    assert(rollout::trimmed_lines(Seq::empty()) =~= Seq::empty());
}

/// A log that ends with a whole line and grows: if what was added tells of the start or the end of
/// a turn, it alone decides, and if not, it changes nothing.
pub proof fn added_bytes_decide(log: Seq<u8>, more: Seq<u8>, session_id: Seq<char>, now: Moment)
    requires
        is_whole_lines(log),
    ensures
        rollout::error_in_lines(lines_in(log + more), session_id, now) == (if newest_in_bytes(
            more,
        ) is Some {
            rollout::error_in_lines(lines_in(more), session_id, now)
        } else {
            rollout::error_in_lines(lines_in(log), session_id, now)
        }),
{
    lemma_lines_put_behind(log, more);
    added_lines_decide(lines_in(log), lines_in(more), session_id, now);
}

/// A file of whole lines that grows, of which no more than the last bytes are read: as long as the
/// newest line that tells of a turn lies in them, it alone decides.
///
/// - If what was added tells last of the start of a turn, the session is in no error.
/// - If what was added tells last of the end of a turn, the session is in the error that this tells
///   of, and in none where it tells of none.
/// - If what was added tells of no turn, the session is in the same error as before, or in none as
///   before.
pub proof fn growing_file_keeps_its_error(
    file: Seq<u8>,
    more: Seq<u8>,
    session_id: Seq<char>,
    now: Moment,
    later: Moment,
)
    requires
        is_whole_lines(file),
        file.len() + more.len() > rollout::ERROR_WINDOW ==> newest_in_bytes(
            whole_lines(file + more, rollout::ERROR_WINDOW as int),
        ) is Some,
    ensures
        ({
            let window = rollout::ERROR_WINDOW as int;
            let before = rollout::error_in_lines(lines_in(tail_of(file, window)), session_id, now);
            let after = rollout::error_in_lines(
                lines_in(tail_of(file + more, window)),
                session_id,
                later,
            );
            match newest_in_bytes(more) {
                Some(TurnView::Started) => after is None,
                Some(TurnView::Completed(payload)) => {
                    &&& after == rollout::error_in(payload, session_id, later)
                    &&& payload.member("error"@) is None || payload.member("error"@) == Some(
                        JsonView::Null,
                    ) ==> after is None
                },
                None => same_but_for_time(before, after),
            }
        }),
{
    let window = rollout::ERROR_WINDOW as int;
    let grown = file + more;
    let before = tail_of(file, window);
    let after = tail_of(grown, window);
    lemma_lines_put_behind(file, more);
    if grown.len() <= window {
        assert(after =~= grown);
        assert(before =~= file);
    } else {
        let start = grown.len() - window;
        let line = whole_start(grown, window);
        lemma_line_start(grown, start);
        lemma_nothing_in_no_bytes();
        assert(line == grown.len() ==> grown.skip(line) =~= Seq::empty());
        lemma_newest_from(grown, line);
        assert(after.skip(line - start) =~= grown.skip(line));
        lemma_newest_from(after, line - start);
        if newest_in_bytes(more) is None {
            lemma_nothing_added(file, more, line);
        }
    }
    time_alone_changes_only_the_time(lines_in(before), session_id, now, later);
}

/// Where nothing of a turn was added, and the newest line that tells of one lies behind a position
/// in the window, it lies in the window of the file before it grew.
proof fn lemma_nothing_added(file: Seq<u8>, more: Seq<u8>, line: int)
    requires
        is_whole_lines(file),
        file.len() + more.len() > rollout::ERROR_WINDOW,
        file.len() + more.len() - rollout::ERROR_WINDOW <= line <= file.len() + more.len(),
        line == 0 || (file + more)[line - 1] == 10,
        newest_in_bytes((file + more).skip(line)) is Some,
        newest_in_bytes(more) is None,
    ensures
        newest_in_bytes(tail_of(file, rollout::ERROR_WINDOW as int)) == newest_in_bytes(file),
{
    let grown = file + more;
    let before = tail_of(file, rollout::ERROR_WINDOW as int);
    if line >= file.len() {
        let k = line - file.len();
        assert(more.skip(k) =~= grown.skip(line));
        assert(k > 0 ==> more[k - 1] == grown[line - 1]);
        lemma_newest_from(more, k);
        assert(false);
    } else {
        let part = file.skip(line);
        assert(grown.skip(line) =~= part + more);
        lemma_lines_put_behind(part, more);
        assert(line > 0 ==> file[line - 1] == grown[line - 1]);
        lemma_newest_from(file, line);
        let k = line - rollout::tail_start(file.len() as int, rollout::ERROR_WINDOW as int);
        assert(before.skip(k) =~= part);
        lemma_newest_from(before, k);
    }
}

// ---------------------------------------------------------------------------
// Running turns
// ---------------------------------------------------------------------------

/// Each of the lines is read the same without the blanks at its ends.
pub open spec fn read_the_same_trimmed(lines: Seq<Seq<char>>) -> bool {
    forall|i: int|
        #![trigger lines[i]]
        0 <= i < lines.len() ==> rollout::turn_event_in(text::trimmed(lines[i]))
            == rollout::turn_event_in(lines[i])
}

proof fn lemma_newest_trimmed(lines: Seq<Seq<char>>)
    requires
        read_the_same_trimmed(lines),
    ensures
        newest_in(lines) == rollout::newest_event(lines),
    decreases lines.len(),
{
    if lines.len() > 0 {
        let rest = lines.drop_last();
        assert(rollout::trimmed_lines(lines).drop_last() =~= rollout::trimmed_lines(rest));
        assert(rollout::trimmed_lines(lines).last() == text::trimmed(lines[lines.len() - 1]));
        assert forall|i: int| #![trigger rest[i]] 0 <= i < rest.len() implies
            rollout::turn_event_in(text::trimmed(rest[i])) == rollout::turn_event_in(rest[i]) by {
            assert(rest[i] == lines[i]);
        }
        lemma_newest_trimmed(rest);
    }
}

/// While a turn is running, the same end of the log tells of no error.
///
/// Lines that tell of another event without the blanks at their ends are left out.
pub proof fn running_turn_has_no_error(tail: Seq<u8>, session_id: Seq<char>, now: Moment)
    requires
        rollout::turn_running(tail) == Ok::<bool, rollout::TurnUnknown>(true),
        read_the_same_trimmed(lines_in(tail)),
    ensures
        rollout::error_in_lines(lines_in(tail), session_id, now) is None,
{
    text::text_is_not_mended(tail);
    lemma_newest_trimmed(lines_in(tail));
}

/// While a turn is running, of which the longer end of a file tells, the shorter end of it tells
/// of no error, wherever it begins.
///
/// Lines that tell of another event without the blanks at their ends are left out, and so is a
/// shorter end in which the rest of a line that begins before it is read as the end of a turn.
pub proof fn file_of_a_running_turn_has_no_error(
    file: Seq<u8>,
    session_id: Seq<char>,
    now: Moment,
)
    requires
        rollout::turn_running(tail_of(file, rollout::TURN_WINDOW as int)) == Ok::<
            bool,
            rollout::TurnUnknown,
        >(true),
        read_the_same_trimmed(lines_in(whole_lines(file, rollout::ERROR_WINDOW as int))),
        !(newest_in_bytes(cut_line(file, rollout::ERROR_WINDOW as int)) matches Some(
            TurnView::Completed(_),
        )),
    ensures
        rollout::error_in_lines(
            lines_in(tail_of(file, rollout::ERROR_WINDOW as int)),
            session_id,
            now,
        ) is None,
{
    let size = file.len() as int;
    let long_start = rollout::tail_start(size, rollout::TURN_WINDOW as int);
    let start = rollout::tail_start(size, rollout::ERROR_WINDOW as int);
    let line = whole_start(file, rollout::ERROR_WINDOW as int);
    let long = file.skip(long_start);
    let short = file.skip(start);
    let cut = cut_line(file, rollout::ERROR_WINDOW as int);
    let whole = file.skip(line);
    lemma_line_start(file, start);
    text::text_is_not_mended(long);
    if line == size {
        assert(cut =~= short);
    } else {
        let head = file.subrange(long_start, line);
        assert(long =~= head + whole);
        assert(short =~= cut + whole);
        assert(head.len() > 0 ==> head.last() == file[line - 1]);
        assert(cut.len() > 0 ==> cut.last() == file[line - 1]);
        lemma_lines_put_behind(head, whole);
        lemma_lines_put_behind(cut, whole);
        lemma_newest_concat(lines_in(head), lines_in(whole));
        lemma_newest_trimmed(lines_in(whole));
    }
}

/// An empty log tells of no error.
pub proof fn empty_log_has_no_error(session_id: Seq<char>, now: Moment)
    ensures
        rollout::error_in_lines(lines_in(Seq::empty()), session_id, now) is None,
{
    lemma_nothing_in_no_bytes();
}

} // verus!
