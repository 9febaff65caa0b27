//! The log of past sessions.
//!
//! Each session is a row of a file to which rows are only ever appended. What is
//! read back is put in order here, and it is decided which rows belong to whom.

use vstd::prelude::*;

use crate::analysis::DeliveryMetrics;
use crate::calendar;
use crate::personas;
use crate::rows;
use crate::text;

verus! {

/// The folder for the log, below the platform's place for data, and the file in it.
pub const HISTORY_FOLDER: &'static str = "speakflow";

pub const HISTORY_FILE: &'static str = "history.jsonl";

/// What is shown where there is no place for the log.
pub const NO_HISTORY_PATH: &'static str = "<unavailable>";

/// A session that has come to its end.
#[derive(Clone, Debug)]
pub struct Session {
    /// Seconds since the start of 1970.
    pub timestamp: i64,
    pub theme: String,
    pub prompt: String,
    pub transcript: String,
    pub followups: Vec<String>,
    pub followup_answers: Vec<String>,
    pub metrics: DeliveryMetrics,
    pub feedback: String,
    /// The persona that led the session; older rows name none.
    pub persona_name: String,
}

/// The name of the persona that a session belongs to. One that names none belongs
/// to the engineering coach.
pub open spec fn owner(session: Session) -> Seq<char> {
    if session.persona_name@.len() == 0 {
        personas::ENGINEERING_LEADER@
    } else {
        session.persona_name@
    }
}

impl Session {
    /// A session that ends now. `clock` holds the seconds since the start of 1970,
    /// unless the clock stands before that.
    pub fn now(
        clock: Option<u64>,
        theme: String,
        prompt: String,
        transcript: String,
        followups: Vec<String>,
        followup_answers: Vec<String>,
        metrics: DeliveryMetrics,
        feedback: String,
        persona_name: String,
    ) -> (r: Session)
        ensures
            r.timestamp == match clock {
                Some(secs) => secs as i64,
                None => 0,
            },
            r == (Session {
                timestamp: r.timestamp,
                theme,
                prompt,
                transcript,
                followups,
                followup_answers,
                metrics,
                feedback,
                persona_name,
            }),
    {
        let timestamp: i64 = match clock {
            Some(secs) => secs as i64,
            None => 0,
        };
        Session {
            timestamp,
            theme,
            prompt,
            transcript,
            followups,
            followup_answers,
            metrics,
            feedback,
            persona_name,
        }
    }

    /// The minute at which the session ended.
    pub fn formatted_timestamp(&self) -> (r: String)
        ensures
            exists|date: calendar::CivilDate| calendar::is_day_of(date, self.timestamp as int),
            forall|date: calendar::CivilDate| #[trigger]
                calendar::is_day_of(date, self.timestamp as int) ==> r@ == calendar::utc_text(
                    date,
                    self.timestamp as int,
                ),
    {
        calendar::format_utc(self.timestamp)
    }

    /// Whether the session belongs to a persona.
    pub fn belongs_to(&self, name: &str) -> (r: bool)
        ensures
            r == (owner(*self) == name@),
    {
        if self.persona_name.as_str().is_empty() {
            text::same_text(personas::ENGINEERING_LEADER, name)
        } else {
            text::same_text(self.persona_name.as_str(), name)
        }
    }
}

/// What is shown of the place of the log.
pub fn history_path_display(path: Option<String>) -> (r: String)
    ensures
        path matches Some(p) ==> r == p,
        path is None ==> r@ == NO_HISTORY_PATH@,
{
    match path {
        Some(p) => p,
        None => String::from_str(NO_HISTORY_PATH),
    }
}

// ---------------------------------------------------------------- order

/// The sessions in the rows that could be read, in the order of the rows.
pub open spec fn readable(rows: Seq<Option<Session>>) -> Seq<Session>
    decreases rows.len(),
{
    if rows.len() == 0 {
        seq![]
    } else {
        let before = readable(rows.drop_last());
        match rows.last() {
            Some(session) => before.push(session),
            None => before,
        }
    }
}

/// The sessions that ended at a given second.
pub open spec fn at_second(sessions: Seq<Session>, second: i64) -> Seq<Session> {
    sessions.filter(|s: Session| s.timestamp == second)
}

/// Whether `sorted` holds the given sessions, the oldest first and those of the
/// same second as they came.
pub open spec fn is_oldest_first(sorted: Seq<Session>, sessions: Seq<Session>) -> bool {
    &&& forall|i: int, j: int|
        0 <= i <= j < sorted.len() ==> sorted[i].timestamp <= sorted[j].timestamp
    &&& forall|second: i64| #[trigger] at_second(sorted, second) == at_second(sessions, second)
}

proof fn lemma_none_at_second(sessions: Seq<Session>, second: i64)
    requires
        forall|i: int| 0 <= i < sessions.len() ==> sessions[i].timestamp != second,
    ensures
        at_second(sessions, second) == Seq::<Session>::empty(),
    decreases sessions.len(),
{
    reveal(Seq::filter);
    if sessions.len() > 0 {
        lemma_none_at_second(sessions.drop_last(), second);
    }
}

proof fn lemma_insert_keeps_order(
    sorted: Seq<Session>,
    sessions: Seq<Session>,
    session: Session,
    at: int,
)
    requires
        is_oldest_first(sorted, sessions),
        0 <= at <= sorted.len(),
        forall|i: int| 0 <= i < at ==> sorted[i].timestamp <= session.timestamp,
        forall|i: int| at <= i < sorted.len() ==> session.timestamp < sorted[i].timestamp,
    ensures
        is_oldest_first(sorted.insert(at, session), sessions.push(session)),
{
    let longer = sorted.insert(at, session);
    let head = sorted.take(at);
    let tail = sorted.skip(at);
    let one = seq![session];
    assert(sorted == head + tail);
    assert(longer == head + one + tail);
    assert(sessions.push(session) == sessions + one);
    assert forall|second: i64| #[trigger] at_second(longer, second) == at_second(
        sessions.push(session),
        second,
    ) by {
        let pred = |s: Session| s.timestamp == second;
        Seq::filter_distributes_over_add(head, tail, pred);
        Seq::filter_distributes_over_add(head + one, tail, pred);
        Seq::filter_distributes_over_add(head, one, pred);
        Seq::filter_distributes_over_add(sessions, one, pred);
        assert(at_second(sorted, second) == at_second(sessions, second));
        if second == session.timestamp {
            lemma_none_at_second(tail, second);
            assert(at_second(longer, second) == at_second(head, second) + at_second(one, second));
            assert(at_second(sorted, second) == at_second(head, second));
        } else {
            lemma_none_at_second(one, second);
            assert(at_second(longer, second) == at_second(sorted, second));
            assert(at_second(sessions + one, second) == at_second(sessions, second));
        }
    }
}

/// Puts the sessions that could be read in order, the oldest first. Rows that
/// could not be read are passed over.
pub fn load_all(rows: Vec<Option<Session>>) -> (r: Vec<Session>)
    ensures
        is_oldest_first(r@, readable(rows@)),
{
    let mut out: Vec<Session> = Vec::new();
    let ghost all = rows@;
    assert(is_oldest_first(out@, readable(all.take(0))));
    for row in it: rows
        invariant
            it.seq() == all,
            is_oldest_first(out@, readable(all.take(it.index()))),
    {
        let ghost n = it.index();
        assert(all.take(n + 1).drop_last() == all.take(n));
        assert(all.take(n + 1).last() == row);
        if let Some(session) = row {
            let mut at: usize = out.len();
            while at > 0 && out[at - 1].timestamp > session.timestamp
                invariant
                    at <= out.len(),
                    is_oldest_first(out@, readable(all.take(n))),
                    forall|i: int|
                        at <= i < out@.len() ==> session.timestamp < out@[i].timestamp,
                decreases at,
            {
                at -= 1;
            }
            proof {
                lemma_insert_keeps_order(out@, readable(all.take(n)), session, at as int);
            }
            out.insert(at, session);
        }
    }
    assert(all.take(all.len() as int) == all);
    out
}

proof fn lemma_last_at_second(sessions: Seq<Session>, second: i64)
    requires
        sessions.len() > 0,
    ensures
        sessions.last().timestamp == second ==> at_second(sessions, second) == at_second(
            sessions.drop_last(),
            second,
        ).push(sessions.last()),
        sessions.last().timestamp != second ==> at_second(sessions, second) == at_second(
            sessions.drop_last(),
            second,
        ),
{
    reveal(Seq::filter);
}

proof fn lemma_some_at_second(sessions: Seq<Session>, second: i64)
    requires
        at_second(sessions, second).len() > 0,
    ensures
        exists|i: int| 0 <= i < sessions.len() && sessions[i].timestamp == second,
{
    if forall|i: int| 0 <= i < sessions.len() ==> sessions[i].timestamp != second {
        lemma_none_at_second(sessions, second);
    }
}

/// Sessions can be put in order in one way only.
pub proof fn law_order_is_unique(a: Seq<Session>, b: Seq<Session>, sessions: Seq<Session>)
    requires
        is_oldest_first(a, sessions),
        is_oldest_first(b, sessions),
    ensures
        a == b,
{
    assert forall|second: i64| #[trigger] at_second(a, second) == at_second(b, second) by {
        assert(at_second(a, second) == at_second(sessions, second));
        assert(at_second(b, second) == at_second(sessions, second));
    }
    lemma_same_order(a, b);
}

proof fn lemma_same_order(a: Seq<Session>, b: Seq<Session>)
    requires
        forall|i: int, j: int| 0 <= i <= j < a.len() ==> a[i].timestamp <= a[j].timestamp,
        forall|i: int, j: int| 0 <= i <= j < b.len() ==> b[i].timestamp <= b[j].timestamp,
        forall|second: i64| #[trigger] at_second(a, second) == at_second(b, second),
    ensures
        a == b,
    decreases a.len(),
{
    if a.len() == 0 {
        if b.len() > 0 {
            let t = b.last().timestamp;
            lemma_last_at_second(b, t);
            assert(at_second(a, t) == at_second(b, t));
            lemma_some_at_second(a, t);
        }
    } else {
        let t = a.last().timestamp;
        lemma_last_at_second(a, t);
        assert(at_second(a, t) == at_second(b, t));
        lemma_some_at_second(b, t);
        let u = b.last().timestamp;
        lemma_last_at_second(b, u);
        assert(at_second(a, u) == at_second(b, u));
        lemma_some_at_second(a, u);
        assert(t == u);
        assert(at_second(a, t).last() == a.last());
        assert(at_second(b, t).last() == b.last());
        assert forall|second: i64| #[trigger] at_second(a.drop_last(), second) == at_second(
            b.drop_last(),
            second,
        ) by {
            assert(at_second(a, second) == at_second(b, second));
            lemma_last_at_second(a, second);
            lemma_last_at_second(b, second);
            if second == t {
                assert(at_second(a, t).drop_last() == at_second(a.drop_last(), t));
                assert(at_second(b, t).drop_last() == at_second(b.drop_last(), t));
            }
        }
        lemma_same_order(a.drop_last(), b.drop_last());
        assert(a == a.drop_last().push(a.last()));
        assert(b == b.drop_last().push(b.last()));
    }
}

// ---------------------------------------------------------------- whose sessions

/// The sessions that do not belong to a persona.
pub open spec fn others(sessions: Seq<Session>, name: Seq<char>) -> Seq<Session> {
    sessions.filter(|s: Session| owner(s) != name)
}

/// Drops the sessions that belong to a persona and keeps the others in their order.
pub fn delete_for_persona(sessions: Vec<Session>, name: &str) -> (r: Vec<Session>)
    ensures
        r@ == others(sessions@, name@),
{
    let mut out: Vec<Session> = Vec::new();
    let ghost all = sessions@;
    let ghost keep = |s: Session| owner(s) != name@;
    proof {
        reveal(Seq::filter);
    }
    for session in it: sessions
        invariant
            it.seq() == all,
            keep == (|s: Session| owner(s) != name@),
            out@ == all.take(it.index()).filter(keep),
    {
        let ghost n = it.index();
        proof {
            reveal(Seq::filter);
            assert(all.take(n + 1).drop_last() == all.take(n));
            assert(all.take(n + 1).last() == session);
        }
        if !session.belongs_to(name) {
            out.push(session);
        }
    }
    assert(all.take(all.len() as int) == all);
    out
}

/// Whether `r` is the session `s` with the persona named that it belongs to.
pub open spec fn is_named(r: Session, s: Session) -> bool {
    &&& r.persona_name@ == owner(s)
    &&& r == (Session { persona_name: r.persona_name, ..s })
}

/// Names the persona in the sessions that name none.
pub fn name_owners(sessions: Vec<Session>) -> (r: Vec<Session>)
    ensures
        r@.len() == sessions@.len(),
        forall|i: int| 0 <= i < r@.len() ==> is_named(#[trigger] r@[i], sessions@[i]),
{
    let mut out: Vec<Session> = Vec::new();
    let ghost all = sessions@;
    for session in it: sessions
        invariant
            it.seq() == all,
            out@.len() == it.index(),
            forall|i: int| 0 <= i < out@.len() ==> is_named(#[trigger] out@[i], all[i]),
    {
        let mut s = session;
        if s.persona_name.as_str().is_empty() {
            s.persona_name = String::from_str(personas::ENGINEERING_LEADER);
        }
        out.push(s);
    }
    out
}

/// The positions of the sessions that name a persona, in ascending order.
pub open spec fn positions_naming(sessions: Seq<Session>, name: Seq<char>) -> Seq<usize>
    decreases sessions.len(),
{
    if sessions.len() == 0 {
        seq![]
    } else {
        let before = positions_naming(sessions.drop_last(), name);
        if sessions.last().persona_name@ == name {
            before.push((sessions.len() - 1) as usize)
        } else {
            before
        }
    }
}

/// Finds the sessions that name a persona.
pub fn sessions_naming(sessions: &Vec<Session>, name: &str) -> (r: Vec<usize>)
    ensures
        r@ == positions_naming(sessions@, name@),
        forall|i: int| 0 <= i < r@.len() ==> #[trigger] r@[i] < sessions@.len(),
{
    let mut out: Vec<usize> = Vec::new();
    let mut i: usize = 0;
    while i < sessions.len()
        invariant
            i <= sessions.len(),
            out@ == positions_naming(sessions@.take(i as int), name@),
            forall|k: int| 0 <= k < out@.len() ==> #[trigger] out@[k] < i,
        decreases sessions.len() - i,
    {
        assert(sessions@.take(i + 1).drop_last() == sessions@.take(i as int));
        if text::same_text(sessions[i].persona_name.as_str(), name) {
            out.push(i);
        }
        i += 1;
    }
    assert(sessions@.take(sessions@.len() as int) == sessions@);
    out
}

/// The number of sessions that belong to a persona.
pub open spec fn owned_count(sessions: Seq<Session>, name: Seq<char>) -> nat {
    sessions.filter(|s: Session| owner(s) == name).len()
}

/// Counts the sessions that belong to a persona.
pub fn count_for_persona(sessions: &Vec<Session>, name: &str) -> (r: usize)
    ensures
        r == owned_count(sessions@, name@),
{
    let ghost mine = |s: Session| owner(s) == name@;
    let mut count: usize = 0;
    let mut i: usize = 0;
    proof {
        reveal(Seq::filter);
    }
    while i < sessions.len()
        invariant
            i <= sessions.len(),
            count <= i,
            mine == (|s: Session| owner(s) == name@),
            count == sessions@.take(i as int).filter(mine).len(),
        decreases sessions.len() - i,
    {
        proof {
            reveal(Seq::filter);
            assert(sessions@.take(i + 1).drop_last() == sessions@.take(i as int));
        }
        if sessions[i].belongs_to(name) {
            count += 1;
        }
        i += 1;
    }
    assert(sessions@.take(sessions@.len() as int) == sessions@);
    count
}

// ---------------------------------------------------------------- laws

proof fn lemma_filter_twice(sessions: Seq<Session>, a: Seq<char>, b: Seq<char>)
    ensures
        owned_count(others(sessions, a), b) == if a == b {
            0
        } else {
            owned_count(sessions, b)
        },
    decreases sessions.len(),
{
    reveal(Seq::filter);
    if sessions.len() > 0 {
        lemma_filter_twice(sessions.drop_last(), a, b);
        let rest = others(sessions.drop_last(), a);
        if owner(sessions.last()) != a {
            assert(others(sessions, a) == rest.push(sessions.last()));
            assert(rest.push(sessions.last()).drop_last() == rest);
        } else {
            assert(others(sessions, a) == rest);
        }
    }
}

/// Clearing the history of a persona leaves none of its sessions and all of those
/// of every other persona.
pub proof fn law_clearing_is_exact(sessions: Seq<Session>, cleared: Seq<char>, name: Seq<char>)
    ensures
        owned_count(others(sessions, cleared), cleared) == 0,
        name != cleared ==> owned_count(others(sessions, cleared), name) == owned_count(
            sessions,
            name,
        ),
{
    lemma_filter_twice(sessions, cleared, cleared);
    lemma_filter_twice(sessions, cleared, name);
}

/// Once the personas are named, the sessions that name one are those that belonged
/// to it before.
pub proof fn law_naming_keeps_owners(named: Seq<Session>, sessions: Seq<Session>, name: Seq<char>)
    requires
        named.len() == sessions.len(),
        forall|i: int| 0 <= i < named.len() ==> is_named(#[trigger] named[i], sessions[i]),
    ensures
        forall|i: int| 0 <= i < named.len() ==> owner(#[trigger] named[i]) == owner(sessions[i]),
        positions_naming(named, name).len() == owned_count(sessions, name),
        owned_count(named, name) == owned_count(sessions, name),
    decreases named.len(),
{
    reveal(Seq::filter);
    reveal_strlit("Engineering Leader");
    if named.len() > 0 {
        let n = named.len() - 1;
        assert forall|i: int| 0 <= i < named.drop_last().len() implies is_named(
            #[trigger] named.drop_last()[i],
            sessions.drop_last()[i],
        ) by {
            assert(is_named(named[i], sessions[i]));
        }
        law_naming_keeps_owners(named.drop_last(), sessions.drop_last(), name);
        assert(is_named(named[n], sessions[n]));
        assert forall|i: int| 0 <= i < named.len() implies owner(#[trigger] named[i]) == owner(
            sessions[i],
        ) by {
            if i < n {
                assert(named.drop_last()[i] == named[i]);
                assert(sessions.drop_last()[i] == sessions[i]);
            }
        }
    }
}

/// The sessions that a log holds, where `parse` tells which one a row holds.
pub open spec fn logged(log: Seq<u8>, parse: spec_fn(Seq<char>) -> Option<Session>) -> Seq<
    Session,
> {
    readable(rows::rows_of(log).map_values(parse))
}

/// Whether `after` is `before` with a session put in its place by time: behind those
/// that ended no later.
pub open spec fn is_put_in_place(after: Seq<Session>, before: Seq<Session>, s: Session) -> bool {
    exists|at: int|
        #![trigger before.insert(at, s)]
        0 <= at <= before.len() && after == before.insert(at, s) && is_place_for(before, s, at)
}

/// Whether `at` is the place of a session by time.
pub open spec fn is_place_for(sorted: Seq<Session>, s: Session, at: int) -> bool {
    &&& forall|i: int| 0 <= i < at ==> sorted[i].timestamp <= s.timestamp
    &&& forall|i: int| at <= i < sorted.len() ==> s.timestamp < sorted[i].timestamp
}

proof fn lemma_place(sorted: Seq<Session>, s: Session) -> (at: int)
    requires
        forall|i: int, j: int|
            0 <= i <= j < sorted.len() ==> sorted[i].timestamp <= sorted[j].timestamp,
    ensures
        0 <= at <= sorted.len(),
        is_place_for(sorted, s, at),
    decreases sorted.len(),
{
    if sorted.len() == 0 || sorted.last().timestamp <= s.timestamp {
        sorted.len() as int
    } else {
        let front = sorted.drop_last();
        let at = lemma_place(front, s);
        assert forall|i: int| 0 <= i < at implies sorted[i].timestamp <= s.timestamp by {
            assert(front[i] == sorted[i]);
        }
        assert forall|i: int| at <= i < sorted.len() implies s.timestamp < sorted[i].timestamp by {
            if i < front.len() {
                assert(front[i] == sorted[i]);
            }
        }
        at
    }
}

/// A session that is appended to the log comes back from it, in its place by time,
/// and all that was there before stays as it was. The log is empty or ends in a line
/// feed, the row is one line with no white space around it, and `parse` tells which
/// session a row holds, if any.
pub proof fn law_appended_session_comes_back(
    log: Seq<u8>,
    row: Seq<char>,
    session: Session,
    parse: spec_fn(Seq<char>) -> Option<Session>,
    before: Seq<Session>,
    after: Seq<Session>,
)
    requires
        log.len() == 0 || log.last() == rows::LINE_FEED,
        text::is_clean(row),
        parse(row) == Some(session),
        is_oldest_first(before, logged(log, parse)),
        is_oldest_first(
            after,
            logged(log + (vstd::utf8::encode_utf8(row) + seq![rows::LINE_FEED]), parse),
        ),
    ensures
        is_put_in_place(after, before, session),
        is_oldest_first(after, before.push(session)),
{
    rows::law_appended_row_is_read(log, row);
    let old_rows = rows::rows_of(log).map_values(parse);
    let new_rows = rows::rows_of(
        log + (vstd::utf8::encode_utf8(row) + seq![rows::LINE_FEED]),
    ).map_values(parse);
    assert(new_rows == old_rows.push(Some(session)));
    assert(new_rows.drop_last() == old_rows);
    assert(readable(new_rows) == readable(old_rows).push(session));
    let at = lemma_place(before, session);
    lemma_insert_keeps_order(before, readable(old_rows), session, at);
    law_order_is_unique(after, before.insert(at, session), readable(new_rows));
    lemma_insert_keeps_order(before, before, session, at);
}

/// A session belongs to the persona that it names; one that names none belongs to the
/// engineering coach.
pub proof fn law_sessions_belong_to_whom_they_name(session: Session)
    ensures
        session.persona_name@.len() > 0 ==> owner(session) == session.persona_name@,
        session.persona_name@.len() == 0 ==> owner(session) == "Engineering Leader"@,
{
}

/// Rows that could not be read leave nothing behind, and the others their sessions, in
/// the order of the rows.
pub proof fn law_rows_are_read_one_by_one(
    a: Seq<Option<Session>>,
    b: Seq<Option<Session>>,
    session: Session,
)
    ensures
        readable(a + b) == readable(a) + readable(b),
        readable(seq![Some(session)]) == seq![session],
        readable(seq![None]).len() == 0,
    decreases b.len(),
{
    let none = Seq::<Option<Session>>::empty();
    assert(seq![Some(session)].drop_last() == none);
    assert(seq![Some(session)].last() == Some(session));
    assert(seq![None::<Session>].drop_last() == none);
    assert(seq![None::<Session>].last() is None);
    assert(readable(none) == Seq::<Session>::empty());
    if b.len() == 0 {
        assert(a + b == a);
    } else {
        law_rows_are_read_one_by_one(a, b.drop_last(), session);
        assert((a + b).drop_last() == a + b.drop_last());
        assert((a + b).last() == b.last());
    }
}

/// Sessions that came oldest first stay as they are, those of one second included.
pub proof fn law_ordered_sessions_stay(sorted: Seq<Session>, sessions: Seq<Session>)
    requires
        is_oldest_first(sorted, sessions),
        forall|i: int, j: int|
            0 <= i <= j < sessions.len() ==> sessions[i].timestamp <= sessions[j].timestamp,
    ensures
        sorted == sessions,
{
    assert(is_oldest_first(sessions, sessions));
    law_order_is_unique(sorted, sessions, sessions);
}

#[verifier::rlimit(50)]
proof fn lemma_at_second_holds(sessions: Seq<Session>, s: Session)
    ensures
        at_second(sessions, s.timestamp).contains(s) <==> sessions.contains(s),
    decreases sessions.len(),
{
    reveal(Seq::filter);
    if sessions.len() > 0 {
        let front = sessions.drop_last();
        lemma_at_second_holds(front, s);
        let before = at_second(front, s.timestamp);
        let last = sessions.last();
        if sessions.contains(s) {
            let i = choose|i: int| 0 <= i < sessions.len() && sessions[i] == s;
            if i < front.len() {
                assert(front[i] == s);
                let k = choose|k: int| 0 <= k < before.len() && before[k] == s;
                assert(at_second(sessions, s.timestamp)[k] == s);
            } else {
                assert(at_second(sessions, s.timestamp) == before.push(last));
                assert(before.push(last)[before.len() as int] == s);
            }
        }
        if at_second(sessions, s.timestamp).contains(s) {
            if before.contains(s) {
                let i = choose|i: int| 0 <= i < front.len() && front[i] == s;
                assert(sessions[i] == s);
            } else {
                let all = at_second(sessions, s.timestamp);
                let k = choose|k: int| 0 <= k < all.len() && all[k] == s;
                if k < before.len() {
                    assert(before[k] == s);
                }
                assert(sessions[sessions.len() - 1] == s);
            }
        }
    }
}

/// Putting sessions in order neither loses one nor adds one, and each of them stands
/// before all that ended later.
pub proof fn law_order_keeps_sessions(sorted: Seq<Session>, sessions: Seq<Session>, s: Session)
    requires
        is_oldest_first(sorted, sessions),
    ensures
        sorted.contains(s) <==> sessions.contains(s),
        forall|i: int, j: int|
            0 <= i < sorted.len() && 0 <= j < sorted.len() && #[trigger] sorted[i].timestamp
                < #[trigger] sorted[j].timestamp ==> i < j,
{
    lemma_at_second_holds(sorted, s);
    lemma_at_second_holds(sessions, s);
    assert(at_second(sorted, s.timestamp) == at_second(sessions, s.timestamp));
}

/// Of two lists, each keeps what does not belong to a persona, in order; a single session
/// is kept if and only if it belongs to another. Those that are kept and those that belong
/// to the persona are all.
#[verifier::rlimit(50)]
pub proof fn law_clearing_goes_session_by_session(
    a: Seq<Session>,
    b: Seq<Session>,
    s: Session,
    name: Seq<char>,
)
    ensures
        others(a + b, name) == others(a, name) + others(b, name),
        others(seq![s], name) == if owner(s) == name {
            seq![]
        } else {
            seq![s]
        },
        owned_count(a + b, name) == owned_count(a, name) + owned_count(b, name),
        owned_count(seq![s], name) == if owner(s) == name {
            1nat
        } else {
            0nat
        },
        others(a, name).len() + owned_count(a, name) == a.len(),
    decreases a.len(),
{
    let keep = |x: Session| owner(x) != name;
    let mine = |x: Session| owner(x) == name;
    Seq::filter_distributes_over_add(a, b, keep);
    Seq::filter_distributes_over_add(a, b, mine);
    reveal(Seq::filter);
    let none = Seq::<Session>::empty();
    assert(seq![s].drop_last() == none);
    assert(seq![s].last() == s);
    assert(none.filter(keep) == none && none.filter(mine) == none);
    if a.len() > 0 {
        law_clearing_goes_session_by_session(a.drop_last(), b, s, name);
    }
}

/// Naming the owner of a session changes nothing else of it, and nothing at all where it
/// names one.
pub proof fn law_naming_changes_the_name_only(r: Session, s: Session)
    requires
        is_named(r, s),
    ensures
        r.persona_name@.len() > 0,
        s.persona_name@.len() > 0 ==> r.persona_name@ == s.persona_name@,
        s.persona_name@.len() == 0 ==> r.persona_name@ == "Engineering Leader"@,
        r.timestamp == s.timestamp,
        r.theme == s.theme && r.prompt == s.prompt && r.transcript == s.transcript,
        r.followups == s.followups && r.followup_answers == s.followup_answers,
        r.metrics == s.metrics && r.feedback == s.feedback,
{
    reveal_strlit("Engineering Leader");
}

/// The positions that are found ascend, and are those of the sessions that name the
/// persona, all of them and no others.
#[verifier::rlimit(50)]
pub proof fn law_positions_are_exact(sessions: Seq<Session>, name: Seq<char>)
    requires
        sessions.len() <= usize::MAX,
    ensures
        forall|i: int, j: int|
            0 <= i < j < positions_naming(sessions, name).len() ==> #[trigger] positions_naming(
                sessions,
                name,
            )[i] < #[trigger] positions_naming(sessions, name)[j],
        forall|at: usize| #[trigger]
            positions_naming(sessions, name).contains(at) <==> at < sessions.len()
                && sessions[at as int].persona_name@ == name,
    decreases sessions.len(),
{
    let all = positions_naming(sessions, name);
    if sessions.len() > 0 {
        let front = sessions.drop_last();
        let before = positions_naming(front, name);
        let last = (sessions.len() - 1) as usize;
        law_positions_are_exact(front, name);
        assert forall|i: int| 0 <= i < before.len() implies #[trigger] before[i] < last by {
            assert(before.contains(before[i]));
        }
        assert forall|i: int, j: int| 0 <= i < j < all.len() implies #[trigger] all[i]
            < #[trigger] all[j] by {
            assert(all[i] == before[i]);
            if j < before.len() {
                assert(all[j] == before[j]);
            }
        }
        assert forall|at: usize| #[trigger] all.contains(at) <==> at < sessions.len()
            && sessions[at as int].persona_name@ == name by {
            assert(before.contains(at) <==> at < front.len() && front[at as int].persona_name@
                == name);
            if all.contains(at) {
                let k = choose|k: int| 0 <= k < all.len() && all[k] == at;
                if k < before.len() {
                    assert(before[k] == at);
                }
            }
            if before.contains(at) {
                let k = choose|k: int| 0 <= k < before.len() && before[k] == at;
                assert(all[k] == at);
            }
            if at == last && sessions[at as int].persona_name@ == name {
                assert(all[before.len() as int] == at);
            }
        }
    }
}

} // verus!
