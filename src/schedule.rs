//! Building the schedule record that is handed to the store.

use chrono::Utc;
use vstd::prelude::*;
use crate::calendar::{CalendarDate, Moment, format_moment, local_now, minute_stamp, second_stamp};
use crate::error::CommandError;
use crate::location::Location;
use crate::text::{
    decimal, digit_char, is_digit, lower_of, lowercase, push_char, push_decimal, signed_decimal,
    text_equals,
};
use crate::validate::{scheduled_moment, validate_schedule_time};

verus! {

/// Lifecycle of a schedule. Only `Pending` is produced here; the others are
/// set by whatever later runs the schedule.
#[derive(Clone, Copy, Debug, PartialEq, Eq, Structural)]
pub enum ScheduleStatus {
    Pending,
    Running,
    Completed,
    Failed,
    Cancelled,
}

/// A command to run at a later time.
#[derive(Debug)]
pub struct Schedule {
    pub id: String,
    pub command: String,
    /// `YYYY-MM-DDTHH:MM`.
    pub scheduled_time: Option<String>,
    pub memo: String,
    /// `YYYY-MM-DD HH:MM:SS`, local time.
    pub created_at: String,
    pub status: ScheduleStatus,
    pub is_shell_mode: bool,
    pub branch: String,
    pub execution_path: String,
    pub claude_skip_permissions: bool,
    pub claude_continue_from_last: bool,
}

/// The identifier of a schedule created at `nanos` nanoseconds since the epoch.
pub open spec fn schedule_id_text(nanos: int) -> Seq<char> {
    "schedule_"@ + signed_decimal(nanos)
}

pub open spec fn memo_text(memo: Option<&str>) -> Seq<char> {
    match memo {
        Some(m) => m@,
        None => Seq::empty(),
    }
}

/// Whether a mode argument selects shell mode (compared without regard to case).
pub open spec fn is_shell_mode_spec(mode: Seq<char>) -> bool {
    lower_of(mode) == "shell"@
}

/// Relies on `chrono::Utc::now` and `DateTime::timestamp_nanos_opt`:
/// nanoseconds since the Unix epoch, if they fit in an `i64`.
#[verifier::external_body]
fn utc_now_nanos() -> (r: Option<i64>) {
    Utc::now().timestamp_nanos_opt()
}

/// `shell` in any letter case selects shell mode; anything else the agent.
pub fn is_shell_mode(mode: &str) -> (r: bool)
    ensures
        r == is_shell_mode_spec(mode@),
{
    let lowered = lowercase(mode);
    text_equals(lowered.as_str(), "shell")
}

/// The identifier `schedule_<nanos>`.
pub fn schedule_id(nanos: i64) -> (r: String)
    ensures
        r@ == schedule_id_text(nanos as int),
{
    let mut id = String::from_str("schedule_");
    if nanos < 0 {
        push_char(&mut id, '-');
        let magnitude: u64 = (-(nanos + 1)) as u64 + 1;
        push_decimal(&mut id, magnitude);
        assert(id@ =~= schedule_id_text(nanos as int));
    } else {
        push_decimal(&mut id, nanos as u64);
    }
    id
}

/// Assembles a pending schedule from resolved and validated parts.
pub fn build_schedule(
    command: &str,
    scheduled: &Moment,
    mode: &str,
    memo: Option<&str>,
    location: Location,
    skip_permissions: bool,
    continue_from_last: bool,
    id_nanos: Option<i64>,
    created: &Moment,
) -> (r: Schedule)
    requires
        scheduled.wf(),
        created.wf(),
    ensures
        r.id@ == schedule_id_text(
            match id_nanos {
                Some(n) => n as int,
                None => 0,
            },
        ),
        r.command@ == command@,
        r.scheduled_time matches Some(t) && t@ == minute_stamp(*scheduled),
        r.memo@ == memo_text(memo),
        r.created_at@ == second_stamp(*created),
        r.status == ScheduleStatus::Pending,
        r.is_shell_mode == is_shell_mode_spec(mode@),
        r.branch == location.branch,
        r.execution_path == location.path,
        r.claude_skip_permissions == skip_permissions,
        r.claude_continue_from_last == continue_from_last,
{
    let nanos = match id_nanos {
        Some(n) => n,
        None => 0,
    };
    let memo_string = match memo {
        Some(m) => String::from_str(m),
        None => String::new(),
    };
    Schedule {
        id: schedule_id(nanos),
        command: String::from_str(command),
        scheduled_time: Some(format_moment(scheduled, "%Y-%m-%dT%H:%M")),
        memo: memo_string,
        created_at: format_moment(created, "%Y-%m-%d %H:%M:%S"),
        status: ScheduleStatus::Pending,
        is_shell_mode: is_shell_mode(mode),
        branch: location.branch,
        execution_path: location.path,
        claude_skip_permissions: skip_permissions,
        claude_continue_from_last: continue_from_last,
    }
}

/// Validates the date and time against the local clock's current day and
/// builds a pending schedule at the resolved location. Fails exactly as
/// validation fails for that day.
pub fn schedule_command(
    command: &str,
    time: &str,
    date: &str,
    mode: &str,
    location: Location,
    memo: Option<&str>,
    skip_permissions: bool,
    continue_from_last: bool,
) -> (r: Result<Schedule, CommandError>)
    ensures
        r matches Err(e) ==> exists|today: CalendarDate|
            today.wf() && #[trigger] scheduled_moment(date@, time@, today) == Err::<
                Moment,
                CommandError,
            >(e),
        r matches Ok(s) ==> exists|today: CalendarDate|
            today.wf() && (#[trigger] scheduled_moment(date@, time@, today) matches Ok(m) && (
            s.scheduled_time matches Some(t) && t@ == minute_stamp(m))),
        r matches Ok(s) ==> s.status == ScheduleStatus::Pending && s.command@ == command@
            && s.is_shell_mode == is_shell_mode_spec(mode@) && s.memo@ == memo_text(memo)
            && s.branch == location.branch && s.execution_path == location.path
            && s.claude_skip_permissions == skip_permissions && s.claude_continue_from_last
            == continue_from_last,
{
    let now = local_now();
    let due = validate_schedule_time(date, time, &now.date);
    assert(now.date.wf());
    match due {
        Err(e) => {
            assert(scheduled_moment(date@, time@, now.date) == Err::<Moment, CommandError>(e));
            Err(e)
        },
        Ok(m) => {
            let nanos = utc_now_nanos();
            let s = build_schedule(
                command,
                &m,
                mode,
                memo,
                location,
                skip_permissions,
                continue_from_last,
                nanos,
                &now,
            );
            assert(scheduled_moment(date@, time@, now.date) matches Ok(m2) && m2 == m);
            Ok(s)
        },
    }
}

proof fn lemma_decimal_shape(n: nat)
    ensures
        decimal(n).len() >= 1,
        is_digit(decimal(n)[0]),
        n < 10 <==> decimal(n).len() == 1,
        decimal(n).last() == digit_char(n % 10),
        n >= 10 ==> decimal(n).drop_last() == decimal(n / 10),
    decreases n,
{
    if n >= 10 {
        lemma_decimal_shape(n / 10);
        assert(decimal(n).drop_last() =~= decimal(n / 10));
    }
}

proof fn lemma_decimal_injective(a: nat, b: nat)
    requires
        decimal(a) == decimal(b),
    ensures
        a == b,
    decreases a,
{
    lemma_decimal_shape(a);
    lemma_decimal_shape(b);
    assert(digit_char(a % 10) == digit_char(b % 10));
    assert(a % 10 == b % 10);
    if a >= 10 {
        lemma_decimal_injective(a / 10, b / 10);
    }
}

/// Schedules created at different instants get different identifiers, and
/// an identifier is never empty.
pub proof fn schedule_ids_distinct(a: int, b: int)
    requires
        a != b,
    ensures
        schedule_id_text(a) != schedule_id_text(b),
        schedule_id_text(a).len() > 0,
{
    reveal_strlit("schedule_");
    let ta = schedule_id_text(a);
    let tb = schedule_id_text(b);
    if ta == tb {
        assert(ta.skip(9) =~= signed_decimal(a));
        assert(tb.skip(9) =~= signed_decimal(b));
        let ma: nat = if a < 0 { (-a) as nat } else { a as nat };
        let mb: nat = if b < 0 { (-b) as nat } else { b as nat };
        lemma_decimal_shape(ma);
        lemma_decimal_shape(mb);
        if a < 0 && b < 0 {
            assert(signed_decimal(a).skip(1) =~= decimal(ma));
            assert(signed_decimal(b).skip(1) =~= decimal(mb));
            lemma_decimal_injective(ma, mb);
        } else if a >= 0 && b >= 0 {
            lemma_decimal_injective(ma, mb);
        } else {
            assert(signed_decimal(a)[0] != signed_decimal(b)[0]);
        }
    }
}

} // verus!
