use command_scheduler::calendar::{CalendarDate, Moment};
use command_scheduler::error::CommandError;
use command_scheduler::location::{needs_worktree_lookup, resolve_location, Location};
use command_scheduler::schedule::{
    build_schedule, is_shell_mode, schedule_command, schedule_id, ScheduleStatus,
};

fn moment(year: i32, month: u32, day: u32, hour: u32, minute: u32, second: u32) -> Moment {
    Moment { date: CalendarDate { year, month, day }, hour, minute, second }
}

fn here() -> Location {
    Location { path: "/work/repo".to_string(), branch: "main".to_string() }
}

#[test]
fn shell_mode_ignores_case() {
    assert!(is_shell_mode("shell"));
    assert!(is_shell_mode("SHELL"));
    assert!(is_shell_mode("Shell"));
    assert!(!is_shell_mode("agent"));
    assert!(!is_shell_mode("shell "));
    assert!(!is_shell_mode(""));
}

#[test]
fn schedule_ids_are_decimal_nanoseconds() {
    assert_eq!(schedule_id(0), "schedule_0");
    assert_eq!(schedule_id(1740821400123456789), "schedule_1740821400123456789");
    assert_eq!(schedule_id(-5), "schedule_-5");
    assert_eq!(schedule_id(i64::MIN), "schedule_-9223372036854775808");
    assert_ne!(schedule_id(1740821400123456789), schedule_id(1740821400123456790));
}

#[test]
fn built_schedule_holds_its_parts() {
    let s = build_schedule(
        "echo hi",
        &moment(2025, 3, 1, 9, 30, 0),
        "shell",
        Some("nightly"),
        here(),
        true,
        false,
        Some(42),
        &moment(2025, 1, 2, 3, 4, 5),
    );
    assert_eq!(s.id, "schedule_42");
    assert_eq!(s.command, "echo hi");
    assert_eq!(s.scheduled_time.as_deref(), Some("2025-03-01T09:30"));
    assert_eq!(s.memo, "nightly");
    assert_eq!(s.created_at, "2025-01-02 03:04:05");
    assert_eq!(s.status, ScheduleStatus::Pending);
    assert!(s.is_shell_mode);
    assert_eq!(s.branch, "main");
    assert_eq!(s.execution_path, "/work/repo");
    assert!(s.claude_skip_permissions);
    assert!(!s.claude_continue_from_last);
}

#[test]
fn built_schedule_defaults() {
    let s = build_schedule(
        "fix the tests",
        &moment(10000, 1, 1, 0, 0, 0),
        "agent",
        None,
        here(),
        false,
        true,
        None,
        &moment(-1, 12, 31, 23, 59, 59),
    );
    assert_eq!(s.id, "schedule_0");
    assert_eq!(s.memo, "");
    assert!(!s.is_shell_mode);
    assert_eq!(s.scheduled_time.as_deref(), Some("+10000-01-01T00:00"));
    assert_eq!(s.created_at, "-0001-12-31 23:59:59");
    assert!(s.claude_continue_from_last);
}

#[test]
fn schedule_one_nanosecond_apart_differs() {
    let make = |nanos: i64| {
        build_schedule(
            "ls",
            &moment(2025, 3, 1, 9, 30, 0),
            "shell",
            None,
            here(),
            false,
            false,
            Some(nanos),
            &moment(2025, 3, 1, 8, 0, 0),
        )
    };
    let first = make(1740818000000000000);
    let second = make(1740818000000000001);
    assert!(!first.id.is_empty());
    assert_ne!(first.id, second.id);
}

#[test]
fn schedule_command_for_a_fixed_date() {
    let s = schedule_command("ls -la", "09:30", "2025-03-01", "shell", here(), None, false, false)
        .expect("valid arguments");
    assert!(s.is_shell_mode);
    assert_eq!(s.status, ScheduleStatus::Pending);
    assert!(s.id.starts_with("schedule_"));
    assert!(s.id.len() > "schedule_".len());
    assert_eq!(s.scheduled_time.as_deref(), Some("2025-03-01T09:30"));
    assert_eq!(s.created_at.len(), 19);
}

#[test]
fn schedule_command_rejects_bad_input() {
    let bad_time = schedule_command("ls", "9h30", "today", "shell", here(), None, false, false);
    assert_eq!(bad_time.err(), Some(CommandError::InvalidTime));
    let bad_date = schedule_command("ls", "09:30", "someday", "shell", here(), None, false, false);
    assert_eq!(bad_date.err(), Some(CommandError::InvalidDate));
}

#[test]
fn worktree_with_branch_uses_its_path() {
    assert!(needs_worktree_lookup(true, &Some("feature".to_string())));
    let l = resolve_location(
        true,
        Some("feature".to_string()),
        "/work/repo".to_string(),
        "main".to_string(),
        Some("/work/feature".to_string()),
    )
    .unwrap();
    assert_eq!(l.path, "/work/feature");
    assert_eq!(l.branch, "feature");
}

#[test]
fn worktree_missing_is_an_error() {
    let r = resolve_location(
        true,
        Some("gone".to_string()),
        "/work/repo".to_string(),
        "main".to_string(),
        None,
    );
    assert_eq!(r.err(), Some(CommandError::WorktreeNotFound));
}

#[test]
fn worktree_without_branch_uses_current() {
    assert!(!needs_worktree_lookup(true, &None));
    assert!(!needs_worktree_lookup(false, &Some("feature".to_string())));
    let a = resolve_location(true, None, "/work/repo".to_string(), "main".to_string(), None)
        .unwrap();
    assert_eq!(a.path, "/work/repo");
    assert_eq!(a.branch, "main");
    let b = resolve_location(
        false,
        Some("feature".to_string()),
        "/work/repo".to_string(),
        "main".to_string(),
        Some("/work/feature".to_string()),
    )
    .unwrap();
    assert_eq!(b.path, "/work/repo");
    assert_eq!(b.branch, "main");
}
