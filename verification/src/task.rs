//! The options of a scheduled task, as the task service takes them.

use vstd::prelude::*;

verus! {

/// When a task runs, as a statement says it.
#[derive(Debug, Clone, PartialEq, Eq)]
pub enum ScheduleOptions {
    /// Every so many seconds.
    IntervalSecs(u64),
    /// By a cron expression, in a time zone where one is given.
    CronExpression(String, Option<String>),
}

/// Where a task runs, as a statement says it.
#[derive(Debug, Clone, PartialEq, Eq)]
pub struct WarehouseOptions {
    pub warehouse: Option<String>,
}

/// The kind of a schedule, as the task service numbers it.
#[derive(Debug, Clone, Copy, PartialEq, Eq, Structural)]
pub enum ScheduleType {
    IntervalType,
    CronType,
}

/// The number of a schedule kind.
pub open spec fn schedule_type_number(kind: ScheduleType) -> i32 {
    match kind {
        ScheduleType::IntervalType => 0,
        ScheduleType::CronType => 1,
    }
}

impl ScheduleType {
    /// The number of this kind.
    pub fn number(self) -> (n: i32)
        ensures
            n == schedule_type_number(self),
    {
        match self {
            ScheduleType::IntervalType => 0,
            ScheduleType::CronType => 1,
        }
    }
}

/// When a task runs, as the task service takes it.
#[derive(Debug, Clone, PartialEq, Eq)]
pub struct TaskScheduleOptions {
    pub interval: Option<i32>,
    pub cron: Option<String>,
    pub time_zone: Option<String>,
    pub schedule_type: i32,
}

/// Where a task runs, as the task service takes it.
#[derive(Debug, Clone, PartialEq, Eq)]
pub struct TaskWarehouseOptions {
    pub warehouse: Option<String>,
    pub using_warehouse_size: Option<String>,
}

/// The low 32 bits of a number of seconds, read as a signed number.
pub open spec fn truncated_seconds(secs: u64) -> i32 {
    let low = secs as int % 0x1_0000_0000;
    if low >= 0x8000_0000 {
        (low - 0x1_0000_0000) as i32
    } else {
        low as i32
    }
}

fn truncate_seconds(secs: u64) -> (r: i32)
    ensures
        r == truncated_seconds(secs),
{
    let low: u64 = secs % 0x1_0000_0000;
    if low >= 0x8000_0000 {
        let down: u64 = 0x1_0000_0000 - low;
        let magnitude: i64 = down as i64;
        (0 - magnitude) as i32
    } else {
        low as i32
    }
}

/// The schedule of a task as the task service takes it. An interval keeps the low 32 bits
/// of its seconds.
pub fn make_schedule_options(opt: ScheduleOptions) -> (r: TaskScheduleOptions)
    ensures
        match opt {
            ScheduleOptions::IntervalSecs(secs) => r == (TaskScheduleOptions {
                interval: Some(truncated_seconds(secs)),
                cron: None,
                time_zone: None,
                schedule_type: schedule_type_number(ScheduleType::IntervalType),
            }),
            ScheduleOptions::CronExpression(expr, timezone) => r == (TaskScheduleOptions {
                interval: None,
                cron: Some(expr),
                time_zone: timezone,
                schedule_type: schedule_type_number(ScheduleType::CronType),
            }),
        },
{
    match opt {
        ScheduleOptions::IntervalSecs(secs) => TaskScheduleOptions {
            interval: Some(truncate_seconds(secs)),
            cron: None,
            time_zone: None,
            schedule_type: ScheduleType::IntervalType.number(),
        },
        ScheduleOptions::CronExpression(expr, timezone) => TaskScheduleOptions {
            interval: None,
            cron: Some(expr),
            time_zone: timezone,
            schedule_type: ScheduleType::CronType.number(),
        },
    }
}

/// The warehouse of a task as the task service takes it. No size is asked for.
pub fn make_warehouse_options(opt: WarehouseOptions) -> (r: TaskWarehouseOptions)
    ensures
        r == (TaskWarehouseOptions { warehouse: opt.warehouse, using_warehouse_size: None }),
{
    let mut ret = TaskWarehouseOptions { warehouse: None, using_warehouse_size: None };
    if let Some(warehouse) = opt.warehouse {
        ret.warehouse = Some(warehouse);
    }
    ret
}

} // verus!
