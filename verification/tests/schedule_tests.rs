use scheduler::{
    CombinedSchedule, CronSchedule, IntervalSchedule, Job, OneTimeSchedule,
    RandomIntervalSchedule, Schedule, SchedulerError, Timestamp,
};

fn ymd_hms(year: u16, month: u8, day: u8, hour: u8, minute: u8, second: u8) -> Timestamp {
    Timestamp::from_ymd_hms(year, month, day, hour, minute, second).unwrap()
}

#[test]
fn test_specific_datetime() {
    let now = Timestamp::now();
    let today = now.civil();

    // 20 Sept 10:00 pm of the current year, or of the next one if past
    let target_year: u16 = if today.month > 9 || (today.month == 9 && today.day > 20) {
        today.year + 1
    } else {
        today.year
    };
    let specific_time = ymd_hms(target_year, 9, 20, 22, 0, 0);

    let schedule = OneTimeSchedule::new(specific_time).unwrap();

    let one_day_before = specific_time.minus_seconds(86400).unwrap();
    assert_eq!(schedule.next_occurrence(one_day_before), Some(specific_time));

    let one_minute_after = specific_time.plus_seconds(60).unwrap();
    assert_eq!(schedule.next_occurrence(one_minute_after), None);

    let mut job = Job::builder()
        .schedule(Schedule::OneTime(schedule))
        .task("Specific date/time task")
        .build()
        .unwrap();

    assert!(job.should_execute(one_day_before).is_none());
    assert!(job.should_execute(specific_time).is_some());
    assert_eq!(job.repeats, 1);

    let one_second_after = specific_time.plus_seconds(1).unwrap();
    assert!(job.should_execute(one_second_after).is_none());
}

#[test]
fn test_repetition_scenario() {
    // "10 times hourly, until 3rd of March"
    let start_time = ymd_hms(2023, 3, 1, 0, 0, 0);
    let end_time = ymd_hms(2023, 3, 3, 23, 59, 59);
    let interval: u64 = 3600;
    let schedule = IntervalSchedule::new(interval, start_time)
        .unwrap()
        .with_end_time(end_time);

    let mut job = Job::builder()
        .schedule(Schedule::Interval(schedule))
        .task("Hourly task with repetition limit")
        .max_repeats(10)
        .end_time(end_time)
        .build()
        .unwrap();

    assert!(job.should_execute(start_time).is_some());
    assert_eq!(job.repeats, 1);

    for i in 1u32..10 {
        let next_time = start_time.plus_seconds(interval * i as u64).unwrap();
        assert!(job.should_execute(next_time).is_some());
        assert_eq!(job.repeats, i + 1);
    }

    let eleventh_time = start_time.plus_seconds(interval * 10).unwrap();
    assert!(job.should_execute(eleventh_time).is_none());
    assert_eq!(job.repeats, 10);

    // with the end time as the binding constraint
    let start_time = ymd_hms(2023, 3, 1, 0, 0, 0);
    let end_time = ymd_hms(2023, 3, 2, 5, 0, 0);
    let schedule = IntervalSchedule::new(interval, start_time).unwrap();

    let mut job = Job::builder()
        .schedule(Schedule::Interval(schedule))
        .task("Hourly task with end time")
        .max_repeats(10)
        .end_time(end_time)
        .build()
        .unwrap();

    for i in 0u32..5 {
        let time = start_time.plus_seconds(interval * i as u64).unwrap();
        assert!(job.should_execute(time).is_some(), "Failed at hour {}", i);
    }

    let at_end_time = end_time;
    assert!(
        job.should_execute(at_end_time).is_none(),
        "Should not execute at end_time"
    );

    let after_end_time = end_time.plus_seconds(1).unwrap();
    assert!(
        job.should_execute(after_end_time).is_none(),
        "Should not execute after end_time"
    );
}

#[test]
fn test_one_time_schedule() {
    let now = Timestamp::now();
    let future_time = now.plus_seconds(3600).unwrap();

    let schedule = OneTimeSchedule::new(future_time).unwrap();
    assert_eq!(schedule.next_occurrence(now), Some(future_time));
    assert_eq!(schedule.next_occurrence(future_time), None);
    assert_eq!(
        schedule.next_occurrence(future_time.plus_seconds(1).unwrap()),
        None
    );
}

#[test]
fn test_one_time_schedule_in_past() {
    let now = Timestamp::now();
    let past_time = now.minus_seconds(3600).unwrap();

    let result = OneTimeSchedule::new(past_time);
    assert!(matches!(result, Err(SchedulerError::TimeInPast)));
}

#[test]
fn test_recurring_intervals() {
    // "hourly, daily, weekly, monthly, every third Saturday"
    let base_date = ymd_hms(2023, 1, 1, 0, 0, 0); // Sunday, Jan 1, 2023

    // 1. Hourly schedule
    let hourly_interval: u64 = 3600;
    let hourly_schedule = IntervalSchedule::new(hourly_interval, base_date).unwrap();

    assert_eq!(
        hourly_schedule.next_occurrence(base_date),
        Some(base_date.plus_seconds(hourly_interval).unwrap())
    );
    assert_eq!(
        hourly_schedule.next_occurrence(base_date.plus_seconds(hourly_interval).unwrap()),
        Some(base_date.plus_seconds(hourly_interval * 2).unwrap())
    );

    // 2. Daily schedule (cron at midnight each day)
    let daily_schedule = CronSchedule::new().hour(0).unwrap().minute(0).unwrap();

    let day1 = base_date;
    let day2 = ymd_hms(2023, 1, 2, 0, 0, 0);

    assert_eq!(
        daily_schedule.next_occurrence(day1.plus_seconds(3600).unwrap()),
        Some(day2)
    );
    assert_eq!(
        daily_schedule.next_occurrence(day2.plus_seconds(3600).unwrap()),
        Some(day2.plus_seconds(86400).unwrap())
    );

    // 3. Weekly schedule (every Monday at 9am; weekday 0 is Monday)
    let weekly_schedule = CronSchedule::new()
        .weekday(0)
        .unwrap()
        .hour(9)
        .unwrap()
        .minute(0)
        .unwrap();

    // Jan 1, 2023 is a Sunday, so next Monday is Jan 2
    let next_monday = ymd_hms(2023, 1, 2, 9, 0, 0);
    let following_monday = ymd_hms(2023, 1, 9, 9, 0, 0);

    assert_eq!(
        weekly_schedule.next_occurrence(base_date),
        Some(next_monday)
    );
    let after_first_monday = next_monday.plus_seconds(60).unwrap();
    assert_eq!(
        weekly_schedule.next_occurrence(after_first_monday),
        Some(following_monday)
    );

    // 4. Monthly schedule (1st day of each month at noon)
    let monthly_schedule = CronSchedule::new()
        .day(1)
        .unwrap()
        .hour(12)
        .unwrap()
        .minute(0)
        .unwrap();

    let first_of_jan = ymd_hms(2023, 1, 1, 12, 0, 0);
    let first_of_feb = ymd_hms(2023, 2, 1, 12, 0, 0);

    assert_eq!(
        monthly_schedule.next_occurrence(base_date),
        Some(first_of_jan)
    );
    assert_eq!(
        monthly_schedule.next_occurrence(first_of_jan.plus_seconds(3600).unwrap()),
        Some(first_of_feb)
    );

    // 5. Saturdays at 10am (weekday 5 is Saturday)
    let third_saturday_schedule = CronSchedule::new()
        .weekday(5)
        .unwrap()
        .hour(10)
        .unwrap()
        .minute(0)
        .unwrap();

    // Jan 7, Jan 14, Jan 21 are the first three Saturdays of 2023
    let first_saturday = ymd_hms(2023, 1, 7, 10, 0, 0);
    let second_saturday = ymd_hms(2023, 1, 14, 10, 0, 0);
    let third_saturday = ymd_hms(2023, 1, 21, 10, 0, 0);

    assert_eq!(
        third_saturday_schedule.next_occurrence(base_date),
        Some(first_saturday)
    );
    assert_eq!(
        third_saturday_schedule.next_occurrence(first_saturday.plus_seconds(3600).unwrap()),
        Some(second_saturday)
    );
    assert_eq!(
        third_saturday_schedule.next_occurrence(second_saturday.plus_seconds(3600).unwrap()),
        Some(third_saturday)
    );

    let mut job = Job::builder()
        .schedule(Schedule::Cron(third_saturday_schedule))
        .task("Third Saturday task")
        .build()
        .unwrap();

    assert!(job.should_execute(first_saturday).is_some());
    assert!(job.should_execute(second_saturday).is_some());
    assert!(job.should_execute(third_saturday).is_some());
}

#[test]
fn test_interval_schedule() {
    let start_time = ymd_hms(2023, 1, 1, 0, 0, 0);
    let interval: u64 = 3600;

    let schedule = IntervalSchedule::new(interval, start_time).unwrap();

    assert_eq!(
        schedule.next_occurrence(start_time.minus_seconds(1).unwrap()),
        Some(start_time)
    );
    assert_eq!(
        schedule.next_occurrence(start_time),
        Some(start_time.plus_seconds(interval).unwrap())
    );
    assert_eq!(
        schedule.next_occurrence(start_time.plus_seconds(interval).unwrap()),
        Some(start_time.plus_seconds(interval * 2).unwrap())
    );
}

#[test]
fn test_interval_schedule_with_end() {
    let start_time = ymd_hms(2023, 1, 1, 0, 0, 0);
    let end_time = start_time.plus_seconds(7200).unwrap();
    let interval: u64 = 3600;

    let schedule = IntervalSchedule::new(interval, start_time)
        .unwrap()
        .with_end_time(end_time);

    assert_eq!(
        schedule.next_occurrence(start_time),
        Some(start_time.plus_seconds(interval).unwrap())
    );
    assert_eq!(
        schedule.next_occurrence(start_time.plus_seconds(interval).unwrap()),
        Some(start_time.plus_seconds(interval * 2).unwrap())
    );
    assert_eq!(
        schedule.next_occurrence(start_time.plus_seconds(interval * 2).unwrap()),
        None
    );
}

#[test]
fn test_random_intervals() {
    // "Random intervals, eg: between 9-10 am"
    let base_date = ymd_hms(2023, 1, 1, 0, 0, 0);

    // 1. Basic random interval
    let min: u64 = 60;
    let max: u64 = 120;
    let schedule = RandomIntervalSchedule::new(min, max)
        .unwrap()
        .with_start_time(base_date);

    let next = schedule.next_occurrence(base_date).unwrap();
    assert!(
        next.epoch_seconds() >= base_date.plus_seconds(min).unwrap().epoch_seconds(),
        "Next occurrence should be at least min interval after start time"
    );
    assert!(
        next.epoch_seconds() <= base_date.plus_seconds(max).unwrap().epoch_seconds(),
        "Next occurrence should be at most max interval after start time"
    );

    // 2. A job whose schedule samples a morning window from 9 am
    let nine_am = ymd_hms(2023, 1, 1, 9, 0, 0);

    let morning_min: u64 = 60;
    let morning_max: u64 = 300;

    let morning_schedule = RandomIntervalSchedule::new(morning_min, morning_max)
        .unwrap()
        .with_start_time(nine_am);

    let mut job = Job::builder()
        .schedule(Schedule::RandomInterval(morning_schedule))
        .task("Random morning task")
        .build()
        .unwrap();

    let mut found_valid_execution = false;
    for i in 1u64..=10 {
        job = Job::builder()
            .schedule(Schedule::RandomInterval(
                RandomIntervalSchedule::new(morning_min, morning_max)
                    .unwrap()
                    .with_start_time(nine_am),
            ))
            .task("Random morning task")
            .build()
            .unwrap();

        let test_time = nine_am.plus_seconds(i * 30).unwrap();
        if job.should_execute(test_time).is_some() {
            found_valid_execution = true;
            break;
        }
    }
    assert!(
        found_valid_execution,
        "Job should execute at some time within the random interval"
    );

    let before_start = nine_am.minus_seconds(1).unwrap();
    assert!(job.should_execute(before_start).is_none());
}

#[test]
fn test_random_interval_schedule() {
    let min: u64 = 60;
    let max: u64 = 120;
    let start_time = ymd_hms(2023, 1, 1, 0, 0, 0);

    let schedule = RandomIntervalSchedule::new(min, max)
        .unwrap()
        .with_start_time(start_time);

    let next = schedule.next_occurrence(start_time).unwrap();
    assert!(next.epoch_seconds() >= start_time.plus_seconds(min).unwrap().epoch_seconds());
    assert!(next.epoch_seconds() <= start_time.plus_seconds(max).unwrap().epoch_seconds());
}

#[test]
fn test_cron_schedule_daily() {
    let schedule = CronSchedule::new().hour(12).unwrap().minute(0).unwrap();

    let morning = ymd_hms(2023, 1, 1, 8, 0, 0);
    let expected = ymd_hms(2023, 1, 1, 12, 0, 0);

    assert_eq!(schedule.next_occurrence(morning), Some(expected));

    let afternoon = ymd_hms(2023, 1, 1, 13, 0, 0);
    let expected_next_day = ymd_hms(2023, 1, 2, 12, 0, 0);

    assert_eq!(schedule.next_occurrence(afternoon), Some(expected_next_day));
}

#[test]
fn test_cron_schedule_monthly() {
    let schedule = CronSchedule::new()
        .day(15)
        .unwrap()
        .hour(0)
        .unwrap()
        .minute(0)
        .unwrap();

    let early_month = ymd_hms(2023, 1, 1, 0, 0, 0);
    let expected = ymd_hms(2023, 1, 15, 0, 0, 0);

    assert_eq!(schedule.next_occurrence(early_month), Some(expected));

    let late_month = ymd_hms(2023, 1, 16, 0, 0, 0);
    let expected_next_month = ymd_hms(2023, 2, 15, 0, 0, 0);

    assert_eq!(
        schedule.next_occurrence(late_month),
        Some(expected_next_month)
    );
}

#[test]
fn test_job_execution() {
    let start_time = ymd_hms(2023, 1, 1, 0, 0, 0);
    let interval: u64 = 3600;
    let schedule = IntervalSchedule::new(interval, start_time).unwrap();

    let mut job = Job::builder()
        .schedule(Schedule::Interval(schedule))
        .task("Test task")
        .max_repeats(2)
        .build()
        .unwrap();

    // First execution
    assert!(job.should_execute(start_time).is_some());
    assert_eq!(job.repeats, 1);

    // Between first and second
    assert!(job
        .should_execute(start_time.plus_seconds(1800).unwrap())
        .is_none());

    // Second execution
    assert!(job
        .should_execute(start_time.plus_seconds(interval).unwrap())
        .is_some());
    assert_eq!(job.repeats, 2);

    // Third execution should not happen due to max_repeats
    assert!(job
        .should_execute(start_time.plus_seconds(interval * 2).unwrap())
        .is_none());
}

#[test]
fn test_mixture_scenario() {
    // "Every hour until 10pm and then every minute for the next 1 hour"
    let base_date = ymd_hms(2023, 3, 1, 0, 0, 0);

    let hourly_start = base_date;
    let hourly_end = ymd_hms(2023, 3, 1, 22, 0, 0);
    let hourly_interval: u64 = 3600;
    let hourly_schedule = IntervalSchedule::new(hourly_interval, hourly_start)
        .unwrap()
        .with_end_time(hourly_end);

    let minutely_start = hourly_end;
    let minutely_end = minutely_start.plus_seconds(3600).unwrap();
    let minutely_interval: u64 = 60;
    let minutely_schedule = IntervalSchedule::new(minutely_interval, minutely_start)
        .unwrap()
        .with_end_time(minutely_end);

    let combined = CombinedSchedule::new(vec![
        Schedule::Interval(hourly_schedule),
        Schedule::Interval(minutely_schedule),
    ]);

    let test_time = base_date;
    let expected_first_hour = base_date.plus_seconds(3600).unwrap();
    assert_eq!(
        combined.next_occurrence(test_time),
        Some(expected_first_hour)
    );

    let test_9pm = ymd_hms(2023, 3, 1, 21, 0, 0);
    let expected_10pm = ymd_hms(2023, 3, 1, 22, 0, 0);
    assert_eq!(combined.next_occurrence(test_9pm), Some(expected_10pm));

    let test_10pm = ymd_hms(2023, 3, 1, 22, 0, 0);
    let expected_10_01pm = test_10pm.plus_seconds(60).unwrap();
    assert_eq!(combined.next_occurrence(test_10pm), Some(expected_10_01pm));

    let test_10_30pm = ymd_hms(2023, 3, 1, 22, 30, 0);
    let expected_10_31pm = test_10_30pm.plus_seconds(60).unwrap();
    assert_eq!(
        combined.next_occurrence(test_10_30pm),
        Some(expected_10_31pm)
    );

    let test_10_59pm = ymd_hms(2023, 3, 1, 22, 59, 0);
    let expected_11pm = ymd_hms(2023, 3, 1, 23, 0, 0);
    assert_eq!(combined.next_occurrence(test_10_59pm), Some(expected_11pm));

    let test_11pm = ymd_hms(2023, 3, 1, 23, 0, 0);
    assert_eq!(combined.next_occurrence(test_11pm), None);

    let mut job = Job::builder()
        .schedule(Schedule::Combined(combined))
        .task("Mixed schedule task")
        .build()
        .unwrap();

    assert!(job.should_execute(expected_first_hour).is_some());
    assert!(job.should_execute(expected_10pm).is_some());
    assert!(job.should_execute(expected_10_01pm).is_some());
    assert!(job.should_execute(expected_10_31pm).is_some());
    assert!(job.should_execute(expected_11pm).is_some());

    let after_all_schedules = expected_11pm.plus_seconds(60).unwrap();
    assert!(job.should_execute(after_all_schedules).is_none());
}
