use vault_core::remaining_time::RemainingTime;

fn split(total_seconds: f64) -> RemainingTime {
    let whole = total_seconds.floor();
    RemainingTime::from_whole_seconds(whole as u64, total_seconds > whole)
}

#[test]
fn test_remaining_time_from_seconds() {
    let remaining_time = split(50.0 * 3600.0 + 45.0 * 60.0 + 30.0 + 0.7);

    assert_eq!(
        remaining_time,
        RemainingTime {
            days: 2,
            hours: 2,
            minutes: 45,
            seconds: 31,
        }
    )
}

#[test]
fn remaining_time_whole_seconds_are_not_rounded() {
    let r = RemainingTime::from_whole_seconds(86400 + 3600 + 60 + 1, false);
    assert_eq!(r, RemainingTime { days: 1, hours: 1, minutes: 1, seconds: 1 });
}

#[test]
fn remaining_time_zero() {
    assert_eq!(
        RemainingTime::from_whole_seconds(0, false),
        RemainingTime { days: 0, hours: 0, minutes: 0, seconds: 0 }
    );
    assert_eq!(
        RemainingTime::from_whole_seconds(0, true),
        RemainingTime { days: 0, hours: 0, minutes: 0, seconds: 1 }
    );
}
