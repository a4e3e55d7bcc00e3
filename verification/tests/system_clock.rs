use passenger_resource_management::application::ports::Clock;
use passenger_resource_management::infrastructure::fake_clock::FakeClock;
use passenger_resource_management::infrastructure::server_clock::ServerClock;
use passenger_resource_management::infrastructure::system_clock::{epoch_timestamp, SystemClock};

#[test]
fn system_clock_now_returns_positive_timestamp() {
    let t = SystemClock.now();
    assert!(
        t.0 > 0,
        "SystemClock::now() returned a non-positive timestamp"
    );
}

#[test]
fn system_clock_now_is_monotonically_non_decreasing() {
    let t1 = SystemClock.now();
    let t2 = SystemClock.now();
    assert!(
        t2.0 >= t1.0,
        "second call returned an earlier timestamp than first"
    );
}

#[test]
fn epoch_timestamp_maps_nanoseconds_and_clamps_pre_epoch_readings() {
    assert_eq!(epoch_timestamp(None).0, 0);
    assert_eq!(epoch_timestamp(Some(5)).0, 5);
    assert_eq!(epoch_timestamp(Some(1_700_000_000_000_000_000)).0, 1_700_000_000_000_000_000);
    assert_eq!(epoch_timestamp(Some(1u128 << 63)).0, i64::MIN);
}

#[test]
fn server_clock_reads_the_chosen_clock() {
    let mut fake = ServerClock::Fake(FakeClock::starting_at(5));
    assert_eq!(fake.now().0, 5);
    assert_eq!(fake.now().0, 6);
    let mut wall = ServerClock::System(SystemClock);
    assert!(wall.now().0 > 0);
}
