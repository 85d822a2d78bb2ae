use overmax::telemetry::{
    capture_summary, clock_text, format_window_observation, next_output_generation, percentile_95, DeliveryCounters, TimingAggregator,
    WindowObservation,
};

#[test]
fn timing_aggregator_avg_and_max() {
    let mut agg = TimingAggregator::default();
    agg.update(1000);
    agg.update(3000);
    agg.update(2000);

    assert_eq!(agg.count, 3);
    assert_eq!(agg.total_us, 6000);
    assert_eq!(agg.max_us, 3000);
    assert_eq!(agg.avg_us(), 2000);
    // The millisecond forms are the microsecond values divided by 1000.
    assert_eq!(agg.avg_us() as f32 / 1000.0, 2.0);
    assert_eq!(agg.max_us as f32 / 1000.0, 3.0);

    agg.reset();
    assert_eq!(agg.count, 0);
    assert_eq!(agg.total_us, 0);
    assert_eq!(agg.max_us, 0);
    assert_eq!(agg.avg_us(), 0);
}

#[test]
fn average_rounds_down_and_stays_below_maximum() {
    let mut agg = TimingAggregator::default();
    agg.update(1);
    agg.update(2);
    assert_eq!(agg.avg_us(), 1);
    assert!(agg.avg_us() <= agg.max_us);
}

#[test]
fn capture_p95_and_generations() {
    assert_eq!(percentile_95(&[10, 20, 30, 40, 50]), 50);
    assert_eq!(percentile_95(&[]), 0);
    assert_eq!(percentile_95(&[7]), 7);
    let samples: Vec<u64> = (1..=100).collect();
    assert_eq!(percentile_95(&samples), 95);
    assert_eq!(next_output_generation(0), 1);
    assert_eq!(next_output_generation(1), 2);
    assert_eq!(next_output_generation(u64::MAX), 1);
}

#[test]
fn log_clock_is_korean_time_of_day() {
    assert_eq!(clock_text(0, 5), "09:00:00.005");
    assert_eq!(clock_text(86_399, 999), "08:59:59.999");
    assert_eq!(clock_text(1_700_000_000, 123), "07:13:20.123");
}

#[test]
fn window_observation_log_line() {
    let w = WindowObservation {
        target_xid: 0x3a0000f,
        active_xid: Some(255),
        active_in_client_list: Some(false),
        rect: (10, -20, 1920, 1080),
        foreground: true,
        fullscreen: false,
    };
    assert_eq!(
        format_window_observation(w),
        "target=0x3a0000f,active=0xff,active_client=no,rect=1920x1080@10,-20 foreground=true fullscreen=false"
    );
    let none = WindowObservation { active_xid: None, active_in_client_list: None, target_xid: 0, ..w };
    assert_eq!(
        format_window_observation(none),
        "target=0x0,active=none,active_client=unknown,rect=1920x1080@10,-20 foreground=true fullscreen=false"
    );
}

#[test]
fn runtime_delivery_generations_and_capture_p95_are_stable() {
    let mut c = DeliveryCounters::new();
    let first = c.record_output_generated();
    c.start_session();
    let delivery = c.record_output_generated();
    c.record_output_drained(delivery, 120);
    c.record_publish(delivery, true, Some(30));
    c.record_snapshot_applied(delivery, Some(40));
    assert!(c.record_snapshot_presented(delivery, 50));
    assert!(!c.record_snapshot_presented(delivery, 60));

    assert_eq!(first, 1);
    assert_eq!(delivery, 2);
    assert_eq!(c.outputs_generated, 1);
    assert_eq!(c.last_drained_generation, 2);
    assert_eq!(c.last_published_generation, 2);
    assert_eq!(c.last_applied_generation, 2);
    assert_eq!(c.last_presented_generation, 2);
    assert_eq!(c.snapshots_presented, 1);
    assert_eq!(c.apply_to_present.count, 1);
    assert_eq!(c.apply_to_present.max_us, 50);
    assert_eq!(c.output_to_drain.total_us, 120);
    assert_eq!(percentile_95(&[10, 20, 30, 40, 50]), 50);
}

#[test]
fn rejected_publish_only_counts_the_call() {
    let mut c = DeliveryCounters::new();
    c.record_publish(7, false, Some(10));
    assert_eq!(c.publish_calls, 1);
    assert_eq!(c.publish_accepted, 0);
    assert_eq!(c.last_published_generation, 0);
    assert_eq!(c.drain_to_publish.count, 0);
    c.record_capture_attempt();
    c.record_capture_success(900);
    c.record_capture_failure();
    assert_eq!((c.capture_attempts, c.capture_successes, c.capture_failures), (1, 1, 1));
    assert_eq!(c.capture_samples_us, vec![900]);
    c.reset_interval();
    assert_eq!((c.capture_attempts, c.publish_calls), (0, 0));
    assert!(c.capture_samples_us.is_empty());
    assert!(!c.session_started);
}

#[test]
fn capture_summary_gives_mean_p95_and_maximum() {
    assert_eq!(capture_summary(&[]), (0, 0, 0));
    assert_eq!(capture_summary(&[10, 20, 30, 40, 55]), (31, 55, 55));
    assert_eq!(capture_summary(&[7]), (7, 7, 7));
    let samples: Vec<u64> = (1..=100).collect();
    assert_eq!(capture_summary(&samples), (50, 95, 100));
}
