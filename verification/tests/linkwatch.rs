use linkwatch::classify::{apply_batch, link_down_signal};
use linkwatch::duration::format_duration;
use linkwatch::ledger::{Period, TimeTracker};
use linkwatch::probe::{
    availability_band, latency_band, target_hosts, Band, PingResponse, LATENCY_WARN_US,
};
use linkwatch::ui::adjust_selection;

fn batch(flags: &[bool]) -> Vec<PingResponse> {
    let mut v = Vec::new();
    for (i, &dropped) in flags.iter().enumerate() {
        v.push(PingResponse::new(format!("host{}", i), dropped, 10_000));
    }
    v
}

#[test]
fn duration_zero() {
    assert_eq!(format_duration(0), "00:00:00");
}

#[test]
fn duration_mixed() {
    assert_eq!(format_duration(3661), "01:01:01");
}

#[test]
fn duration_day_edge() {
    assert_eq!(format_duration(86399), "23:59:59");
}

#[test]
fn duration_wide_hours() {
    assert_eq!(format_duration(360_000), "100:00:00");
    assert_eq!(format_duration(59), "00:00:59");
    assert_eq!(format_duration(3600), "01:00:00");
}

#[test]
fn fresh_ledger_is_up() {
    let t = TimeTracker::new(100);
    assert!(t.is_up());
    assert!(!t.is_down());
    assert_eq!(t.total_down_secs(100), 0);
    assert_eq!(t.total_downtime_str(100), "00:00:00");
    assert_eq!(t.downtimes().len(), 0);
    assert_eq!(t.uptimes().len(), 1);
    assert_eq!(t.uptime_percentage(100), 0);
}

#[test]
fn period_live_and_frozen() {
    let mut p = Period::new(10);
    assert_eq!(p.elapsed(25), 15);
    p.finalize(30);
    assert_eq!(p.elapsed(1000), 20);
}

#[test]
fn period_date_epoch() {
    let p = Period::new(0);
    assert_eq!(p.date(), "Thu Jan  1 00:00:00");
}

#[test]
fn alternating_history_lengths() {
    let mut t = TimeTracker::new(0);
    assert_eq!(t.uptimes().len(), t.downtimes().len() + 1);
    t.down(5);
    assert!(t.is_down());
    assert_eq!(t.uptimes().len(), t.downtimes().len());
    t.up(8);
    assert!(t.is_up());
    assert_eq!(t.uptimes().len(), t.downtimes().len() + 1);
    t.down(20);
    assert_eq!(t.uptimes().len(), t.downtimes().len());
}

#[test]
fn totals_partition_lifetime() {
    let mut t = TimeTracker::new(0);
    t.down(5);
    t.up(8);
    assert_eq!(t.total_up_secs(20), 17);
    assert_eq!(t.total_down_secs(20), 3);
    assert_eq!(t.total_uptime_str(20), "00:00:17");
    assert_eq!(t.total_downtime_str(20), "00:00:03");
}

#[test]
fn longest_tracks_open_period() {
    let mut t = TimeTracker::new(0);
    t.down(5);
    t.up(8);
    assert_eq!(t.longest_up_secs(20), 12);
    assert_eq!(t.longest_down_secs(20), 3);
    assert_eq!(t.longest_uptime_str(20), "00:00:12");
    assert_eq!(t.longest_downtime_str(20), "00:00:03");
    assert_eq!(t.longest_up_secs(12), 5);
}

#[test]
fn current_period_strings() {
    let mut t = TimeTracker::new(0);
    assert_eq!(t.uptime_str(5), "00:00:05");
    assert_eq!(t.downtime_str(5), "00:00:00");
    t.down(5);
    assert_eq!(t.uptime_str(9), "00:00:00");
    assert_eq!(t.downtime_str(9), "00:00:04");
}

#[test]
fn percentage_halved_by_downtime() {
    let mut t = TimeTracker::new(0);
    assert_eq!(t.uptime_percentage(10), 10000);
    t.down(5);
    assert_eq!(t.uptime_percentage(10), 5000);
    t.up(10);
    assert_eq!(t.uptime_percentage(20), 7500);
}

#[test]
fn classifier_all_dropped_is_down() {
    assert!(link_down_signal(&batch(&[true, true, true])));
}

#[test]
fn classifier_one_answer_is_up() {
    assert!(!link_down_signal(&batch(&[true, true, false])));
}

#[test]
fn classifier_all_answered_no_warnings() {
    let b = batch(&[false, false, false]);
    assert!(!link_down_signal(&b));
    for r in &b {
        assert!(!r.latency_warning());
    }
}

#[test]
fn latency_warning_thresholds() {
    let slow = PingResponse::new(String::from("h"), false, LATENCY_WARN_US + 1);
    assert!(slow.latency_warning());
    let dropped = PingResponse::new(String::from("h"), true, LATENCY_WARN_US + 1);
    assert!(!dropped.latency_warning());
    let fast = PingResponse::new(String::from("h"), false, LATENCY_WARN_US);
    assert!(!fast.latency_warning());
}

#[test]
fn end_to_end_outage() {
    let mut t = TimeTracker::new(0);
    let changed = apply_batch(&mut t, &batch(&[true, true, true]), 5);
    assert!(changed);
    assert!(t.is_down());
    let changed = apply_batch(&mut t, &batch(&[true, false, false]), 8);
    assert!(changed);
    assert!(t.is_up());
    assert_eq!(t.downtimes()[0].elapsed(8), 3);
    assert_eq!(format_duration(t.downtimes()[0].elapsed(100)), "00:00:03");
    assert_eq!(t.total_down_secs(100), 3);
    assert_eq!(t.total_downtime_str(1000), "00:00:03");
}

#[test]
fn matching_signal_leaves_ledger_alone() {
    let mut t = TimeTracker::new(0);
    assert!(!apply_batch(&mut t, &batch(&[false, true, false]), 5));
    assert!(t.is_up());
    assert_eq!(t.uptimes().len(), 1);
    t.down(6);
    assert!(!apply_batch(&mut t, &batch(&[true, true, true]), 9));
    assert!(t.is_down());
    assert_eq!(t.downtimes().len(), 1);
}

#[test]
fn selection_moves_and_flashes() {
    assert_eq!(adjust_selection(0, 5, false), (0, true));
    assert_eq!(adjust_selection(2, 5, false), (1, false));
    assert_eq!(adjust_selection(2, 5, true), (3, false));
    assert_eq!(adjust_selection(5, 5, true), (5, true));
    assert_eq!(adjust_selection(0, 0, true), (0, true));
}

#[test]
fn latency_bands() {
    assert_eq!(latency_band(49_999), Band::Good);
    assert_eq!(latency_band(50_000), Band::Warn);
    assert_eq!(latency_band(100_000), Band::Warn);
    assert_eq!(latency_band(100_001), Band::Bad);
}

#[test]
fn availability_bands() {
    assert_eq!(availability_band(0), Band::Bad);
    assert_eq!(availability_band(5000), Band::Bad);
    assert_eq!(availability_band(5001), Band::Warn);
    assert_eq!(availability_band(8000), Band::Warn);
    assert_eq!(availability_band(10000), Band::Good);
}

#[test]
fn fixed_targets() {
    let hosts = target_hosts();
    assert_eq!(hosts.len(), 3);
    assert_eq!(hosts[0], "8.8.8.8");
    assert_eq!(hosts[1], "4.2.2.2");
    assert_eq!(hosts[2], "208.67.222.222");
}
