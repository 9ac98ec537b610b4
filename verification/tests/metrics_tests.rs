use resmon::align::add_whitespace;
use resmon::metrics::aggregate;
use resmon::metrics::compose_status_line;
use resmon::metrics::format_percent;
use resmon::metrics::get_cpu_use;
use resmon::metrics::get_ntwk_dwn;
use resmon::metrics::get_ntwk_up;
use resmon::metrics::get_ram_use;
use resmon::metrics::render_tick;
use resmon::metrics::MetricSample;
use resmon::metrics::MetricsError;

#[test]
fn percent_field_renders_tenths() {
    assert_eq!(format_percent(2000), "20.0 %");
    assert_eq!(format_percent(0), "0.0 %");
    assert_eq!(format_percent(5000), "50.0 %");
    assert_eq!(format_percent(9999), "100.0 %");
}

#[test]
fn percent_field_rounds_half_up() {
    assert_eq!(format_percent(45), "0.5 %");
    assert_eq!(format_percent(44), "0.4 %");
}

#[test]
fn average_cpu_of_three_cores() {
    // Cores at 10.0 %, 20.0 % and 30.0 %, in hundredths of a percent.
    let loads: Vec<u64> = vec![1000, 2000, 3000];
    let avg = get_cpu_use(&loads).unwrap();
    assert_eq!(avg, 2000);
    assert_eq!(format_percent(avg), "20.0 %");
    assert_eq!(add_whitespace(format_percent(avg), 7), " 20.0 %");
}

#[test]
fn average_cpu_of_equal_cores_is_exact() {
    let loads: Vec<u64> = vec![737, 737, 737, 737, 737];
    assert_eq!(get_cpu_use(&loads), Some(737));
}

#[test]
fn average_cpu_of_idle_and_busy_core() {
    // One core at 0 %, one at 100 %: the average is exactly 50 %.
    let loads: Vec<u64> = vec![0, 10000];
    assert_eq!(get_cpu_use(&loads), Some(5000));
}

#[test]
fn average_cpu_of_no_cores_is_an_error() {
    let loads: Vec<u64> = Vec::new();
    assert!(get_cpu_use(&loads).is_none());
}

#[test]
fn ram_percent_half_used() {
    let ram = get_ram_use(512, 1024).unwrap();
    assert_eq!(ram, 5000);
    assert_eq!(format_percent(ram), "50.0 %");
}

#[test]
fn ram_percent_truncates() {
    assert_eq!(get_ram_use(1, 3), Some(3333));
}

#[test]
fn ram_percent_rejects_bad_memory() {
    assert!(get_ram_use(0, 0).is_none());
    assert!(get_ram_use(5, 0).is_none());
    assert!(get_ram_use(1025, 1024).is_none());
}

#[test]
fn network_sums_over_interfaces() {
    let counters: Vec<u64> = vec![1, 2, 3];
    assert_eq!(get_ntwk_dwn(&counters), Some(6));
    assert_eq!(get_ntwk_up(&counters), Some(6));
    let empty: Vec<u64> = Vec::new();
    assert_eq!(get_ntwk_dwn(&empty), Some(0));
}

#[test]
fn network_sum_overflow_is_an_error() {
    let counters: Vec<u64> = vec![u64::MAX, 1];
    assert!(get_ntwk_dwn(&counters).is_none());
    assert!(get_ntwk_up(&counters).is_none());
}

#[test]
fn aggregate_reduces_one_tick() {
    let loads: Vec<u64> = vec![1000, 3000];
    let rx: Vec<u64> = vec![2048];
    let tx: Vec<u64> = vec![500];
    let sample = aggregate(&loads, 512, 1024, &rx, &tx).unwrap();
    assert_eq!(sample.cpu_percent_hundredths, 2000);
    assert_eq!(sample.ram_percent_hundredths, 5000);
    assert_eq!(sample.net_received_bytes, 2048);
    assert_eq!(sample.net_sent_bytes, 500);
}

#[test]
fn aggregate_reports_the_first_failure() {
    let no_loads: Vec<u64> = Vec::new();
    let loads: Vec<u64> = vec![1000];
    let counters: Vec<u64> = vec![7];
    let overflowing: Vec<u64> = vec![u64::MAX, u64::MAX];
    assert_eq!(
        aggregate(&no_loads, 1, 2, &counters, &counters).unwrap_err(),
        MetricsError::NoCores
    );
    assert_eq!(
        aggregate(&loads, 1, 0, &counters, &counters).unwrap_err(),
        MetricsError::BadMemory
    );
    assert_eq!(
        aggregate(&loads, 3, 2, &counters, &counters).unwrap_err(),
        MetricsError::BadMemory
    );
    assert_eq!(
        aggregate(&loads, 1, 2, &overflowing, &counters).unwrap_err(),
        MetricsError::CounterOverflow
    );
    assert_eq!(
        aggregate(&loads, 1, 2, &counters, &overflowing).unwrap_err(),
        MetricsError::CounterOverflow
    );
}

#[test]
fn status_line_has_fixed_layout() {
    let sample = MetricSample {
        cpu_percent_hundredths: 2000,
        ram_percent_hundredths: 5000,
        net_received_bytes: 2048,
        net_sent_bytes: 500,
    };
    let line = compose_status_line(&sample, 1000);
    assert_eq!(line, "[RAM: 50.0 %] [CPU: 20.0 %] [DOWN:   2.00 KB] [UP:      0 KB]");
}

#[test]
fn render_tick_composes_a_whole_tick() {
    let loads: Vec<u64> = vec![1000, 3000];
    let rx: Vec<u64> = vec![1024, 1024];
    let tx: Vec<u64> = vec![500];
    let line = render_tick(&loads, 512, 1024, &rx, &tx, 1000).unwrap();
    assert_eq!(line, "[RAM: 50.0 %] [CPU: 20.0 %] [DOWN:   2.00 KB] [UP:      0 KB]");
}

#[test]
fn render_tick_surfaces_errors() {
    let no_loads: Vec<u64> = Vec::new();
    let counters: Vec<u64> = vec![7];
    assert_eq!(
        render_tick(&no_loads, 1, 2, &counters, &counters, 1000).unwrap_err(),
        MetricsError::NoCores
    );
}
