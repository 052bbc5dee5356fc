use galemind::workload::{
    benchmark_configurations, client_ranges, cnn_input_size, generate_realistic_workload_pattern,
};

#[test]
fn clients_share_the_requests_in_order() {
    assert_eq!(client_ranges(10, 4), vec![(0, 2), (2, 4), (4, 6), (6, 10)]);
    assert_eq!(client_ranges(100, 4), vec![(0, 25), (25, 50), (50, 75), (75, 100)]);
    assert_eq!(client_ranges(3, 5), vec![(0, 0), (0, 0), (0, 0), (0, 0), (0, 3)]);
    assert_eq!(client_ranges(7, 1), vec![(0, 7)]);
    assert_eq!(client_ranges(0, 2), vec![(0, 0), (0, 0)]);
}

#[test]
fn benchmark_compares_five_configurations() {
    let configs = benchmark_configurations(12, 150);
    let expected = vec![
        ("No Batching".to_string(), 1, 150),
        ("Small Batches".to_string(), 4, 150),
        ("Medium Batches".to_string(), 8, 150),
        ("Large Batches".to_string(), 16, 150),
        ("Adaptive (CORK)".to_string(), 12, 150),
    ];
    assert_eq!(configs, expected);
}

#[test]
fn cnn_input_sizes_are_multiples_of_32() {
    assert_eq!(cnn_input_size(224), 224);
    assert_eq!(cnn_input_size(225), 256);
    assert_eq!(cnn_input_size(1), 32);
    assert_eq!(cnn_input_size(0), 0);
}

#[test]
fn workload_arrivals_follow_the_phases() {
    let requests: Vec<u32> = (0..45).collect();
    let timed = generate_realistic_workload_pattern(requests.clone());
    assert_eq!(timed.len(), 45);
    let mut previous = 0u64;
    for (i, (request, time)) in timed.iter().enumerate() {
        assert_eq!(*request, requests[i]);
        let gap = time - previous;
        let (low, high) = match i % 20 {
            0..=5 => (10, 50),
            6..=10 => (50, 150),
            11..=15 => (150, 300),
            16..=17 => (5, 20),
            _ => (200, 500),
        };
        assert!(low <= gap && gap < high, "gap {} of arrival {} out of [{}, {})", gap, i, low, high);
        previous = *time;
    }
    // The generator is seeded: the same requests arrive at the same times.
    assert_eq!(generate_realistic_workload_pattern(requests), timed);
}

#[test]
fn empty_workload_has_no_arrivals() {
    let timed = generate_realistic_workload_pattern(Vec::<u8>::new());
    assert!(timed.is_empty());
}
