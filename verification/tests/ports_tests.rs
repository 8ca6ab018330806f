use ids_rs::ports::sort_dedup;

#[test]
fn ports_are_sorted_and_duplicates_dropped() {
    assert_eq!(sort_dedup(&vec![443, 22, 80, 22, 443, 1]), vec![1, 22, 80, 443]);
    assert_eq!(sort_dedup(&vec![]), Vec::<u16>::new());
    assert_eq!(sort_dedup(&vec![7]), vec![7]);
    assert_eq!(sort_dedup(&vec![7, 7, 7]), vec![7]);
    assert_eq!(sort_dedup(&vec![65535, 0]), vec![0, 65535]);
}

#[test]
fn sorting_twice_is_sorting_once() {
    let mut state: u32 = 12345;
    for len in [0usize, 1, 2, 3, 10, 100, 1000] {
        let mut ports: Vec<u16> = Vec::new();
        for _ in 0..len {
            state = state.wrapping_mul(1_103_515_245).wrapping_add(12345);
            ports.push((state >> 16) as u16 % 300);
        }
        let once = sort_dedup(&ports);
        assert_eq!(sort_dedup(&once), once);
        let mut expected = ports.clone();
        expected.sort_unstable();
        expected.dedup();
        assert_eq!(once, expected);
    }
}

#[test]
fn descending_ports_come_out_ascending() {
    let ports: Vec<u16> = (0..5000u16).rev().collect();
    let sorted = sort_dedup(&ports);
    let expected: Vec<u16> = (0..5000u16).collect();
    assert_eq!(sorted, expected);
}
