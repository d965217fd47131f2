use kernel::driver::{read_back_matches, test_pattern};

#[test]
fn pattern_is_block_number_truncated() {
    assert!(test_pattern(0).iter().all(|&b| b == 0));
    assert!(test_pattern(3).iter().all(|&b| b == 3));
    assert!(test_pattern(255).iter().all(|&b| b == 255));
    assert!(test_pattern(300).iter().all(|&b| b == 44));
    assert!(test_pattern(511).iter().all(|&b| b == 255));
}

#[test]
fn faithful_read_back_passes() {
    for i in 0..512usize {
        let written = test_pattern(i);
        let read = written;
        assert!(read_back_matches(i, &read));
    }
}

#[test]
fn corrupted_read_back_fails() {
    let mut read = test_pattern(9);
    read[511] = 10;
    assert!(!read_back_matches(9, &read));
    assert!(!read_back_matches(10, &test_pattern(9)));
    assert!(read_back_matches(265, &test_pattern(9)));
}

use kernel::driver::{self_test_first, self_test_next, SelfTestStep};

#[test]
fn self_test_walks_every_block_then_passes() {
    let mut step = self_test_first();
    let mut visited = Vec::new();
    while let SelfTestStep::Check(i) = step {
        visited.push(i);
        step = self_test_next(i, &test_pattern(i));
    }
    assert_eq!(step, SelfTestStep::Passed);
    assert_eq!(visited, (0..512).collect::<Vec<usize>>());
}

#[test]
fn self_test_stops_at_first_bad_block() {
    let mut step = self_test_first();
    while let SelfTestStep::Check(i) = step {
        let mut read = test_pattern(i);
        if i == 37 {
            read[0] ^= 1;
        }
        step = self_test_next(i, &read);
    }
    assert_eq!(step, SelfTestStep::Failed(37));
    assert_eq!(self_test_next(511, &test_pattern(511)), SelfTestStep::Passed);
    assert_eq!(self_test_next(4, &test_pattern(4)), SelfTestStep::Check(5));
}
