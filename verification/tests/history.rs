use chat_state::history::{History, HISTORY_SIZE};

fn filled(n: u32) -> History<u32> {
    let mut log: History<u32> = History::new();
    for i in 0..n {
        log.insert(i);
    }
    log
}

fn contents(log: &History<u32>) -> Vec<u32> {
    log.get_all().into_iter().copied().collect()
}

#[test]
fn capacity_is_thirty_two() {
    assert_eq!(HISTORY_SIZE, 32);
}

#[test]
fn new_log_is_empty() {
    let log: History<u32> = History::new();
    assert_eq!(log.get_count(), 0);
    assert!(log.get_all().is_empty());
    assert_eq!(log.cursor_position(), 0);
    for i in 0..HISTORY_SIZE {
        assert!(log.get(i).is_none());
    }
}

#[test]
fn inserts_come_back_in_insertion_order() {
    let log = filled(5);
    assert_eq!(contents(&log), vec![0, 1, 2, 3, 4]);
    assert_eq!(log.get_count(), 5);
    assert_eq!(log.cursor_position(), 5);
}

#[test]
fn full_log_holds_exactly_the_capacity() {
    let log = filled(32);
    assert_eq!(contents(&log), (0..32).collect::<Vec<u32>>());
    assert_eq!(log.get_count(), 32);
    assert_eq!(log.cursor_position(), 0);
}

#[test]
fn overflow_evicts_the_oldest_first() {
    let log = filled(33);
    assert_eq!(contents(&log), (1..33).collect::<Vec<u32>>());
    assert_eq!(log.get_count(), 32);
    assert_eq!(log.cursor_position(), 1);
}

#[test]
fn any_number_of_inserts_leaves_the_newest() {
    for n in 0u32..130 {
        let log = filled(n);
        let kept = if n < 32 { n } else { 32 };
        assert_eq!(log.get_count(), kept as usize);
        assert_eq!(contents(&log), ((n - kept)..n).collect::<Vec<u32>>());
    }
}

#[test]
fn count_is_right_at_multiples_of_the_capacity() {
    assert_eq!(filled(32).get_count(), 32);
    assert_eq!(filled(64).get_count(), 32);
    assert_eq!(filled(96).get_count(), 32);
    assert_eq!(contents(&filled(64)), (32..64).collect::<Vec<u32>>());
}

#[test]
fn get_all_can_be_called_again() {
    let log = filled(40);
    assert_eq!(contents(&log), contents(&log));
}

#[test]
fn get_reads_a_raw_slot() {
    let log = filled(34);
    assert_eq!(log.get(0), Some(&32));
    assert_eq!(log.get(1), Some(&33));
    assert_eq!(log.get(2), Some(&2));
    assert_eq!(log.get(31), Some(&31));
    let short = filled(3);
    assert_eq!(short.get(2), Some(&2));
    assert_eq!(short.get(3), None);
}

#[test]
fn get_mut_changes_an_entry_in_place() {
    let mut log = filled(3);
    if let Some(entry) = log.get_mut(1) {
        *entry = 100;
    }
    assert!(log.get_mut(3).is_none());
    assert_eq!(contents(&log), vec![0, 100, 2]);
    assert_eq!(log.get_count(), 3);
    assert_eq!(log.cursor_position(), 3);
}

#[test]
fn from_parts_restores_a_log() {
    let mut slots: Vec<Option<u32>> = vec![None; 32];
    slots[0] = Some(7);
    slots[1] = Some(8);
    let log = History::from_parts(slots, 2).expect("well-formed parts");
    assert_eq!(contents(&log), vec![7, 8]);
    assert_eq!(log.get_count(), 2);

    let full: Vec<Option<u32>> = (0..32).map(Some).collect();
    let log = History::from_parts(full, 5).expect("well-formed parts");
    let mut want: Vec<u32> = (5..32).collect();
    want.extend(0..5);
    assert_eq!(contents(&log), want);
    assert_eq!(log.get_count(), 32);
}

#[test]
fn from_parts_refuses_what_no_log_can_hold() {
    assert!(History::<u32>::from_parts(vec![None; 31], 0).is_none());
    assert!(History::<u32>::from_parts(vec![None; 32], 32).is_none());
    let mut gap: Vec<Option<u32>> = vec![None; 32];
    gap[1] = Some(1);
    assert!(History::from_parts(gap, 2).is_none());
    let mut behind: Vec<Option<u32>> = vec![None; 32];
    behind[0] = Some(1);
    assert!(History::from_parts(behind, 0).is_none());
    let mut ahead: Vec<Option<u32>> = vec![None; 32];
    ahead[0] = Some(1);
    assert!(History::from_parts(ahead, 2).is_none());
}
