use transfer_engine::planner::div_round_up;
use transfer_engine::planner::part_size_for;
use transfer_engine::planner::ByteRange;
use transfer_engine::planner::UploadPlan;
use transfer_engine::planner::MAX_PARTS;
use transfer_engine::planner::MIB;
use transfer_engine::planner::MIN_PART_SIZE;

#[test]
fn twelve_mib_file_is_cut_into_three_parts() {
    let plan = UploadPlan::new(12 * MIB);
    assert_eq!(plan.file_size(), 12 * MIB);
    assert_eq!(plan.part_size(), 5 * MIB);
    assert_eq!(plan.total_parts(), 3);
    assert_eq!(plan.part_range(1), Some(ByteRange { start: 0, end: 5 * MIB }));
    assert_eq!(plan.part_range(2), Some(ByteRange { start: 5 * MIB, end: 10 * MIB }));
    assert_eq!(plan.part_range(3), Some(ByteRange { start: 10 * MIB, end: 12 * MIB }));
    assert_eq!(plan.part_range(0), None);
    assert_eq!(plan.part_range(4), None);
}

#[test]
fn sixty_thousand_mib_file_grows_the_part_size() {
    let plan = UploadPlan::new(60000 * MIB);
    assert_eq!(plan.part_size(), 6 * MIB);
    assert_eq!(plan.total_parts(), 10000);
    assert_eq!(part_size_for(60000 * MIB), 6 * MIB);
}

#[test]
fn part_size_is_five_mib_up_to_the_limit() {
    assert_eq!(MIN_PART_SIZE, 5 * MIB);
    assert_eq!(part_size_for(0), 5 * MIB);
    assert_eq!(part_size_for(1), 5 * MIB);
    assert_eq!(part_size_for(MIN_PART_SIZE * MAX_PARTS), 5 * MIB);
    assert_eq!(UploadPlan::new(MIN_PART_SIZE * MAX_PARTS).total_parts(), 10000);
}

#[test]
fn part_size_grows_by_whole_mib_just_above_the_limit() {
    let size = MIN_PART_SIZE * MAX_PARTS + 1;
    assert_eq!(part_size_for(size), 6 * MIB);
    let plan = UploadPlan::new(size);
    assert_eq!(plan.total_parts(), 8334);
    let last = plan.part_range(8334).unwrap();
    assert_eq!(last.end, size);
    assert_eq!(last.start, 8333 * 6 * MIB);
}

#[test]
fn planner_respects_limits_for_many_sizes() {
    let sizes: Vec<u64> = vec![
        0,
        1,
        MIB,
        5 * MIB - 1,
        5 * MIB,
        5 * MIB + 1,
        123_456_789,
        MIN_PART_SIZE * MAX_PARTS - 1,
        MIN_PART_SIZE * MAX_PARTS + MIB,
        1 << 40,
        (1 << 50) + 12345,
        u64::MAX - 1,
        u64::MAX,
    ];
    for size in sizes {
        let plan = UploadPlan::new(size);
        let part_size = plan.part_size();
        assert!(part_size >= 5 * MIB);
        assert_eq!(part_size % MIB, 0);
        assert!(plan.total_parts() as u64 <= MAX_PARTS);
        assert_eq!(plan.total_parts() as u64, div_round_up(size, part_size));
        if part_size > 5 * MIB {
            let smaller = part_size - MIB;
            assert!(div_round_up(size, smaller) > MAX_PARTS);
        }
    }
}

#[test]
fn largest_file_is_planned_without_overflow() {
    let plan = UploadPlan::new(u64::MAX);
    assert_eq!(plan.part_size(), 1_759_218_605 * MIB);
    assert_eq!(plan.total_parts(), 10000);
    let last = plan.part_range(10000).unwrap();
    assert_eq!(last.end, u64::MAX);
    assert_eq!(last.start, 9999 * 1_759_218_605 * MIB);
}

#[test]
fn ranges_tile_the_file() {
    let size = 23 * MIB + 17;
    let plan = UploadPlan::new(size);
    let ranges = plan.ranges();
    assert_eq!(ranges.len(), 5);
    let mut offset = 0u64;
    let mut sum = 0u64;
    for (i, (number, range)) in ranges.iter().enumerate() {
        assert_eq!(*number as usize, i + 1);
        assert_eq!(range.start, offset);
        assert!(range.end > range.start);
        assert!(range.end - range.start <= plan.part_size());
        assert_eq!(plan.part_range(*number), Some(*range));
        sum += range.end - range.start;
        offset = range.end;
    }
    assert_eq!(offset, size);
    assert_eq!(sum, size);
}

#[test]
fn empty_file_has_no_parts() {
    let plan = UploadPlan::new(0);
    assert_eq!(plan.total_parts(), 0);
    assert!(plan.ranges().is_empty());
    assert_eq!(plan.part_range(1), None);
    assert!(plan.is_simple(false));
    assert!(!plan.is_simple(true));
}

#[test]
fn simple_only_when_the_file_fits_one_part_and_nothing_is_resumed() {
    assert!(UploadPlan::new(5 * MIB).is_simple(false));
    assert!(!UploadPlan::new(5 * MIB).is_simple(true));
    assert!(!UploadPlan::new(5 * MIB + 1).is_simple(false));
    assert!(!UploadPlan::new(5 * MIB + 1).is_simple(true));
}

#[test]
fn div_round_up_rounds_up() {
    assert_eq!(div_round_up(0, 7), 0);
    assert_eq!(div_round_up(1, 7), 1);
    assert_eq!(div_round_up(7, 7), 1);
    assert_eq!(div_round_up(8, 7), 2);
    assert_eq!(div_round_up(u64::MAX, 1), u64::MAX);
    assert_eq!(div_round_up(u64::MAX, 2), (u64::MAX / 2) + 1);
}
