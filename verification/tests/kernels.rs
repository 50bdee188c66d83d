use glitchup::error::FailureKind;
use glitchup::mutations::chaos::chaos_at;
use glitchup::mutations::chaos::draw_noise;
use glitchup::mutations::compress::compress_at;
use glitchup::mutations::gradient::gradient_at;
use glitchup::mutations::increase::increase_at;
use glitchup::mutations::index_boundary;
use glitchup::mutations::clamp_end;
use glitchup::mutations::loops::loops_at;
use glitchup::mutations::multiply::multiply_at;
use glitchup::mutations::multiply::Factor;
use glitchup::mutations::reverse::reverse_at;
use glitchup::mutations::shift::shift_at;
use glitchup::mutations::shuffle::shuffle_at;
use glitchup::mutations::swap::swap_at;
use glitchup::mutations::void::void_at;

fn counted(len: usize) -> Vec<u8> {
    (0..len).map(|k| (k % 256) as u8).collect()
}

fn sorted(data: &[u8]) -> Vec<u8> {
    let mut copy = data.to_vec();
    copy.sort();
    copy
}

#[test]
fn basic_mut_test() {
    let mut data = b"[!!!] Hello world!".to_vec();
    void_at(&mut data, 1, 3);
    assert_eq!(data.as_slice(), b"[000] Hello world!");
}

#[test]
fn active_region_skips_the_first_fiftieth() {
    let data = vec![0u8; 10_000];
    assert_eq!(index_boundary(&data), (200, 10_000));
    let small = vec![0u8; 49];
    assert_eq!(index_boundary(&small), (0, 49));
    let empty: Vec<u8> = Vec::new();
    assert_eq!(index_boundary(&empty), (0, 0));
}

#[test]
fn a_window_is_clamped_to_the_end() {
    assert_eq!(clamp_end(100, 90, 5), 95);
    assert_eq!(clamp_end(100, 90, 10), 100);
    assert_eq!(clamp_end(100, 90, 50), 100);
    assert_eq!(clamp_end(100, 90, usize::MAX), 100);
    assert_eq!(clamp_end(100, 100, 3), 100);
}

#[test]
fn void_fills_the_window_and_nothing_else() {
    let mut data = counted(20);
    void_at(&mut data, 5, 4);
    for k in 0..20 {
        if (5..9).contains(&k) {
            assert_eq!(data[k], 0x30);
        } else {
            assert_eq!(data[k], k as u8);
        }
    }
}

#[test]
fn void_is_cut_off_at_the_end() {
    let mut data = counted(10);
    void_at(&mut data, 8, 100);
    assert_eq!(data, vec![0, 1, 2, 3, 4, 5, 6, 7, 0x30, 0x30]);
    let mut data = counted(10);
    void_at(&mut data, 10, 3);
    assert_eq!(data, counted(10));
    void_at(&mut data, 50, 3);
    assert_eq!(data, counted(10));
    void_at(&mut data, 3, usize::MAX);
    assert_eq!(data, vec![0, 1, 2, 0x30, 0x30, 0x30, 0x30, 0x30, 0x30, 0x30]);
}

#[test]
fn reverse_turns_the_window_round() {
    let mut data = counted(8);
    reverse_at(&mut data, 2, 4);
    assert_eq!(data, vec![0, 1, 5, 4, 3, 2, 6, 7]);
    reverse_at(&mut data, 2, 4);
    assert_eq!(data, counted(8));
    reverse_at(&mut data, 5, 100);
    assert_eq!(data, vec![0, 1, 2, 3, 4, 7, 6, 5]);
}

#[test]
fn reverse_leaves_short_windows_alone() {
    let mut data = counted(8);
    reverse_at(&mut data, 3, 0);
    assert_eq!(data, counted(8));
    reverse_at(&mut data, 3, 1);
    assert_eq!(data, counted(8));
    reverse_at(&mut data, 7, 9);
    assert_eq!(data, counted(8));
}

#[test]
fn reverse_keeps_the_bytes_of_the_window() {
    let mut data = vec![9, 3, 3, 7, 1, 200, 3, 0];
    let before = data.clone();
    reverse_at(&mut data, 1, 6);
    assert_eq!(sorted(&data[1..7]), sorted(&before[1..7]));
    assert_eq!(data[0], 9);
    assert_eq!(data[7], 0);
}

#[test]
fn increase_wraps_round() {
    let mut data = vec![0, 100, 200, 255, 7];
    increase_at(&mut data, 1, 3, 100);
    assert_eq!(data, vec![0, 200, 44, 99, 7]);
    let mut data = vec![250, 251];
    increase_at(&mut data, 0, 2, 256);
    assert_eq!(data, vec![250, 251]);
    increase_at(&mut data, 0, 2, 256 * 3 + 10);
    assert_eq!(data, vec![4, 5]);
    increase_at(&mut data, 0, 2, usize::MAX);
    assert_eq!(data, vec![((4usize + (usize::MAX % 256)) % 256) as u8, ((5usize + (usize::MAX % 256)) % 256) as u8]);
}

#[test]
fn gradient_grows_after_each_group() {
    let mut data = vec![0u8; 8];
    gradient_at(&mut data, 1, 6, 10, 2);
    assert_eq!(data, vec![0, 10, 10, 20, 20, 30, 30, 0]);
}

#[test]
fn gradient_with_groups_of_one_or_none() {
    let mut data = vec![0u8; 5];
    gradient_at(&mut data, 0, 5, 3, 1);
    assert_eq!(data, vec![3, 6, 9, 12, 15]);
    let mut data = vec![0u8; 5];
    gradient_at(&mut data, 0, 5, 3, 0);
    assert_eq!(data, vec![3, 6, 9, 12, 15]);
}

#[test]
fn gradient_wraps_round() {
    let mut data = vec![200u8; 4];
    gradient_at(&mut data, 0, 4, 100, 1);
    assert_eq!(data, vec![44, 144, 244, 88]);
    let mut data = vec![1u8; 3];
    gradient_at(&mut data, 0, 3, 256 + 2, 1);
    assert_eq!(data, vec![3, 5, 7]);
}

#[test]
fn compress_keeps_every_second_byte() {
    let mut data = counted(10);
    compress_at(&mut data, 2, 6, 2);
    // window was 2 3 4 5 6 7: offsets 0, 2, 4 are copied to 0, 1, 2
    assert_eq!(data, vec![0, 1, 2, 4, 6, 5, 6, 7, 8, 9]);
}

#[test]
fn compress_by_one_changes_nothing() {
    let mut data = counted(10);
    compress_at(&mut data, 2, 6, 1);
    assert_eq!(data, counted(10));
}

#[test]
fn compress_by_nothing_repeats_the_first_byte() {
    let mut data = counted(10);
    compress_at(&mut data, 2, 4, 0);
    assert_eq!(data, vec![0, 1, 2, 2, 2, 2, 6, 7, 8, 9]);
}

#[test]
fn compress_by_more_than_the_window_changes_nothing() {
    let mut data = counted(10);
    compress_at(&mut data, 2, 4, 100);
    assert_eq!(data, counted(10));
    compress_at(&mut data, 2, 4, usize::MAX);
    assert_eq!(data, counted(10));
    compress_at(&mut data, 4, 0, 2);
    assert_eq!(data, counted(10));
}

#[test]
fn multiply_looks_each_byte_up() {
    let table: Vec<u8> = (0..256usize).map(|b| ((b as f64 * 1.5) as usize % 256) as u8).collect();
    let factor = Factor::new("1.5".to_string(), table).unwrap();
    assert_eq!(factor.name(), "1.5");
    assert_eq!(factor.product(10), 15);
    assert_eq!(factor.product(200), 44);
    let mut data = vec![10, 20, 200, 255, 3];
    multiply_at(&mut data, 1, 3, &factor);
    assert_eq!(data, vec![10, 30, 44, 126, 3]);
}

#[test]
fn a_factor_holds_every_byte() {
    assert!(Factor::new("2".to_string(), vec![0u8; 255]).is_none());
    assert!(Factor::new("2".to_string(), vec![0u8; 257]).is_none());
    assert!(Factor::new("2".to_string(), Vec::new()).is_none());
    assert!(Factor::new("2".to_string(), vec![0u8; 256]).is_some());
}

#[test]
fn chaos_writes_the_noise() {
    let mut data = counted(8);
    chaos_at(&mut data, 3, &[90, 91, 92]);
    assert_eq!(data, vec![0, 1, 2, 90, 91, 92, 6, 7]);
    chaos_at(&mut data, 6, &[1, 2, 3, 4]);
    assert_eq!(data, vec![0, 1, 2, 90, 91, 92, 1, 2]);
    chaos_at(&mut data, 8, &[5]);
    assert_eq!(data, vec![0, 1, 2, 90, 91, 92, 1, 2]);
    chaos_at(&mut data, 2, &[]);
    assert_eq!(data, vec![0, 1, 2, 90, 91, 92, 1, 2]);
}

#[test]
fn swap_exchanges_two_windows() {
    let mut data = counted(10);
    assert!(swap_at(&mut data, 1, 6, 3).is_ok());
    assert_eq!(data, vec![0, 6, 7, 8, 4, 5, 1, 2, 3, 9]);
    assert!(swap_at(&mut data, 1, 6, 3).is_ok());
    assert_eq!(data, counted(10));
    assert!(swap_at(&mut data, 0, 5, 5).is_ok());
    assert_eq!(data, vec![5, 6, 7, 8, 9, 0, 1, 2, 3, 4]);
    assert!(swap_at(&mut data, 2, 2, 0).is_ok());
    assert_eq!(data, vec![5, 6, 7, 8, 9, 0, 1, 2, 3, 4]);
}

#[test]
fn swap_refuses_windows_that_do_not_fit() {
    let mut data = counted(10);
    let overlapping = swap_at(&mut data, 1, 3, 3).unwrap_err();
    assert_eq!(overlapping.kind, FailureKind::OutOfBounds);
    assert_eq!(
        overlapping.error,
        "Cannot perform the mutation - a window lies out of bounds. [at = 3, chunksize = 3, length = 10]"
    );
    assert_eq!(swap_at(&mut data, 1, 8, 3).unwrap_err().kind, FailureKind::OutOfBounds);
    assert_eq!(swap_at(&mut data, 6, 1, 3).unwrap_err().kind, FailureKind::OutOfBounds);
    assert_eq!(swap_at(&mut data, 1, 11, 0).unwrap_err().kind, FailureKind::OutOfBounds);
    assert_eq!(swap_at(&mut data, 1, 6, usize::MAX).unwrap_err().kind, FailureKind::OutOfBounds);
    assert_eq!(data, counted(10));
}

#[test]
fn swap_keeps_the_bytes() {
    let mut data = vec![4, 4, 9, 1, 0, 7, 7, 2];
    let before = data.clone();
    assert!(swap_at(&mut data, 0, 5, 3).is_ok());
    assert_eq!(sorted(&data), sorted(&before));
    assert_eq!(&data[0..3], &before[5..8]);
    assert_eq!(&data[5..8], &before[0..3]);
    assert_eq!(&data[3..5], &before[3..5]);
}

#[test]
fn shuffle_keeps_the_bytes_of_the_window() {
    let mut data = counted(100);
    shuffle_at(&mut data, 10, 50);
    assert_eq!(&data[..10], &counted(100)[..10]);
    assert_eq!(&data[60..], &counted(100)[60..]);
    assert_eq!(sorted(&data[10..60]), counted(100)[10..60].to_vec());
    shuffle_at(&mut data, 95, 50);
    assert_eq!(sorted(&data[95..]), counted(100)[95..].to_vec());
    shuffle_at(&mut data, 100, 4);
    shuffle_at(&mut data, 500, 4);
    assert_eq!(sorted(&data), counted(100));
}

#[test]
fn shuffle_does_rearrange() {
    let mut changed = false;
    for _ in 0..20 {
        let mut data = counted(200);
        shuffle_at(&mut data, 0, 200);
        if data != counted(200) {
            changed = true;
        }
    }
    assert!(changed);
}

#[test]
fn shift_moves_a_chunk_forward_and_back() {
    // 40 bytes: the active region starts at 0
    let mut data = counted(9);
    for b in data.iter_mut() {
        *b += 1;
    }
    assert!(shift_at(&mut data, 3, 1, 3).is_ok());
    assert_eq!(data, vec![1, 4, 5, 6, 2, 3, 7, 8, 9]);
    assert!(shift_at(&mut data, 3, 6, 3).is_ok());
    assert_eq!(data, vec![1, 4, 5, 7, 8, 9, 6, 2, 3]);
    assert!(shift_at(&mut data, 0, 0, 3).is_ok());
    assert_eq!(data, vec![1, 4, 5, 7, 8, 9, 6, 2, 3]);
}

#[test]
fn shift_counts_from_the_active_region() {
    let mut data = counted(100);
    // the region starts at 2: chunk [2 + 10, 2 + 13) goes to 2 + 0
    assert!(shift_at(&mut data, 10, 0, 3).is_ok());
    assert_eq!(&data[..2], &[0, 1]);
    assert_eq!(&data[2..5], &[12, 13, 14]);
    assert_eq!(&data[5..15], &[2, 3, 4, 5, 6, 7, 8, 9, 10, 11]);
    assert_eq!(&data[15..], &counted(100)[15..]);
}

#[test]
fn shift_clamps_the_chunk_and_refuses_a_move_that_does_not_fit() {
    let mut data = counted(9);
    // chunk [7, 9) after clamping, moved to the front
    assert!(shift_at(&mut data, 7, 0, 5).is_ok());
    assert_eq!(data, vec![7, 8, 0, 1, 2, 3, 4, 5, 6]);
    let mut data = counted(9);
    assert_eq!(shift_at(&mut data, 3, 7, 3).unwrap_err().kind, FailureKind::OutOfBounds);
    assert_eq!(shift_at(&mut data, 10, 0, 3).unwrap_err().kind, FailureKind::OutOfBounds);
    assert_eq!(shift_at(&mut data, 0, 10, 0).unwrap_err().kind, FailureKind::OutOfBounds);
    assert_eq!(data, counted(9));
}

#[test]
fn loops_repeats_a_byte() {
    let mut data = counted(20);
    assert!(loops_at(&mut data, 2, 3, 4).is_ok());
    let mut expected = counted(20);
    for target in [5, 8, 11, 14] {
        expected[target] = 2;
    }
    assert_eq!(data, expected);
}

#[test]
fn loops_wraps_round_in_the_active_region() {
    let mut data = counted(100);
    // region [2, 100): from 90, steps of 7 reach 97, then 104 -> 104 % 98 + 2 = 8
    assert!(loops_at(&mut data, 90, 7, 2).is_ok());
    let mut expected = counted(100);
    expected[97] = 90;
    expected[8] = 90;
    assert_eq!(data, expected);
}

#[test]
fn loops_refuses_an_index_outside_the_region() {
    let mut data = counted(100);
    assert_eq!(loops_at(&mut data, 1, 7, 2).unwrap_err().kind, FailureKind::OutOfBounds);
    assert_eq!(loops_at(&mut data, 100, 7, 2).unwrap_err().kind, FailureKind::OutOfBounds);
    assert_eq!(data, counted(100));
    let mut empty: Vec<u8> = Vec::new();
    assert!(loops_at(&mut empty, 0, 1, 1).is_err());
}

#[test]
fn loops_stays_in_the_region_for_huge_steps() {
    let mut data = counted(1000);
    assert!(loops_at(&mut data, 500, usize::MAX, 3).is_ok());
    assert_eq!(&data[..20], &counted(1000)[..20]);
    assert_eq!(data.len(), 1000);
}

#[test]
fn noise_has_the_length_asked_for() {
    let mut rng: rand_xorshift::XorShiftRng = rand_core::SeedableRng::from_seed([7u8; 16]);
    assert_eq!(draw_noise(&mut rng, 0).len(), 0);
    let noise = draw_noise(&mut rng, 1000);
    assert_eq!(noise.len(), 1000);
    assert!(noise.iter().any(|b| *b != noise[0]));
}
