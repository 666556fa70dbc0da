use lightshow::frames::{frame_distances, frame_lengths};

#[test]
fn frame_distances_skip_the_first_transient() {
    assert_eq!(frame_distances(&[1, 10, 20, 30, 40, 50]), vec![20, 40]);
    assert_eq!(frame_distances(&[1, 10, 20, 30, 40]), vec![20]);
    assert_eq!(frame_distances(&[1, 10, 20]), Vec::<i32>::new());
    assert_eq!(frame_distances(&[]), Vec::<i32>::new());
}

#[test]
fn frame_lengths_run_up_to_and_over_each_transient() {
    let quiet = [true, true, false, true, false];
    assert_eq!(frame_lengths(&quiet, 2), vec![3, 2]);
    assert_eq!(frame_lengths(&quiet, 3), vec![3, 2, 1]);
    assert_eq!(frame_lengths(&quiet, 0), Vec::<usize>::new());
}

#[test]
fn frame_lengths_of_all_quiet_song() {
    assert_eq!(frame_lengths(&[true, true, true], 2), vec![4, 1]);
}
