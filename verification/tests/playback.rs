use lightshow::playback::{Cue, LightCues, Movement, COLOR_PERIOD};

fn movements(cues: &mut LightCues, n: usize) -> Vec<Movement> {
    (0..n).map(|_| cues.step().movement).collect()
}

#[test]
fn moves_follow_the_distance_entries() {
    let mut cues = LightCues::new(vec![3, 77, 4, 88]);
    let m = movements(&mut cues, 10);
    assert_eq!(
        m,
        vec![
            Movement::Hold,
            Movement::MoveBack,
            Movement::Hold,
            Movement::Move(77),
            Movement::Hold,
            Movement::MoveBack,
            Movement::Hold,
            Movement::Move(88),
            Movement::Hold,
            Movement::Hold
        ]
    );
    assert_eq!(cues.curr_trans(), 2);
}

#[test]
fn first_step_cues_nothing_on_an_empty_rhythm() {
    let mut cues = LightCues::new(vec![]);
    assert_eq!(cues.step(), Cue { color: false, movement: Movement::Hold });
    assert_eq!(cues.transient_iter(), 1);
}

#[test]
fn a_zero_distance_moves_at_once() {
    let mut cues = LightCues::new(vec![0, 9]);
    assert_eq!(cues.step().movement, Movement::Move(9));
    assert_eq!(cues.transient_iter(), 1);
}

#[test]
fn a_negative_distance_never_moves() {
    let mut cues = LightCues::new(vec![-1, 5]);
    let m = movements(&mut cues, 5);
    assert_eq!(m[0], Movement::MoveBack);
    assert!(m[1..].iter().all(|x| *x == Movement::Hold));
    assert_eq!(cues.curr_trans(), 0);
}

#[test]
fn color_frames_come_every_period() {
    let mut cues = LightCues::new(vec![]);
    let mut at = Vec::new();
    for i in 0..3 * COLOR_PERIOD + 10 {
        if cues.step().color {
            at.push(i);
        }
    }
    assert_eq!(at, vec![COLOR_PERIOD, 2 * COLOR_PERIOD, 3 * COLOR_PERIOD]);
}

#[test]
fn restart_follows_the_new_rhythm_and_keeps_the_color_pace() {
    let mut cues = LightCues::new(vec![100, 1]);
    for _ in 0..COLOR_PERIOD - 1 {
        cues.step();
    }
    cues.restart(vec![1, 42]);
    assert_eq!(cues.curr_trans(), 0);
    assert_eq!(cues.transient_iter(), 0);
    let c = cues.step();
    assert_eq!(c, Cue { color: false, movement: Movement::MoveBack });
    let c = cues.step();
    assert_eq!(c, Cue { color: true, movement: Movement::Move(42) });
}
