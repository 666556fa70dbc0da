use lightshow::dmx::{mix_colors, DMX, FRAME_LEN};

#[test]
fn default_frame_is_all_zero() {
    let dmx = DMX::default();
    assert_eq!(dmx.msg().len(), FRAME_LEN);
    assert!(dmx.msg().iter().all(|&b| b == 0));
    assert_eq!(dmx.get_angle(), 0);
}

#[test]
fn simple_move_sets_arc_and_direction_on_both_fixtures() {
    let mut dmx = DMX::default();
    dmx.simple_move(200);
    assert_eq!(dmx.msg(), &vec![0, 200, 1, 0, 0, 0, 200, 1, 0, 0, 0]);
    assert_eq!(dmx.get_angle(), 200);
}

#[test]
fn move_then_back_reverses_tilt() {
    let mut dmx = DMX::default();
    dmx.simple_move(90);
    dmx.simple_move_back();
    assert_eq!(dmx.msg(), &vec![0, 90, 0, 0, 0, 0, 90, 0, 0, 0, 0]);
    assert_eq!(dmx.get_angle(), 90);
}

#[test]
fn move_back_twice_restores_direction() {
    let mut dmx = DMX::default();
    dmx.simple_move(33);
    let before = dmx.msg().clone();
    dmx.simple_move_back();
    dmx.simple_move_back();
    assert_eq!(dmx.msg(), &before);
}

#[test]
fn sweep_then_back_clears_pan_direction() {
    let mut dmx = DMX::default();
    dmx.left_right_move();
    assert_eq!(dmx.msg()[2], 2);
    assert_eq!(dmx.msg()[7], 2);
    dmx.left_right_back();
    assert_eq!(dmx.msg()[2], 0);
    assert_eq!(dmx.msg()[7], 0);
}

#[test]
fn sweep_back_twice_restores_frame() {
    let mut dmx = DMX::default();
    dmx.simple_move(5);
    let before = dmx.msg().clone();
    dmx.left_right_back();
    assert_eq!(dmx.msg()[2], 3);
    dmx.left_right_back();
    assert_eq!(dmx.msg(), &before);
}

#[test]
fn change_color_sets_both_fixtures_and_stops_movement() {
    let mut dmx = DMX::default();
    dmx.simple_move(100);
    dmx.change_color(245, 225, 195);
    assert_eq!(dmx.msg(), &vec![0, 0, 1, 245, 103, 73, 0, 1, 245, 103, 73]);
    assert_eq!(dmx.get_angle(), 100);
}

#[test]
fn mix_keeps_loudest_and_lowers_others_by_half_of_it() {
    assert_eq!(mix_colors(245, 225, 195), (245, 103, 73));
    assert_eq!(mix_colors(200, 250, 130), (75, 250, 5));
    assert_eq!(mix_colors(40, 60, 80), (0, 20, 80));
}

#[test]
fn mix_ties_go_to_the_higher_band() {
    assert_eq!(mix_colors(100, 100, 100), (50, 50, 100));
    assert_eq!(mix_colors(200, 200, 100), (100, 200, 0));
    assert_eq!(mix_colors(0, 0, 0), (0, 0, 0));
}

#[test]
fn mix_widens_the_margin_of_the_loudest() {
    let (r, g, b) = mix_colors(180, 150, 120);
    assert_eq!(r, 180);
    assert_eq!(r - g, (180 - 150) + 90);
    assert_eq!(r - b, (180 - 120) + 90);
}

#[test]
fn mix_lowers_quiet_bands_down_to_zero_at_most() {
    assert_eq!(mix_colors(255, 55, 55), (255, 0, 0));
    assert_eq!(mix_colors(10, 250, 130), (0, 250, 5));
    assert_eq!(mix_colors(10, 20, 200), (0, 0, 200));
    assert_eq!(mix_colors(255, 127, 127), (255, 0, 0));
}

#[test]
fn change_color_with_a_much_quieter_band_keeps_the_loudest_on_top() {
    let mut dmx = DMX::default();
    dmx.change_color(255, 55, 55);
    assert_eq!(dmx.msg()[3], 255);
    assert_eq!(dmx.msg()[4], dmx.msg()[5]);
    assert!(dmx.msg()[4] <= 55);
    assert_eq!(dmx.msg()[8..11], [255, 0, 0]);
}
