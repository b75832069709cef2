use keyframes::color::{Color3D, Color4D};
use keyframes::light_program::LightProgram;

fn c(t: i64, r: u8, g: u8, b: u8, is_fade: bool) -> Color4D {
    Color3D::new(r, g, b).at_time(t, is_fade)
}

#[test]
fn new_sorts_colors_by_timestamp() {
    let l = LightProgram::new(vec![c(2, 1, 1, 1, true), c(0, 2, 2, 2, false), c(1, 3, 3, 3, true)]);
    let times: Vec<i64> = l.colors.iter().map(|k| k.t).collect();
    assert_eq!(times, vec![0, 1, 2]);
}

#[test]
fn append_rejects_non_causal_colors() {
    let mut l = LightProgram::new(vec![c(0, 0, 0, 0, true), c(4, 9, 9, 9, true)]);
    l.append(c(4, 1, 1, 1, true));
    assert_eq!(l.colors.len(), 2);
    l.append(c(2, 1, 1, 1, true));
    assert_eq!(l.colors.len(), 2);
    l.append(c(5, 1, 1, 1, false));
    assert_eq!(l.colors.len(), 3);
    assert_eq!(l.colors[2], c(5, 1, 1, 1, false));
}

#[test]
fn simplify_drops_keyframes_within_default_tolerance() {
    // the middle color lies exactly on the channel interpolation line,
    // well within the default tolerance of 4
    let l = LightProgram::new(vec![
        c(0, 0, 0, 0, true),
        c(1, 50, 60, 70, true),
        c(2, 100, 120, 140, true),
    ]);
    let r = l.simplify();
    assert_eq!(r.colors.len(), 2);
    assert_eq!(r.colors[0], c(0, 0, 0, 0, true));
    assert_eq!(r.colors[1], c(2, 100, 120, 140, true));
}

#[test]
fn simplify_keeps_keyframes_beyond_default_tolerance() {
    // the middle color deviates by 100 per channel from the line
    let l = LightProgram::new(vec![
        c(0, 0, 0, 0, true),
        c(1, 200, 200, 200, true),
        c(2, 200, 200, 200, true),
    ]);
    let r = l.simplify();
    assert_eq!(r.colors.len(), 3);
}

#[test]
fn simplify_tolerance_is_four_per_channel() {
    // deviation of exactly 4 collapses, deviation of 5 does not
    let within = LightProgram::new(vec![
        c(0, 0, 0, 0, true),
        c(1, 54, 0, 0, true),
        c(2, 100, 0, 0, true),
    ]);
    assert_eq!(within.simplify().colors.len(), 2);
    let beyond = LightProgram::new(vec![
        c(0, 0, 0, 0, true),
        c(1, 55, 0, 0, true),
        c(2, 100, 0, 0, true),
    ]);
    assert_eq!(beyond.simplify().colors.len(), 3);
}

#[test]
fn simplify_keeps_first_and_last_and_fade_flags() {
    let l = LightProgram::new(vec![
        c(0, 10, 10, 10, false),
        c(1, 200, 0, 0, true),
        c(2, 30, 30, 30, false),
    ]);
    let r = l.simplify();
    assert_eq!(r.colors[0], c(0, 10, 10, 10, false));
    assert_eq!(*r.colors.last().unwrap(), c(2, 30, 30, 30, false));
    // fade flags are metadata: they ride along unchanged
    assert!(r.colors[1].is_fade);
}

#[test]
fn simplify_of_short_programs_is_identity() {
    let empty = LightProgram::new(vec![]);
    assert_eq!(empty.simplify().colors.len(), 0);
    let single = LightProgram::new(vec![c(0, 1, 2, 3, true)]);
    let r = single.simplify();
    assert_eq!(r.colors, vec![c(0, 1, 2, 3, true)]);
}

#[test]
fn color3d_at_time_carries_channels() {
    let c3 = Color3D::new(10, 20, 30);
    let c4 = c3.at_time(99, true);
    assert_eq!(c4.t, 99);
    assert_eq!((c4.r, c4.g, c4.b), (10, 20, 30));
    assert!(c4.is_fade);
}
