use retrotex::pattern::Pattern;

fn empty(scale: i32, mirror_x: bool) -> Pattern {
    Pattern { rows: [0; 16], scale, mirror_x }
}

#[test]
fn default_pattern_is_the_heart() {
    let p = Pattern::default();
    assert_eq!(
        p.rows,
        [6168, 15420, 26214, 50115, 33153, 33153, 32769, 49155, 24582, 12300, 6168, 3120, 1632, 960, 384, 0]
    );
    assert_eq!(p.scale, 4);
    assert!(!p.mirror_x);
}

#[test]
fn set_then_sample_by_pixels() {
    let mut p = empty(4, false);
    p.set(3, 5, true);
    assert_eq!(p.rows[5], 1 << 3);
    assert!(p.sample(12, 20));
    assert!(p.sample(15, 23));
    assert!(!p.sample(16, 20));
    p.set(3, 5, false);
    assert!(!p.sample(12, 20));
}

#[test]
fn mirrored_pattern_writes_the_left_half() {
    let mut p = empty(1, true);
    p.set(12, 2, true);
    assert_eq!(p.rows[2], 1 << 3);
    assert!(p.sample(3, 2));
    assert!(p.sample(12, 2));
}

#[test]
fn safe_access_outside_is_ignored() {
    let mut p = empty(2, false);
    p.set_safe(-1, 0, true);
    p.set_safe(16, 0, true);
    p.set_safe(0, 16, true);
    assert_eq!(p.rows, [0; 16]);
    p.fill();
    assert!(!p.sample_safe(-1, 0));
    assert!(!p.sample_safe(32, 0));
    assert!(p.sample_safe(31, 31));
}

#[test]
fn clamp_and_wrap_sampling() {
    let mut p = empty(1, false);
    p.set(15, 0, true);
    p.set(0, 15, true);
    assert!(p.sample_clamp(40, -3));
    assert!(p.sample_wrap(-1, 16));
    assert!(p.sample_wrap(15, 0));
    assert!(!p.sample_wrap(14, 0));
}

#[test]
fn line_draws_cells() {
    let mut p = empty(1, false);
    p.set_line(0, 0, 3, 3, true);
    for i in 0..4 {
        assert!(p.sample(i, i));
    }
    assert!(!p.sample(1, 0));
    p.set_line(-5, 1, 20, 1, true);
    assert_eq!(p.rows[1], 0xFFFF);
}

#[test]
fn fill_clear_invert() {
    let mut p = empty(1, false);
    p.fill();
    assert_eq!(p.rows, [0xFFFF; 16]);
    p.invert();
    assert_eq!(p.rows, [0; 16]);
    p.set(1, 1, true);
    p.invert();
    p.invert();
    assert_eq!(p.rows[1], 2);
    let mut m = empty(1, true);
    m.invert();
    assert_eq!(m.rows, [0x00FF; 16]);
    m.clear();
    assert_eq!(m.rows, [0; 16]);
}

#[test]
fn randomize_changes_only_rows() {
    let mut p = empty(3, true);
    p.randomize();
    assert_eq!(p.scale, 3);
    assert!(p.mirror_x);
}
