use retrotex::line::LineIterator;

fn collect(start: (i32, i32), end: (i32, i32)) -> Vec<(i32, i32)> {
    let mut it = LineIterator::new(start, end);
    let mut out = Vec::new();
    while let Some(p) = it.next() {
        out.push(p);
    }
    out
}

#[test]
fn line_iterator_horizontal() {
    let got = collect((1, 2), (4, 2));
    let expected = vec![(1, 2), (2, 2), (3, 2), (4, 2)];
    assert_eq!(got, expected);
}

#[test]
fn line_iterator_vertical() {
    let got = collect((3, 1), (3, 4));
    let expected = vec![(3, 1), (3, 2), (3, 3), (3, 4)];
    assert_eq!(got, expected);
}

#[test]
fn line_iterator_diagonal() {
    let got = collect((1, 1), (4, 4));
    let expected = vec![(1, 1), (2, 2), (3, 3), (4, 4)];
    assert_eq!(got, expected);
}

#[test]
fn line_iterator_steep_line() {
    let got = collect((1, 1), (3, 6));
    let expected = vec![(1, 1), (1, 2), (2, 3), (2, 4), (3, 5), (3, 6)];
    assert_eq!(got, expected);
}

#[test]
fn line_iterator_reverse_direction() {
    let got = collect((4, 2), (1, 2));
    let expected = vec![(4, 2), (3, 2), (2, 2), (1, 2)];
    assert_eq!(got, expected);
}

#[test]
fn line_iterator_single_point() {
    let got = collect((2, 2), (2, 2));
    let expected = vec![(2, 2)];
    assert_eq!(got, expected);
}

#[test]
fn line_has_max_delta_plus_one_points_with_adjacent_steps() {
    for &(s, e) in &[((0, 0), (7, -3)), ((-5, 2), (3, 9)), ((10, 10), (-4, 6))] {
        let pts = collect(s, e);
        let (dx, dy): (i32, i32) = ((e.0 - s.0).abs(), (e.1 - s.1).abs());
        assert_eq!(pts.len() as i32, dx.max(dy) + 1);
        assert_eq!(pts[0], s);
        assert_eq!(*pts.last().unwrap(), e);
        for w in pts.windows(2) {
            assert!((w[1].0 - w[0].0).abs() <= 1 && (w[1].1 - w[0].1).abs() <= 1);
        }
    }
}

#[test]
fn exhausted_line_stays_exhausted() {
    let mut it = LineIterator::new((0, 0), (1, 0));
    assert_eq!(it.next(), Some((0, 0)));
    assert_eq!(it.next(), Some((1, 0)));
    assert_eq!(it.next(), None);
    assert_eq!(it.next(), None);
}

#[test]
fn long_line_starts_along_its_main_axis() {
    let mut it = LineIterator::new((-1_000_000_000, 5), (1_000_000_000, 7));
    let first: Vec<(i32, i32)> = (0..4).map(|_| it.next().unwrap()).collect();
    assert_eq!(first, vec![(-1_000_000_000, 5), (-999_999_999, 5), (-999_999_998, 5), (-999_999_997, 5)]);
    let mut it = LineIterator::new((0, i32::MAX), (3, 0));
    let first: Vec<(i32, i32)> = (0..3).map(|_| it.next().unwrap()).collect();
    assert_eq!(first, vec![(0, i32::MAX), (0, i32::MAX - 1), (0, i32::MAX - 2)]);
}
