use ssimulacra2::gaussian::{RecursiveGaussian, Stripe, Taps};

fn s(x: usize, cols: usize) -> Stripe {
    Stripe { x, cols }
}

#[test]
fn stripes_take_wide_then_narrow_then_single_columns() {
    let g = RecursiveGaussian;
    assert_eq!(g.column_stripes(11, 4, 3), vec![s(0, 4), s(4, 4), s(8, 3)]);
    assert_eq!(g.column_stripes(10, 4, 3), vec![s(0, 4), s(4, 4), s(8, 1), s(9, 1)]);
    assert_eq!(g.column_stripes(13, 4, 2), vec![s(0, 4), s(4, 4), s(8, 4), s(12, 1)]);
    assert_eq!(g.column_stripes(3, 8, 2), vec![s(0, 2), s(2, 1)]);
    assert_eq!(g.column_stripes(0, 8, 2), vec![]);
}

#[test]
fn stripes_cover_every_column_once() {
    let g = RecursiveGaussian;
    for width in 0..70 {
        let stripes = g.column_stripes(width, 16, 5);
        let mut next = 0;
        for st in &stripes {
            assert_eq!(st.x, next);
            assert!(st.cols == 16 || st.cols == 5 || st.cols == 1);
            next += st.cols;
        }
        assert_eq!(next, width);
    }
}

#[test]
fn stripe_row_gathers_each_column_from_its_buffer() {
    let g = RecursiveGaussian;
    let (width, height) = (5, 3);
    let stripes = g.column_stripes(width, 2, 1);
    assert_eq!(stripes, vec![s(0, 2), s(2, 2), s(4, 1)]);
    // the plane value at (x, y) is 10 * y + x; each buffer holds its stripe
    // row-major with stride `cols`
    let bufs: Vec<Vec<u32>> = stripes
        .iter()
        .map(|st| {
            (0..height)
                .flat_map(|y| (0..st.cols).map(move |c| 10 * y as u32 + (st.x + c) as u32))
                .collect()
        })
        .collect();
    for y in 0..height {
        let row = g.stripe_row(&stripes, &bufs, width, height, y);
        let expected: Vec<u32> = (0..width).map(|x| 10 * y as u32 + x as u32).collect();
        assert_eq!(row, expected);
    }
}

#[test]
fn scan_taps_follow_the_window() {
    let g = RecursiveGaussian;
    let (radius, len) = (5, 10);
    assert_eq!(g.scan_steps(radius, len), 14);
    assert_eq!(g.scan_taps(0, radius, len), Taps { left: None, right: Some(0), out: None });
    assert_eq!(g.scan_taps(4, radius, len), Taps { left: None, right: Some(4), out: Some(0) });
    assert_eq!(g.scan_taps(10, radius, len), Taps { left: Some(0), right: None, out: Some(6) });
    assert_eq!(g.scan_taps(13, radius, len), Taps { left: Some(3), right: None, out: Some(9) });
    let outs: Vec<usize> = (0..14).filter_map(|st| g.scan_taps(st, radius, len).out).collect();
    assert_eq!(outs, (0..10).collect::<Vec<_>>());
}

#[test]
fn each_output_position_comes_from_one_step() {
    let g = RecursiveGaussian;
    let (radius, len) = (3, 7);
    for p in 0..len {
        let steps: Vec<usize> = (0..g.scan_steps(radius, len))
            .filter(|&st| g.scan_taps(st, radius, len).out == Some(p))
            .collect();
        assert_eq!(steps, vec![p + radius - 1]);
    }
}
