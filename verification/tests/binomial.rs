use geometric_algebra::binomial;

#[test]
fn binomial_edges() {
    let mut n: usize = 0;
    while n <= 40 {
        assert_eq!(binomial(n, 0), 1);
        assert_eq!(binomial(n, n), 1);
        assert_eq!(binomial(n, n + 1), 0);
        assert_eq!(binomial(n, n + 7), 0);
        n += 1;
    }
    assert_eq!(binomial(0, 0), 1);
    assert_eq!(binomial(0, 1), 0);
    assert_eq!(binomial(3, usize::MAX), 0);
}

#[test]
fn binomial_matches_pascals_triangle() {
    let rows: Vec<Vec<usize>> = vec![
        vec![1],
        vec![1, 1],
        vec![1, 2, 1],
        vec![1, 3, 3, 1],
        vec![1, 4, 6, 4, 1],
        vec![1, 5, 10, 10, 5, 1],
        vec![1, 6, 15, 20, 15, 6, 1],
        vec![1, 7, 21, 35, 35, 21, 7, 1],
        vec![1, 8, 28, 56, 70, 56, 28, 8, 1],
        vec![1, 9, 36, 84, 126, 126, 84, 36, 9, 1],
        vec![1, 10, 45, 120, 210, 252, 210, 120, 45, 10, 1],
    ];
    let mut n = 0;
    while n < rows.len() {
        let mut k = 0;
        while k <= n {
            assert_eq!(binomial(n, k), rows[n][k]);
            k += 1;
        }
        n += 1;
    }
}

#[test]
fn binomial_obeys_pascals_identity() {
    let mut n: usize = 2;
    while n <= 30 {
        let mut k: usize = 1;
        while k < n {
            assert_eq!(binomial(n, k), binomial(n - 1, k - 1) + binomial(n - 1, k));
            k += 1;
        }
        n += 1;
    }
}

#[test]
fn binomial_is_symmetric() {
    let mut k: usize = 0;
    while k <= 25 {
        assert_eq!(binomial(25, k), binomial(25, 25 - k));
        k += 1;
    }
}

#[test]
fn binomial_of_one_is_the_dimension() {
    assert_eq!(binomial(1, 1), 1);
    assert_eq!(binomial(17, 1), 17);
    assert_eq!(binomial(1_000_000, 1), 1_000_000);
    assert_eq!(binomial(1_000_000, 999_999), 1_000_000);
}

#[test]
fn binomial_exact_values() {
    assert_eq!(binomial(4, 2), 6);
    assert_eq!(binomial(20, 10), 184_756);
    assert_eq!(binomial(30, 15), 155_117_520);
    assert_eq!(binomial(32, 16), 601_080_390);
}

#[test]
fn binomial_is_exact_up_to_the_word() {
    if usize::BITS == 64 {
        assert_eq!(binomial(62, 31) as u64, 465_428_353_255_261_088u64);
        assert_eq!(binomial(64, 32) as u64, 1_832_624_140_942_590_534u64);
        assert_eq!(binomial(66, 33) as u64, 7_219_428_434_016_265_740u64);
        assert_eq!(binomial(67, 33) as u64, 14_226_520_737_620_288_370u64);
        assert_eq!(binomial(67, 34) as u64, 14_226_520_737_620_288_370u64);
        assert_eq!(binomial(100, 98) as u64, 4950u64);
    }
}
