use simulated_anneal::{MetropolisAccept, MultiStartAnnealer};

#[test]
fn multistart_keeps_start_count() {
    let ms = MultiStartAnnealer::new(3);
    assert_eq!(ms.num_starts, 3);
    let single = MultiStartAnnealer::new(1);
    assert_eq!(single.num_starts, 1);
}

#[test]
fn metropolis_is_cloneable() {
    let a = MetropolisAccept;
    let _b = a.clone();
}
