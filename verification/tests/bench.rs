use pool_of_threads::bench_cpu_work;

#[test]
fn bench_cpu_work_zero_iterations_is_zero() {
    assert_eq!(bench_cpu_work(0), 0);
}

#[test]
fn bench_cpu_work_first_steps() {
    assert_eq!(bench_cpu_work(1), 12_345);
    assert_eq!(bench_cpu_work(2), 13_622_895_711_870);
    assert_eq!(bench_cpu_work(3), 17_423_423_094_097_455_071);
}

#[test]
fn bench_cpu_work_wraps_modulo_two_to_the_64() {
    let mut x: u64 = 0;
    for _ in 0..1000 {
        x = ((x as u128 * 1_103_515_245u128 + 12_345u128) % (1u128 << 64)) as u64;
    }
    assert_eq!(bench_cpu_work(1000), x);
}

#[test]
fn bench_cpu_work_is_deterministic() {
    assert_eq!(bench_cpu_work(10_000), bench_cpu_work(10_000));
}
