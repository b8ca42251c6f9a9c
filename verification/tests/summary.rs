use plutus_halo2_verifier_gen::stats::statistics::CircuitStatistics;

#[test]
fn summary_of_fresh_statistics() {
    let mut stats = CircuitStatistics::new(100, 200, 4, 1, 0);
    stats.msm = vec![3, 1];
    stats.hash = vec![5, 9, 7];
    let text = stats.summary();
    let lines: Vec<&str> = text.split('\n').collect();
    assert_eq!(lines[0], "=========== Circuit Summary ============");
    assert_eq!(lines[1], format!("  {:<30} {}", "degree:", 4));
    assert_eq!(lines[2], format!("  {:<30} {} bytes", "proof:", 100));
    assert_eq!(lines[3], format!("  {:<30} {} bytes", "vk:", 200));
    assert_eq!(lines[6], "");
    assert_eq!(lines[7], "");
    assert_eq!(lines[8], "========== Circuit Operations ==========");
    assert!(text.contains(&format!("  {:<30} {}", "hash :", 3)));
    assert!(text.contains(&format!("  {:<30} {} bytes", "max input size :", 9)));
    assert!(text.contains(&format!("  {:<30} {:?}", "MSM sizes:", vec![3, 1])));
    assert!(text.contains(&format!("  {:<30} {} / {} / {}", "add/sub/neg:", 0, 0, 0)));
    assert!(text.ends_with(&format!("  {:<30} {}", "pairing:", 1)));
}
