use libscoop::cui::progress_step;

#[test]
fn download_progress_sums_the_urls_of_a_package() {
    let mut ctx: Vec<(String, u64, u64)> = Vec::new();
    assert_eq!(progress_step(&mut ctx, "https://a/x.zip", 0, 0), None);
    assert!(ctx.is_empty());
    assert_eq!(progress_step(&mut ctx, "https://a/x.zip", 100, 40), Some((100, 40, false)));
    assert_eq!(progress_step(&mut ctx, "https://a/y.zip", 50, 50), Some((150, 90, false)));
    assert_eq!(progress_step(&mut ctx, "https://a/x.zip", 100, 100), Some((150, 150, true)));
    assert_eq!(ctx.len(), 2);
    assert_eq!(progress_step(&mut ctx, "https://a/y.zip", 0, 7), None);
    assert_eq!(ctx[1], ("https://a/y.zip".to_string(), 50, 50));
}
