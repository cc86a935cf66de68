use photosort::backup::parse_rsync_stats;

#[test]
fn test_parse_rsync_stats() {
    let output = r#"
Number of files: 100
Number of files transferred: 25
Total file size: 1,234,567 bytes
Total transferred file size: 500,000 bytes
        "#;

    let (files, bytes) = parse_rsync_stats(output);
    assert_eq!(files, 25);
    assert_eq!(bytes, 500_000);
}

#[test]
fn rsync_stats_missing_or_bad_counts_read_zero() {
    assert_eq!(parse_rsync_stats(""), (0, 0));
    assert_eq!(parse_rsync_stats("Number of regular files transferred: x\r\n"), (0, 0));
    assert_eq!(
        parse_rsync_stats("Number of regular files transferred: 1,024\r\nTotal transferred file size: 9 bytes\r\n"),
        (1024, 9)
    );
}
