use clrblk::cli::Args;

#[test]
fn defaults_select_nothing() {
    let args = Args::new();
    assert_eq!(args.width, 6);
    assert!(!args.inline);
    assert!(!args.numbered);
    assert!(!args.fit);
    assert!(args.values.is_empty());
    assert!(!args.rainbow);
    assert!(!args.grayscale);
    assert!(!args.loop_gradient);
    assert!(!args.crazy);
    assert!(!args.help);
    assert!(!args.version);
    assert!(!args.error);
}
