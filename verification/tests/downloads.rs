use pocketemulator::downloads::{DownloadDecision, DownloadWatch, Fingerprint};

fn fp(size: u64, t: u128) -> Fingerprint {
    Fingerprint { size, modified_nanos: t }
}

#[test]
fn download_imported_after_two_equal_polls() {
    let mut w = DownloadWatch::new();
    let path = "/dl/tetris.gb";
    assert_eq!(w.decide(path, fp(32768, 7)), DownloadDecision::Wait);
    w.record(path, fp(32768, 7));
    assert_eq!(w.decide(path, fp(32768, 7)), DownloadDecision::Import);
    assert_eq!(w.decide(path, fp(32768, 8)), DownloadDecision::Wait);
    w.record(path, fp(32768, 8));
    assert_eq!(w.seen.len(), 1);
    assert_eq!(w.decide(path, fp(32768, 8)), DownloadDecision::Import);
    w.mark_imported(path);
    assert!(w.seen.is_empty());
    assert_eq!(w.decide(path, fp(32768, 8)), DownloadDecision::AlreadyImported);
}

#[test]
fn download_small_or_missing_files() {
    let mut w = DownloadWatch::new();
    assert_eq!(w.decide("/dl/part.gb", fp(255, 1)), DownloadDecision::TooSmall);
    w.record("/dl/a.gb", fp(300, 1));
    w.record("/dl/b.gb", fp(300, 2));
    w.forget_missing(&["/dl/b.gb".to_string()]);
    assert_eq!(w.seen.len(), 1);
    assert_eq!(w.seen[0].0, "/dl/b.gb");
    assert_eq!(w.decide("/dl/a.gb", fp(300, 1)), DownloadDecision::Wait);
}
