use screencast::args::{ArgHandler, Arguments};

fn settings() -> Arguments {
    Arguments {
        host: "localhost:1234".to_string(),
        screen: 2,
        width: None,
        height: Some(300),
        x: 5,
        y: 6,
        alpha: 200,
        count: Some(3),
        binary: true,
        flush: false,
        frame_buffering: true,
    }
}

#[test]
fn getters_return_settings() {
    let a = ArgHandler::parse(settings());
    assert_eq!(a.host(), "localhost:1234");
    assert_eq!(a.screen(), 2);
    assert_eq!(a.offset(), (5, 6));
    assert_eq!(a.alpha(), 200);
    assert_eq!(a.count(), 3);
    assert!(a.binary());
    assert!(!a.flush());
    assert!(a.frame_buffering());
}

#[test]
fn size_falls_back_per_side() {
    let a = ArgHandler::parse(settings());
    assert_eq!(a.size(Some((800, 600))), (800, 300));
    let mut s = settings();
    s.width = Some(10);
    s.height = None;
    assert_eq!(ArgHandler::parse(s).size(Some((800, 600))), (10, 600));
}

#[test]
fn count_defaults_to_cpus() {
    let mut s = settings();
    s.count = None;
    assert!(ArgHandler::parse(s).count() >= 1);
}
