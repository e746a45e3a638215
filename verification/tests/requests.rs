use blob_store::http_request::{decode_path_element, BodyFetch, FetchStep, FrameEvent};
use blob_store::jumbo::{SpillSettings, TransitionPoll};

#[test]
fn path_elements_are_decoded() {
    assert_eq!(decode_path_element("plain"), "plain");
    assert_eq!(decode_path_element("a%20b%2Fc"), "a b/c");
    assert_eq!(decode_path_element("%c3%A9"), "\u{e9}");
    assert_eq!(decode_path_element("100%"), "100%");
    assert_eq!(decode_path_element("%4"), "%4");
    assert_eq!(decode_path_element("%zz%41"), "%zzA");
    assert_eq!(decode_path_element("%ff"), "%ff");
}

#[test]
fn bodies_are_taken_in() {
    let mut fetch = BodyFetch::fetch_body(0, &SpillSettings::new());
    assert_eq!(fetch.body.max_size, u64::MAX);
    assert!(matches!(fetch.frame(FrameEvent::Data(b"abc".to_vec())), FetchStep::NextFrame));
    assert!(matches!(fetch.frame(FrameEvent::Other), FetchStep::NextFrame));
    assert!(matches!(fetch.frame(FrameEvent::Data(Vec::new())), FetchStep::NextFrame));
    assert!(matches!(fetch.frame(FrameEvent::Data(b"def".to_vec())), FetchStep::NextFrame));
    assert!(matches!(fetch.frame(FrameEvent::End), FetchStep::Done));
    assert_eq!(fetch.body.as_slice(), Some(&b"abcdef"[..]));
}

#[test]
fn bodies_are_refused_just_when_they_are_too_large() {
    let pieces = [&b"ab"[..], b"", b"cde", b"fg"];
    for max_size in 1..10 {
        let mut fetch = BodyFetch::fetch_body(max_size, &SpillSettings::new());
        let mut total = 0;
        for piece in pieces {
            total += piece.len() as u64;
            let step = fetch.frame(FrameEvent::Data(piece.to_vec()));
            assert_eq!(matches!(step, FetchStep::Refused), total > max_size);
            if total > max_size {
                break;
            }
        }
        if max_size >= 7 {
            assert!(matches!(fetch.frame(FrameEvent::End), FetchStep::Done));
            assert_eq!(fetch.body.as_slice(), Some(&b"abcdefg"[..]));
        }
    }
}

#[test]
fn large_bodies_are_refused() {
    let mut fetch = BodyFetch::fetch_body(4, &SpillSettings::new());
    assert!(matches!(fetch.frame(FrameEvent::Data(b"abcd".to_vec())), FetchStep::NextFrame));
    assert!(matches!(fetch.frame(FrameEvent::Data(b"e".to_vec())), FetchStep::Refused));
}

#[test]
fn bodies_move_into_files() {
    let mut fetch = BodyFetch::fetch_body(10, &SpillSettings::new());
    fetch.body.max_ram_size = 3;
    assert!(matches!(fetch.frame(FrameEvent::Data(b"abc".to_vec())), FetchStep::NextFrame));
    match fetch.frame(FrameEvent::Data(b"defg".to_vec())) {
        FetchStep::Spill { bytes, cursor } => {
            assert_eq!(bytes, b"abc");
            assert_eq!(cursor, 3);
        }
        other => panic!("{other:?}"),
    }
    assert!(matches!(fetch.write(), FetchStep::AwaitTransition));
    fetch.body.handle_poll_transition(TransitionPoll::Done).unwrap();
    match fetch.write() {
        FetchStep::WriteToFile(bytes) => assert_eq!(bytes, b"defg"),
        other => panic!("{other:?}"),
    }
    match fetch.file_wrote(3) {
        FetchStep::WriteToFile(bytes) => assert_eq!(bytes, b"g"),
        other => panic!("{other:?}"),
    }
    assert!(matches!(fetch.file_wrote(1), FetchStep::NextFrame));
    assert_eq!(fetch.body.len(), 7);
    assert!(matches!(fetch.frame(FrameEvent::Data(b"hijk".to_vec())), FetchStep::Refused));
}

#[test]
fn full_files_refuse_bodies() {
    let mut fetch = BodyFetch::fetch_body(0, &SpillSettings::new());
    fetch.body.max_ram_size = 1;
    assert!(matches!(
        fetch.frame(FrameEvent::Data(b"ab".to_vec())),
        FetchStep::Spill { .. }
    ));
    fetch.body.handle_poll_transition(TransitionPoll::Done).unwrap();
    assert!(matches!(fetch.write(), FetchStep::WriteToFile(_)));
    assert!(matches!(fetch.file_wrote(0), FetchStep::Refused));
}
