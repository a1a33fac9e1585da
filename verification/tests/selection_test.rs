use clipboard_rs::atoms::{
    atom_list, atom_name, format_of_name, lists_atom, target_of_name, Target,
};
use clipboard_rs::content::{ClipboardPayload, ContentFormat};
use clipboard_rs::context::ClipboardContext;
use clipboard_rs::error::ClipboardError;
use clipboard_rs::incr::{deadline, SendAction, SendPhase};
use clipboard_rs::selection::{
    finish_reads, note_read, offered, reply_property, serve, transfer_threshold, ReadAction,
    ReadPhase, SelectionRead, ServeAction,
};

fn owner() -> ClipboardContext {
    let mut ctx = ClipboardContext::new();
    ctx.set(vec![
        ClipboardPayload::new(ContentFormat::Html, b"<b>hello</b>".to_vec()),
        ClipboardPayload::new(ContentFormat::Text, b"hello".to_vec()),
        ClipboardPayload::new(ContentFormat::Custom("app/x".to_string()), vec![1; 100]),
    ])
    .unwrap();
    ctx
}

#[test]
fn atom_names_of_the_formats() {
    assert_eq!(atom_name(&ContentFormat::Text), "UTF8_STRING");
    assert_eq!(atom_name(&ContentFormat::Rtf), "text/rtf");
    assert_eq!(atom_name(&ContentFormat::Html), "text/html");
    assert_eq!(atom_name(&ContentFormat::Image), "image/png");
    assert_eq!(atom_name(&ContentFormat::Files), "text/uri-list");
    assert_eq!(atom_name(&ContentFormat::Custom("app/x".to_string())), "app/x");
}

#[test]
fn formats_are_found_again_by_name() {
    for format in [
        ContentFormat::Text,
        ContentFormat::Rtf,
        ContentFormat::Html,
        ContentFormat::Image,
        ContentFormat::Files,
        ContentFormat::Custom("app/x".to_string()),
        ContentFormat::Custom(String::new()),
    ] {
        assert!(format_of_name(&atom_name(&format)) == format);
    }
    assert!(format_of_name(&"STRING".to_string()) == ContentFormat::Custom("STRING".to_string()));
    assert!(
        format_of_name(&"utf8_string".to_string())
            == ContentFormat::Custom("utf8_string".to_string())
    );
    assert!(
        format_of_name(&atom_name(&ContentFormat::Custom("text/html".to_string())))
            == ContentFormat::Html
    );
}

#[test]
fn target_names_are_told_apart() {
    assert!(matches!(target_of_name(&"TARGETS".to_string()), Target::Targets));
    match target_of_name(&"image/png".to_string()) {
        Target::Content(f) => assert!(f == ContentFormat::Image),
        other => panic!("unexpected: {:?}", other),
    }
    match target_of_name(&"targets".to_string()) {
        Target::Content(f) => assert!(f == ContentFormat::Custom("targets".to_string())),
        other => panic!("unexpected: {:?}", other),
    }
}

#[test]
fn owner_lists_its_targets() {
    match serve(&owner(), &Target::Targets, 10, 0, 1000) {
        ServeAction::Targets(names) => {
            assert_eq!(names, vec!["TARGETS", "text/html", "UTF8_STRING", "app/x"])
        }
        other => panic!("unexpected: {:?}", other),
    }
    let mut empty = ClipboardContext::new();
    empty.clear();
    assert!(matches!(serve(&empty, &Target::Targets, 10, 0, 1000), ServeAction::Refuse));
}

#[test]
fn owner_sends_small_payloads_whole() {
    match serve(&owner(), &Target::Content(ContentFormat::Text), 5, 0, 1000) {
        ServeAction::Transfer { sender, first } => {
            assert_eq!(sender.phase(), SendPhase::Done);
            match first {
                SendAction::WriteAll(bytes) => assert_eq!(bytes, b"hello".to_vec()),
                other => panic!("unexpected: {:?}", other),
            }
        }
        other => panic!("unexpected: {:?}", other),
    }
}

#[test]
fn owner_announces_large_payloads() {
    match serve(&owner(), &Target::Content(ContentFormat::Custom("app/x".to_string())), 99, 0, 1000) {
        ServeAction::Transfer { mut sender, first } => {
            assert_eq!(sender.phase(), SendPhase::Serving);
            match first {
                SendAction::Announce { total } => assert_eq!(total, 100),
                other => panic!("unexpected: {:?}", other),
            }
            match sender.on_property_deleted(60, 5) {
                SendAction::WriteChunk(c) => assert_eq!(c, vec![1; 60]),
                other => panic!("unexpected: {:?}", other),
            }
        }
        other => panic!("unexpected: {:?}", other),
    }
}

#[test]
fn owner_refuses_what_it_does_not_have() {
    assert!(matches!(
        serve(&owner(), &Target::Content(ContentFormat::Image), 10, 0, 1000),
        ServeAction::Refuse
    ));
}

#[test]
fn a_process_that_lost_the_selection_serves_nothing() {
    let mut ctx = owner();
    ctx.taken_over(vec![ClipboardPayload::new(ContentFormat::Text, b"theirs".to_vec())]);
    assert!(matches!(
        serve(&ctx, &Target::Content(ContentFormat::Text), 10, 0, 1000),
        ServeAction::Refuse
    ));
    assert!(matches!(serve(&ctx, &Target::Targets, 10, 0, 1000), ServeAction::Refuse));
    let nobody = ClipboardContext::new();
    assert!(matches!(serve(&nobody, &Target::Targets, 10, 0, 1000), ServeAction::Refuse));
}

#[test]
fn deadline_saturates() {
    assert_eq!(deadline(100, 50), 150);
    assert_eq!(deadline(0, 0), 0);
    assert_eq!(deadline(u64::MAX - 1, 1), u64::MAX);
    assert_eq!(deadline(u64::MAX - 1, 2), u64::MAX);
    assert_eq!(deadline(u64::MAX, u64::MAX), u64::MAX);
}

#[test]
fn read_of_a_single_property() {
    let mut read = SelectionRead::new();
    assert_eq!(read.phase(), ReadPhase::Idle);
    assert_eq!(read.time_left(0), 0);
    assert_eq!(read.start(1000, 500), ReadAction::ConvertSelection);
    assert_eq!(read.phase(), ReadPhase::AwaitingNotify);
    assert_eq!(read.time_left(1000), 500);
    assert_eq!(read.time_left(1400), 100);
    assert_eq!(read.time_left(1500), 0);
    assert_eq!(read.start(1000, 500), ReadAction::Nothing);
    assert_eq!(read.on_tick(1499), ReadAction::Nothing);
    assert_eq!(read.on_notify(1200, true), ReadAction::FetchProperty);
    assert_eq!(read.phase(), ReadPhase::AwaitingProperty);
    assert_eq!(read.time_left(1200), 500);
    assert_eq!(read.on_property(1300, false, b"hello"), ReadAction::DeleteProperty);
    assert_eq!(read.phase(), ReadPhase::Complete);
    assert_eq!(read.time_left(1300), 0);
    assert_eq!(read.on_tick(999999), ReadAction::Nothing);
    assert_eq!(read.on_chunk(1300, b"more"), ReadAction::Nothing);
    assert_eq!(read.finish().unwrap(), b"hello".to_vec());
}

#[test]
fn read_of_an_incremental_transfer() {
    let mut read = SelectionRead::new();
    read.start(0, 100);
    read.on_notify(10, true);
    assert_eq!(read.on_property(20, true, &[0, 0, 0, 9]), ReadAction::DeleteProperty);
    assert_eq!(read.phase(), ReadPhase::Collecting);
    assert_eq!(read.on_chunk(110, &[1, 2, 3]), ReadAction::DeleteProperty);
    assert_eq!(read.on_chunk(200, &[4]), ReadAction::DeleteProperty);
    assert_eq!(read.time_left(200), 100);
    assert_eq!(read.on_chunk(299, &[5, 6]), ReadAction::DeleteProperty);
    assert_eq!(read.phase(), ReadPhase::Collecting);
    assert_eq!(read.on_chunk(300, &[]), ReadAction::DeleteProperty);
    assert_eq!(read.phase(), ReadPhase::Complete);
    assert_eq!(read.finish().unwrap(), vec![1, 2, 3, 4, 5, 6]);
}

#[test]
fn an_answer_without_property_means_not_available() {
    let mut read = SelectionRead::new();
    read.start(0, 100);
    assert_eq!(read.on_notify(50, false), ReadAction::Nothing);
    assert_eq!(read.phase(), ReadPhase::Unavailable);
    assert_eq!(read.on_tick(1000), ReadAction::Nothing);
    assert!(matches!(read.finish(), Err(ClipboardError::FormatNotAvailable)));
}

#[test]
fn an_unanswered_read_times_out() {
    let mut read = SelectionRead::new();
    read.start(1000, 250);
    assert_eq!(read.on_tick(1249), ReadAction::Nothing);
    assert_eq!(read.phase(), ReadPhase::AwaitingNotify);
    assert_eq!(read.on_tick(1250), ReadAction::Abandon);
    assert_eq!(read.phase(), ReadPhase::TimedOut);
    assert_eq!(read.on_notify(1251, true), ReadAction::Nothing);
    assert_eq!(read.on_property(1251, false, b"late"), ReadAction::Nothing);
    assert_eq!(read.phase(), ReadPhase::TimedOut);
    assert!(matches!(read.finish(), Err(ClipboardError::Timeout)));
}

#[test]
fn late_events_time_out() {
    let mut read = SelectionRead::new();
    read.start(0, 10);
    assert_eq!(read.on_notify(10, true), ReadAction::Abandon);
    assert!(matches!(read.finish(), Err(ClipboardError::Timeout)));

    let mut read = SelectionRead::new();
    read.start(0, 10);
    read.on_notify(5, true);
    assert_eq!(read.on_property(15, false, b"x"), ReadAction::Abandon);
    assert_eq!(read.phase(), ReadPhase::TimedOut);

    let mut read = SelectionRead::new();
    read.start(0, 10);
    read.on_notify(5, true);
    read.on_property(6, true, &[]);
    read.on_chunk(7, &[1]);
    assert_eq!(read.on_chunk(17, &[2]), ReadAction::Abandon);
    assert!(matches!(read.finish(), Err(ClipboardError::Timeout)));

    let mut read = SelectionRead::new();
    read.start(5, 0);
    assert_eq!(read.on_tick(5), ReadAction::Abandon);
}

#[test]
fn unfinished_reads_have_no_bytes() {
    assert!(matches!(
        SelectionRead::new().finish(),
        Err(ClipboardError::ReadFailed)
    ));
    let mut read = SelectionRead::new();
    read.start(0, 10);
    assert!(matches!(read.finish(), Err(ClipboardError::Timeout)));
    let mut idle = SelectionRead::new();
    assert_eq!(idle.on_notify(0, true), ReadAction::Nothing);
    assert_eq!(idle.on_property(0, false, b"x"), ReadAction::Nothing);
    assert_eq!(idle.on_chunk(0, b"x"), ReadAction::Nothing);
    assert_eq!(idle.on_tick(u64::MAX), ReadAction::Nothing);
    assert_eq!(idle.phase(), ReadPhase::Idle);
}

#[test]
fn owner_and_requester_transfer_a_large_payload() {
    let data: Vec<u8> = (0..5000u32).map(|i| (i % 251) as u8).collect();
    let mut ctx = ClipboardContext::new();
    ctx.set(vec![ClipboardPayload::new(ContentFormat::Image, data.clone())])
        .unwrap();
    let mut read = SelectionRead::new();
    let mut now = 0u64;
    assert_eq!(read.start(now, 1000), ReadAction::ConvertSelection);
    let target = target_of_name(&atom_name(&ContentFormat::Image));
    let mut sender = match serve(&ctx, &target, 256, 0, 1000) {
        ServeAction::Transfer { sender, first } => {
            assert!(matches!(first, SendAction::Announce { total: 5000 }));
            sender
        }
        other => panic!("unexpected: {:?}", other),
    };
    assert_eq!(read.on_notify(now, true), ReadAction::FetchProperty);
    assert_eq!(read.on_property(now, true, &[]), ReadAction::DeleteProperty);
    let mut limit = 1usize;
    while read.phase() == ReadPhase::Collecting {
        now += 10;
        limit = limit * 3 % 700 + 1;
        match sender.on_property_deleted(limit, now) {
            SendAction::WriteChunk(chunk) => {
                assert_eq!(read.on_chunk(now, &chunk), ReadAction::DeleteProperty)
            }
            other => panic!("unexpected: {:?}", other),
        }
    }
    assert_eq!(sender.phase(), SendPhase::Done);
    assert_eq!(read.finish().unwrap(), data);
}

#[test]
fn reply_goes_to_the_named_property_or_to_the_target() {
    assert_eq!(reply_property(77, 5), 77);
    assert_eq!(reply_property(0, 5), 5);
    assert_eq!(reply_property(0, 0), 0);
}

#[test]
fn reads_of_several_formats_are_gathered() {
    let mut found: Vec<ClipboardPayload> = Vec::new();
    assert!(note_read(&mut found, ContentFormat::Text, Ok(b"a".to_vec())).is_ok());
    assert!(note_read(
        &mut found,
        ContentFormat::Html,
        Err(ClipboardError::FormatNotAvailable)
    )
    .is_ok());
    assert!(note_read(&mut found, ContentFormat::Rtf, Ok(Vec::new())).is_ok());
    assert_eq!(found.len(), 2);
    assert!(matches!(
        note_read(&mut found, ContentFormat::Image, Err(ClipboardError::Timeout)),
        Err(ClipboardError::Timeout)
    ));
    assert_eq!(found.len(), 2);
    let all = finish_reads(found).unwrap();
    assert!(all[0].format == ContentFormat::Text);
    assert_eq!(all[0].bytes, b"a".to_vec());
    assert!(all[1].format == ContentFormat::Rtf);
    assert!(matches!(
        finish_reads(Vec::new()),
        Err(ClipboardError::FormatNotAvailable)
    ));
}

#[test]
fn atom_lists_are_read_in_the_byte_order_of_the_client() {
    let bytes = [1u8, 0, 0, 0, 0x78, 0x56, 0x34, 0x12, 0xff, 0xff, 0xff, 0xff, 9, 9];
    assert_eq!(atom_list(&bytes, true), vec![1, 0x12345678, u32::MAX]);
    assert_eq!(atom_list(&bytes, false), vec![0x01000000, 0x78563412, u32::MAX]);
    assert_eq!(atom_list(&[], true), Vec::<u32>::new());
    assert_eq!(atom_list(&[1, 2, 3], false), Vec::<u32>::new());
    assert_eq!(atom_list(&0x0a0b0c0du32.to_le_bytes(), true), vec![0x0a0b0c0d]);
    assert_eq!(atom_list(&0x0a0b0c0du32.to_be_bytes(), false), vec![0x0a0b0c0d]);
    assert!(lists_atom(&vec![3, 5, 8], 5));
    assert!(!lists_atom(&vec![3, 5, 8], 4));
    assert!(!lists_atom(&Vec::new(), 0));
}

#[test]
fn the_threshold_is_half_the_largest_request() {
    assert_eq!(transfer_threshold(262140), 131070);
    assert_eq!(transfer_threshold(0), 0);
    assert_eq!(transfer_threshold(1), 0);
    assert_eq!(transfer_threshold(7), 3);
    assert_eq!(transfer_threshold(usize::MAX), usize::MAX / 2);
}

#[test]
fn a_target_list_says_what_is_offered() {
    let list = [5u8, 0, 0, 0, 9, 1, 0, 0];
    assert!(matches!(offered(Ok(list.to_vec()), true, 5), Ok(true)));
    assert!(matches!(offered(Ok(list.to_vec()), true, 265), Ok(true)));
    assert!(matches!(offered(Ok(list.to_vec()), true, 9), Ok(false)));
    assert!(matches!(offered(Ok(list.to_vec()), false, 5), Ok(false)));
    assert!(matches!(offered(Ok(list.to_vec()), false, 0x05000000), Ok(true)));
    assert!(matches!(offered(Ok(Vec::new()), true, 0), Ok(false)));
    assert!(matches!(
        offered(Err(ClipboardError::FormatNotAvailable), true, 5),
        Ok(false)
    ));
    assert!(matches!(offered(Err(ClipboardError::Timeout), true, 5), Ok(false)));
    assert!(matches!(
        offered(Err(ClipboardError::ReadFailed), true, 5),
        Err(ClipboardError::ReadFailed)
    ));
    assert!(matches!(
        offered(Err(ClipboardError::X11ConnectionError("gone".to_string())), true, 5),
        Err(ClipboardError::X11ConnectionError(_))
    ));
}
