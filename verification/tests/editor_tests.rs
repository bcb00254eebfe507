use typewriter::document::OpenOutcome;
use typewriter::editor::Editor;
use typewriter::keys::KeyTracker;

#[test]
fn new_editor_is_empty() {
    let e = Editor::new(3);
    assert_eq!(e.doc.text, "");
    assert_eq!(e.doc.path, None);
    assert_eq!(e.keys.down, vec![false, false, false]);
    assert_eq!(e.last_key, None);
}

#[test]
fn cues_follow_press_edges_not_held_frames() {
    let mut e = Editor::new(3);
    // two fresh presses: two cues
    assert_eq!(e.frame_keys(&vec![true, false, true]), vec![0, 2]);
    // the same keys still held: no cue, however long the hold lasts
    assert_eq!(e.frame_keys(&vec![true, false, true]), Vec::<usize>::new());
    assert_eq!(e.frame_keys(&vec![true, false, true]), Vec::<usize>::new());
    // a third key joins: exactly one cue
    assert_eq!(e.frame_keys(&vec![true, true, true]), vec![1]);
    // release and press again: one more cue for that key alone
    assert_eq!(e.frame_keys(&vec![false, true, true]), Vec::<usize>::new());
    assert_eq!(e.frame_keys(&vec![true, true, true]), vec![0]);
}

#[test]
fn first_frame_counts_every_down_key_as_pressed() {
    let mut t = KeyTracker::new(4);
    assert_eq!(t.down, vec![false, false, false, false]);
    assert_eq!(t.observe(&vec![true, true, false, true]), vec![0, 1, 3]);
    assert_eq!(t.down, vec![true, true, false, true]);
}

#[test]
fn status_line_tracks_last_pressed_key() {
    let mut e = Editor::new(4);
    assert_eq!(e.last_key, None);
    e.frame_keys(&vec![false, true, false, true]);
    assert_eq!(e.last_key, Some(3));
    // no new press: the shown key stays
    e.frame_keys(&vec![false, true, false, true]);
    assert_eq!(e.last_key, Some(3));
    e.frame_keys(&vec![true, true, false, false]);
    assert_eq!(e.last_key, Some(0));
}

#[test]
fn run_total_cues_equal_total_presses() {
    let mut e = Editor::new(2);
    let frames = vec![
        vec![true, false],
        vec![true, true],
        vec![false, true],
        vec![true, true],
        vec![true, true],
        vec![false, false],
        vec![false, true],
    ];
    // key 0 goes down at the first and fourth frames, key 1 at the second
    // and last: four presses in all, though a key is reported down nine times
    let mut total = 0;
    for f in &frames {
        total += e.frame_keys(f).len();
    }
    assert_eq!(total, 4);
}

#[test]
fn open_loads_content_byte_for_byte() {
    let mut e = Editor::new(2);
    e.apply_open(OpenOutcome::Loaded {
        path: b"notes.txt".to_vec(),
        content: String::from("a\u{e9}b\r\n\tc"),
    });
    assert_eq!(e.doc.text, "a\u{e9}b\r\n\tc");
    assert_eq!(e.doc.path, Some(b"notes.txt".to_vec()));
}

#[test]
fn cancelled_open_changes_nothing() {
    let mut e = Editor::new(2);
    e.apply_open(OpenOutcome::Loaded {
        path: b"kept".to_vec(),
        content: String::from("kept text"),
    });
    e.frame_keys(&vec![true, false]);
    e.apply_open(OpenOutcome::Cancelled);
    assert_eq!(e.doc.text, "kept text");
    assert_eq!(e.doc.path, Some(b"kept".to_vec()));
    assert_eq!(e.keys.down, vec![true, false]);
    assert_eq!(e.last_key, Some(0));
}

#[test]
fn failed_read_changes_nothing() {
    let mut e = Editor::new(1);
    e.apply_open(OpenOutcome::Loaded {
        path: b"prior".to_vec(),
        content: String::from("prior text"),
    });
    e.apply_open(OpenOutcome::ReadFailed);
    assert_eq!(e.doc.text, "prior text");
    assert_eq!(e.doc.path, Some(b"prior".to_vec()));
}

#[test]
fn cancelled_save_plans_no_write() {
    let mut e = Editor::new(1);
    e.apply_open(OpenOutcome::Loaded {
        path: b"p".to_vec(),
        content: String::from("x"),
    });
    assert!(e.plan_save(None).is_none());
    assert_eq!(e.doc.text, "x");
}

#[test]
fn empty_buffer_open_save_scenario() {
    let mut e = Editor::new(0);
    assert_eq!(e.doc.text, "");
    e.apply_open(OpenOutcome::Loaded {
        path: b"in.txt".to_vec(),
        content: String::from("hello\nworld"),
    });
    assert_eq!(e.doc.text, "hello\nworld");
    let plan = e.plan_save(Some(b"out".to_vec())).unwrap();
    assert_eq!(plan.path, b"out.txt".to_vec());
    assert_eq!(plan.contents, "hello\nworld");
}
