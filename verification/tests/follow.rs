use wurstminebot::follow::{cut_lines, FollowError, LogFollower};

fn texts(lines: Vec<Vec<u8>>) -> Vec<String> {
    lines.into_iter().map(|l| String::from_utf8(l).unwrap()).collect()
}

#[test]
fn history_is_counted_not_replayed() {
    let mut follower = LogFollower::start(b"one\ntwo\nthree\n");
    assert_eq!(follower.line_offset(), 3);
    assert_eq!(follower.byte_position(), 14);
    assert_eq!(texts(follower.feed(b"four\nfive\n").unwrap()), vec!["four", "five"]);
    assert_eq!(follower.line_offset(), 5);
    assert_eq!(follower.byte_position(), 24);
}

#[test]
fn open_line_at_start_is_history() {
    let mut follower = LogFollower::start(b"one\ntw");
    assert_eq!(follower.line_offset(), 2);
    assert_eq!(texts(follower.feed(b"o and more").unwrap()), Vec::<String>::new());
    assert_eq!(texts(follower.feed(b"\nthree\nfo").unwrap()), vec!["three"]);
    assert_eq!(texts(follower.feed(b"ur\n").unwrap()), vec!["four"]);
    assert_eq!(follower.line_offset(), 4);
}

#[test]
fn empty_file_and_empty_lines() {
    let mut follower = LogFollower::start(b"");
    assert_eq!(follower.line_offset(), 0);
    assert_eq!(texts(follower.feed(b"").unwrap()), Vec::<String>::new());
    assert_eq!(texts(follower.feed(b"\n\na\n").unwrap()), vec!["", "", "a"]);
    assert_eq!(follower.line_offset(), 3);
}

#[test]
fn pieces_give_what_the_whole_gives() {
    let appended = b"alpha\nbeta\n\ngamma\ndel";
    let mut whole = LogFollower::start(b"old\n");
    let expected = texts(whole.feed(appended).unwrap());
    assert_eq!(expected, vec!["alpha", "beta", "", "gamma"]);
    for cut in 0..=appended.len() {
        let mut follower = LogFollower::start(b"old\n");
        let mut got = texts(follower.feed(&appended[..cut]).unwrap());
        got.extend(texts(follower.feed(&appended[cut..]).unwrap()));
        assert_eq!(got, expected, "cut at {cut}");
        assert_eq!(follower.line_offset(), 5);
    }
}

#[test]
fn truncation_is_reported() {
    let follower = LogFollower::start(b"one\ntwo\n");
    assert_eq!(follower.plan_read(8), Ok((8, 8)));
    assert_eq!(follower.plan_read(20), Ok((8, 20)));
    assert_eq!(follower.plan_read(7), Err(FollowError::Truncated));
    assert_eq!(follower.plan_read(0), Err(FollowError::Truncated));
}

#[test]
fn cutting_keeps_the_open_line() {
    let mut pending = b"ab".to_vec();
    let mut skipping = false;
    let lines = cut_lines(&mut pending, &mut skipping, b"c\nde");
    assert_eq!(texts(lines), vec!["abc"]);
    assert_eq!(pending, b"de");
    assert!(!skipping);
    let mut skipping = true;
    let mut pending = Vec::new();
    assert!(cut_lines(&mut pending, &mut skipping, b"xyz").is_empty());
    assert!(skipping);
    assert!(pending.is_empty());
}

#[test]
fn feeding_never_moves_the_offset_back() {
    let mut follower = LogFollower::start(b"a\nb");
    let mut last = follower.line_offset();
    assert_eq!(last, 2);
    for piece in [&b"c\n"[..], b"", b"d", b"\n\n", b"e\nf\ng"] {
        let lines = follower.feed(piece).unwrap();
        assert_eq!(follower.line_offset(), last + lines.len() as u64);
        assert!(follower.line_offset() >= last);
        last = follower.line_offset();
    }
    assert_eq!(last, 6);
    assert_eq!(follower.byte_position(), 13);
}

#[test]
fn piece_without_room_is_refused() {
    let mut follower = LogFollower::at(3, u64::MAX - 2, false);
    assert_eq!(follower.feed(b"abc"), Err(FollowError::Overflow));
    assert_eq!(follower.line_offset(), 3);
    assert_eq!(follower.byte_position(), u64::MAX - 2);
    assert_eq!(follower.feed(b"a\n").map(texts), Ok(vec!["a".to_string()]));
    assert_eq!(follower.line_offset(), 4);
    assert_eq!(follower.byte_position(), u64::MAX);
    assert_eq!(follower.feed(b"").map(texts), Ok(vec![]));
    let mut counted = LogFollower::at(u64::MAX, 10, true);
    assert_eq!(counted.feed(b"x"), Err(FollowError::Overflow));
    let mut open = LogFollower::at(7, 10, true);
    assert_eq!(open.feed(b"rest\nnext\n").map(texts), Ok(vec!["next".to_string()]));
    assert_eq!(open.line_offset(), 8);
}

#[test]
fn repeated_text_is_told_apart_by_position() {
    let mut follower = LogFollower::start(b"same\nsame\n");
    assert_eq!(follower.line_offset(), 2);
    assert_eq!(texts(follower.feed(b"same\nother\nsame\n").unwrap()), vec!["same", "other", "same"]);
    assert_eq!(follower.line_offset(), 5);
    assert_eq!(texts(follower.feed(b"").unwrap()), Vec::<String>::new());
}
