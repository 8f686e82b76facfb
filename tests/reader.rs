#![allow(non_snake_case)]
use lexcore::pos::{CodePos, CodeRange, Pos, Range};
use lexcore::reader::{CodeReader, CodeReaderError, ErrorKind, FileCodeReader};

fn at(offset: i64) -> Pos {
    Pos::new(offset, 1, offset + 1)
}

fn chars(s: &str) -> Vec<char> {
    s.chars().collect()
}

#[test]
fn two_char_source_scenario() {
    let r = FileCodeReader::new("ab.txt", "ab");
    assert_eq!(r.charAt(&at(0)).unwrap(), 'a');
    assert_eq!(r.charAt(&at(1)).unwrap(), 'b');
    assert_eq!(r.pieceAt(&Range::new(at(0), 2)).unwrap(), chars("ab"));
    assert_eq!(r.charAt(&at(2)).unwrap_err().kind, ErrorKind::OutOfBounds);
}

#[test]
fn empty_source_scenario() {
    let r = FileCodeReader::new("empty.txt", "");
    assert_eq!(r.pieceAt(&Range::new(at(0), 0)).unwrap(), Vec::<char>::new());
    assert_eq!(r.charAt(&at(0)).unwrap_err().kind, ErrorKind::OutOfBounds);
}

#[test]
fn whole_range_round_trip() {
    let text = "let x = 1;\n  héllo\twörld\n";
    let r = FileCodeReader::new("src.txt", text);
    let n = text.chars().count() as i64;
    let piece = r.pieceAt(&Range::new(Pos::start(), n)).unwrap();
    assert_eq!(piece.iter().collect::<String>(), text);
}

#[test]
fn char_at_every_offset_and_bounds() {
    let text = "añb\nc";
    let r = FileCodeReader::new("t", text);
    for (i, c) in text.chars().enumerate() {
        assert_eq!(r.charAt(&at(i as i64)).unwrap(), c);
    }
    assert_eq!(r.charAt(&at(5)).unwrap_err().kind, ErrorKind::OutOfBounds);
    assert_eq!(r.charAt(&at(-1)).unwrap_err().kind, ErrorKind::OutOfBounds);
    assert_eq!(r.charAt(&at(i64::MAX)).unwrap_err().kind, ErrorKind::OutOfBounds);
}

#[test]
fn empty_range_at_every_boundary() {
    let r = FileCodeReader::new("t", "xyz");
    for off in 0..=3 {
        assert_eq!(r.pieceAt(&Range::new(at(off), 0)).unwrap(), Vec::<char>::new());
    }
    assert_eq!(r.pieceAt(&Range::new(at(4), 0)).unwrap_err().kind, ErrorKind::OutOfBounds);
}

#[test]
fn piece_is_half_open() {
    let r = FileCodeReader::new("t", "hello world");
    assert_eq!(r.pieceAt(&Range::new(at(6), 5)).unwrap(), chars("world"));
    assert_eq!(r.pieceAt(&Range::new(at(1), 3)).unwrap(), chars("ell"));
}

#[test]
fn piece_out_of_bounds() {
    let r = FileCodeReader::new("t", "hello");
    assert_eq!(r.pieceAt(&Range::new(at(3), 3)).unwrap_err().kind, ErrorKind::OutOfBounds);
    assert_eq!(r.pieceAt(&Range::new(at(-1), 1)).unwrap_err().kind, ErrorKind::OutOfBounds);
    assert_eq!(r.pieceAt(&Range::new(at(2), -1)).unwrap_err().kind, ErrorKind::OutOfBounds);
    assert_eq!(r.pieceAt(&Range::new(at(6), 0)).unwrap_err().kind, ErrorKind::OutOfBounds);
    assert_eq!(
        r.pieceAt(&Range::new(at(i64::MAX), i64::MAX)).unwrap_err().kind,
        ErrorKind::OutOfBounds
    );
    // the reader stays usable after an error
    assert_eq!(r.pieceAt(&Range::new(at(0), 5)).unwrap(), chars("hello"));
}

#[test]
fn path_is_the_source_name() {
    let r = FileCodeReader::new("dir/main.src", "x");
    assert_eq!(r.path(), "dir/main.src");
}

#[test]
fn error_constructors_and_message() {
    let e = CodeReaderError::new("pos is out of bounds!");
    assert_eq!(e.kind, ErrorKind::OutOfBounds);
    assert_eq!(e.message(), "pos is out of bounds!");
    let io = CodeReaderError::from("No such file or directory");
    assert_eq!(io.kind, ErrorKind::Io);
    assert_eq!(io.msg, None);
    assert_eq!(io.message(), "No such file or directory");
    let both = CodeReaderError {
        kind: ErrorKind::Io,
        msg: Some(String::from("open failed: ")),
        cause: Some(String::from("denied")),
    };
    assert_eq!(both.message(), "open failed: denied");
}

#[test]
fn position_advance_tracks_lines() {
    let p = Pos::start();
    assert_eq!(p, Pos::new(0, 1, 1));
    let q = p.advance('a');
    assert_eq!(q, Pos::new(1, 1, 2));
    let r = q.advance('\n');
    assert_eq!(r, Pos::new(2, 2, 1));
    assert!(p < q && q < r);
}

#[test]
fn range_adjacency() {
    let a = Range::new(at(0), 3);
    let b = Range::new(at(3), 2);
    assert!(a.is_followed_by(&b));
    assert!(!b.is_followed_by(&a));
    assert!(!a.is_followed_by(&Range::new(at(4), 1)));
    let empty = Range::new(at(3), 0);
    assert!(a.is_followed_by(&empty) && empty.is_followed_by(&b));
}

#[test]
fn source_qualified_positions_and_ranges() {
    let p = CodePos::new("a.src", &Pos::new(7, 2, 3));
    assert_eq!(p.filename, "a.src");
    assert_eq!(p.pos(), Pos::new(7, 2, 3));
    let r1 = CodeRange::new("a.src", &Range::new(at(0), 4));
    let r2 = CodeRange::new("a.src", &Range::new(at(4), 1));
    let r3 = CodeRange::new("b.src", &Range::new(at(4), 1));
    assert_eq!((r1.offset, r1.length), (0, 4));
    assert!(r1.is_followed_by(&r2));
    assert!(!r1.is_followed_by(&r3));
}
