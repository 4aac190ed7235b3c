//! Tests of the line/column position model.

use transmark::tmast::unist::{Point, Position};

#[test]
fn single_line_point() {
    let value = "The quick brown fox";
    let offset = 8;
    let exp = Point { line: 1, column: 9, offset };

    assert_eq!(Point::new_offset(offset, value.as_bytes()), exp);
}

#[test]
fn lf_point() {
    let value = "The quick brown fox\njumps over the lazy dog";
    let offset = 26;
    let exp = Point { line: 2, column: 7, offset };

    assert_eq!(Point::new_offset(offset, value.as_bytes()), exp);
}

#[test]
fn crlf_point() {
    let value = "The quick brown fox\r\njumps over the lazy dog";
    let offset = 27;
    let exp = Point { line: 2, column: 7, offset };

    assert_eq!(Point::new_offset(offset, value.as_bytes()), exp);
}

#[test]
fn mixed_point() {
    let value = "The quick\r\nbrown fox\njumps over\r\nthe lazy dog";
    let offset = 37;
    let exp = Point { line: 4, column: 5, offset };

    assert_eq!(Point::new_offset(offset, value.as_bytes()), exp);
}

#[test]
fn oob_point() {
    let value = "The quick brown fox\njumps over the lazy dog";
    let offset = 43;
    let exp = Point { line: 2, column: 24, offset };

    assert_eq!(Point::new_offset(offset, value.as_bytes()), exp);
}

#[test]
fn position_slice_clamps_to_length() {
    let value = "The quick brown fox";
    let pos = Position {
        start: Point::new_offset(4, value.as_bytes()),
        end: Point::new_offset(25, value.as_bytes()),
    };
    assert_eq!(pos.slice(value.as_bytes()), b"quick brown fox".to_vec());
}
