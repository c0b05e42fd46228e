use zedra_host::buffer::Buffer;

#[test]
fn test_line_count() {
    let buffer = Buffer::new("hello\nworld\n".to_string());
    assert_eq!(buffer.line_count(), 3);
}

#[test]
fn test_line_text() {
    let buffer = Buffer::new("fn main() {\n    println!(\"hi\");\n}\n".to_string());
    assert_eq!(buffer.line_text(0), "fn main() {");
    assert_eq!(buffer.line_text(1), "    println!(\"hi\");");
    assert_eq!(buffer.line_text(2), "}");
}

#[test]
fn test_offset_to_point() {
    let buffer = Buffer::new("abc\ndef\n".to_string());
    assert_eq!(buffer.offset_to_point(0), (0, 0));
    assert_eq!(buffer.offset_to_point(3), (0, 3));
    assert_eq!(buffer.offset_to_point(4), (1, 0));
    assert_eq!(buffer.offset_to_point(7), (1, 3));
}

#[test]
fn test_insert_delete() {
    let mut buffer = Buffer::new("hello".to_string());
    buffer.insert(5, " world");
    assert_eq!(buffer.text(), "hello world");

    buffer.delete(5..6);
    assert_eq!(buffer.text(), "helloworld");
}

#[test]
fn ranges_and_points() {
    let buffer = Buffer::new("ab\ncd".to_string());
    assert_eq!(buffer.len(), 5);
    assert!(!buffer.is_empty());
    assert_eq!(buffer.line_byte_range(0), 0..3);
    assert_eq!(buffer.line_byte_range(1), 3..5);
    assert_eq!(buffer.line_byte_range(9), 5..5);
    assert_eq!(buffer.line_text(1), "cd");
    assert_eq!(buffer.line_text(9), "");
    assert_eq!(buffer.point_to_offset(0, 1), 1);
    assert_eq!(buffer.point_to_offset(0, 99), 3);
    assert_eq!(buffer.point_to_offset(1, usize::MAX), 5);
    assert_eq!(buffer.point_to_offset(7, 0), 5);
    assert_eq!(buffer.offset_to_point(100), (1, 2));
}

#[test]
fn multibyte_text_keeps_byte_offsets() {
    let mut buffer = Buffer::new("é\nü".to_string());
    assert_eq!(buffer.len(), 5);
    assert_eq!(buffer.line_byte_range(1), 3..5);
    assert_eq!(buffer.line_text(0), "é");
    buffer.insert(100, "!");
    assert_eq!(buffer.text(), "é\nü!");
    buffer.delete(0..3);
    assert_eq!(buffer.text(), "ü!");
    assert_eq!(buffer.line_count(), 1);
}

#[test]
fn empty_and_replaced_text() {
    let mut buffer = Buffer::new(String::new());
    assert!(buffer.is_empty());
    assert_eq!(buffer.line_count(), 1);
    buffer.delete(3..1);
    assert_eq!(buffer.text(), "");
    buffer.set_text("x\ny\nz".to_string());
    assert_eq!(buffer.line_count(), 3);
    assert_eq!(buffer.line_text(2), "z");
}
