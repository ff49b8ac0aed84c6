use rotten::lexer::reader::Reader;

#[test]
fn reader_advances_over_the_text() {
    let mut reader = Reader::new("ab".to_string());
    assert_eq!(reader.peek(), 'a');
    assert_eq!(reader.peek_next(), 'b');
    assert_eq!(reader.advance().unwrap(), 'a');
    assert!(reader.next_is('b'));
    assert!(reader.is_at_end());
    assert_eq!(reader.current_lexeme(), "ab");
    assert_eq!(reader.column, 3);
    assert_eq!(reader.calculate_column(2), 1);
    assert!(reader.advance().is_err());
}

#[test]
fn reader_at_the_end_of_the_text() {
    let mut reader = Reader::new(String::new());
    assert!(reader.is_at_end());
    assert_eq!(reader.peek(), '\0');
    assert_eq!(reader.peek_next(), '\0');
    assert!(!reader.next_is('a'));
    let error = reader.advance().unwrap_err();
    assert_eq!(error.to_string(), "[1:1] Error: Unexpected character.\n");
    assert_eq!(reader.current, 0);
    assert_eq!(reader.column, 1);
}

#[test]
fn reader_counts_rows_and_columns() {
    let mut reader = Reader::new("a\nbc".to_string());
    assert_eq!((reader.row, reader.column), (1, 1));
    reader.advance().unwrap();
    assert_eq!(reader.peek(), '\n');
    assert_eq!(reader.peek_next(), 'b');
    reader.advance().unwrap();
    reader.next_row();
    assert_eq!((reader.row, reader.column), (2, 1));
    assert!(!reader.next_is('x'));
    assert!(reader.next_is('b'));
    assert_eq!((reader.row, reader.column), (2, 2));
    reader.start = 2;
    assert_eq!(reader.current_lexeme(), "b");
    assert_eq!(reader.calculate_column(1), 1);
    assert_eq!(reader.peek(), 'c');
    assert_eq!(reader.peek_next(), '\0');
}

#[test]
fn reader_reads_characters_not_bytes() {
    let mut reader = Reader::new("πx".to_string());
    assert_eq!(reader.advance().unwrap(), 'π');
    assert_eq!(reader.current, 1);
    assert_eq!(reader.current_lexeme(), "π");
    assert_eq!(reader.peek(), 'x');
}
