use radium_cli::code::{create_separator, parse_selection, preview_content, BlockSelector, SelectionError};

#[test]
fn selection_forms() {
    assert_eq!(parse_selection("1"), Ok(BlockSelector::Single(1)));
    assert_eq!(parse_selection(" 3 "), Ok(BlockSelector::Single(3)));
    assert_eq!(parse_selection("+7"), Ok(BlockSelector::Single(7)));
    assert_eq!(parse_selection("2..5"), Ok(BlockSelector::Range(2, 5)));
    assert_eq!(parse_selection("5..2"), Ok(BlockSelector::Range(5, 2)));
    assert_eq!(parse_selection("1,3..5,7"), Ok(BlockSelector::Multiple(vec![1, 3, 4, 5, 7])));
    assert_eq!(parse_selection("1,2"), Ok(BlockSelector::Multiple(vec![1, 2])));
    assert_eq!(parse_selection("1,5..2"), Ok(BlockSelector::Single(1)));
}

#[test]
fn selection_errors() {
    assert_eq!(parse_selection("1,x"), Err(SelectionError::InvalidBlockIndex));
    assert_eq!(parse_selection("a..3"), Err(SelectionError::InvalidRangeStart));
    assert_eq!(parse_selection("1..b"), Err(SelectionError::InvalidRangeEnd));
    assert_eq!(parse_selection("4,"), Err(SelectionError::InvalidBlockIndex));
    assert_eq!(parse_selection(""), Err(SelectionError::InvalidBlockIndex));
    assert_eq!(parse_selection("-1"), Err(SelectionError::InvalidBlockIndex));
    assert_eq!(parse_selection("99999999999999999999999"), Err(SelectionError::InvalidBlockIndex));
}

#[test]
fn separators_by_language() {
    assert_eq!(create_separator("rust"), "// ---\n");
    assert_eq!(create_separator("python"), "# ---\n");
    assert_eq!(create_separator("zsh"), "# ---\n");
    assert_eq!(create_separator("xml"), "<!-- --- -->\n");
    assert_eq!(create_separator("unknown"), "// ---\n");
}

#[test]
fn previews() {
    assert_eq!(preview_content("a\nb\nc", 2), "a\nb\n...");
    assert_eq!(preview_content("a\nb", 2), "a\nb");
    assert_eq!(preview_content("", 3), "");
    assert_eq!(preview_content("a\n", 0), "\n...");
    assert_eq!(preview_content("a\r\nb\r\n", 5), "a\nb");
}

#[test]
fn listed_block_numbers_select_their_block() {
    for n in [0usize, 7, 10, 42, 999, 123456] {
        assert_eq!(parse_selection(&n.to_string()), Ok(BlockSelector::Single(n)));
    }
}
