use ray_tracing::obj::{chars_of, face, parse, read_index, record, space, tokens, MeshError, Record};

fn text(tokens: &[Vec<char>]) -> Vec<String> {
    tokens.iter().map(|t| t.iter().collect()).collect()
}

#[test]
fn characters_of_a_line() {
    assert_eq!(chars_of("v é1"), vec!['v', ' ', 'é', '1']);
    assert!(chars_of("").is_empty());
}

#[test]
fn white_space_is_unicode_white_space() {
    for c in [' ', '\t', '\n', '\r', '\u{b}', '\u{c}', '\u{85}', '\u{a0}', '\u{2003}', '\u{3000}'] {
        assert!(space(c), "{c:?}");
    }
    for c in ['a', '0', '\u{200b}', '\u{1}', '+'] {
        assert!(!space(c), "{c:?}");
    }
}

#[test]
fn fields_after_the_tag() {
    assert_eq!(text(&tokens("v 1.0  2.5\t-3 ")), vec!["1.0", "2.5", "-3"]);
    assert_eq!(text(&tokens("f1 2")), vec!["1", "2"]);
    assert!(tokens("").is_empty());
    assert!(tokens("v").is_empty());
    assert!(tokens("v   ").is_empty());
}

#[test]
fn fields_split_on_unicode_white_space() {
    assert_eq!(text(&tokens("f 1\u{3000}2\u{a0}3")), vec!["1", "2", "3"]);
}

#[test]
fn reads_vertex_numbers() {
    assert_eq!(read_index(&vec!['4', '2']), Some(42));
    assert_eq!(read_index(&vec!['+', '7']), Some(7));
    assert_eq!(read_index(&vec!['0', '0', '9']), Some(9));
    assert_eq!(read_index(&vec!['+']), None);
    assert_eq!(read_index(&vec!['-', '1']), None);
    assert_eq!(read_index(&vec!['1', '/', '2']), None);
    assert_eq!(read_index(&vec![]), None);
}

#[test]
fn largest_vertex_number_reads_and_one_more_does_not() {
    let max: Vec<char> = usize::MAX.to_string().chars().collect();
    assert_eq!(read_index(&max), Some(usize::MAX));
    let over: Vec<char> = (usize::MAX as u128 + 1).to_string().chars().collect();
    assert_eq!(read_index(&over), None);
}

#[test]
fn parses_a_face_line() {
    assert_eq!(parse("f 1 2 3"), Some(vec![1, 2, 3]));
    assert_eq!(parse("f  10\t+20 030"), Some(vec![10, 20, 30]));
    assert_eq!(parse("f"), Some(vec![]));
}

#[test]
fn a_field_that_is_no_number_fails_the_line() {
    assert_eq!(parse("f 1 two 3"), None);
    assert_eq!(parse("f 1/1 2/2 3/3"), None);
    assert_eq!(parse("f -1 -2 -3"), None);
}

#[test]
fn record_kind_goes_by_the_first_character() {
    assert_eq!(record("v 0 1 2"), Record::Vertex);
    assert_eq!(record("vn 0 1 2"), Record::Vertex);
    assert_eq!(record("f 1 2 3"), Record::Face);
    assert_eq!(record("# v"), Record::Other);
    assert_eq!(record(" v"), Record::Other);
    assert_eq!(record(""), Record::Other);
}

#[test]
fn face_numbers_become_positions_from_zero() {
    assert_eq!(face("f 1 2 3", 3), Ok((0, 1, 2)));
    assert_eq!(face("f 4 1 2", 4), Ok((3, 0, 1)));
}

#[test]
fn face_with_a_bad_number() {
    assert_eq!(face("f 1 x 3", 3), Err(MeshError::BadNumber));
}

#[test]
fn face_with_other_than_three_vertices() {
    assert_eq!(face("f 1 2", 3), Err(MeshError::NotATriangle(2)));
    assert_eq!(face("f 1 2 3 4", 4), Err(MeshError::NotATriangle(4)));
    assert_eq!(face("f", 4), Err(MeshError::NotATriangle(0)));
}

#[test]
fn face_naming_a_missing_vertex() {
    assert_eq!(face("f 0 1 2", 3), Err(MeshError::NoSuchVertex(0)));
    assert_eq!(face("f 1 2 4", 3), Err(MeshError::NoSuchVertex(4)));
    assert_eq!(face("f 9 2 4", 3), Err(MeshError::NoSuchVertex(9)));
    assert_eq!(face("f 1 2 3", 0), Err(MeshError::NoSuchVertex(1)));
}
