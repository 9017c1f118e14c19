use bf_lib::{tokenize, BfError, Token};

#[test]
fn every_instruction_character_is_decoded() {
    assert_eq!(Token::from_char('+'), Some(Token::INCR));
    assert_eq!(Token::from_char('-'), Some(Token::DECR));
    assert_eq!(Token::from_char('>'), Some(Token::MOVR));
    assert_eq!(Token::from_char('<'), Some(Token::MOVL));
    assert_eq!(Token::from_char('['), Some(Token::SLOOP));
    assert_eq!(Token::from_char(']'), Some(Token::ELOOP));
    assert_eq!(Token::from_char(','), Some(Token::INPT));
    assert_eq!(Token::from_char('.'), Some(Token::OPT));
}

#[test]
fn whitespace_is_a_no_op() {
    for c in [' ', '\n', '\t', '\r'] {
        assert_eq!(Token::from_char(c), Some(Token::NONE));
    }
}

#[test]
fn other_characters_are_no_instruction() {
    for c in ['?', 'a', '0', '\0', '#', '\u{b}', 'é'] {
        assert_eq!(Token::from_char(c), None);
    }
}

#[test]
fn instructions_print_as_their_character() {
    assert_eq!(Token::INCR.text(), "+");
    assert_eq!(Token::DECR.text(), "-");
    assert_eq!(Token::MOVR.text(), ">");
    assert_eq!(Token::MOVL.text(), "<");
    assert_eq!(Token::SLOOP.text(), "[");
    assert_eq!(Token::ELOOP.text(), "]");
    assert_eq!(Token::INPT.text(), ",");
    assert_eq!(Token::OPT.text(), ".");
    assert_eq!(Token::NONE.text(), "");
}

#[test]
fn text_decodes_back_to_the_instruction() {
    let all = [
        Token::INCR,
        Token::DECR,
        Token::MOVR,
        Token::MOVL,
        Token::SLOOP,
        Token::ELOOP,
        Token::INPT,
        Token::OPT,
    ];
    for t in all {
        let text = t.text();
        let mut chars = text.chars();
        assert_eq!(Token::from_char(chars.next().unwrap()), Some(t));
        assert_eq!(chars.next(), None);
    }
}

#[test]
fn tokenize_gives_one_instruction_per_character() {
    let tokens = tokenize("+-><[],. \n\t\r").unwrap();
    assert_eq!(
        tokens,
        vec![
            Token::INCR,
            Token::DECR,
            Token::MOVR,
            Token::MOVL,
            Token::SLOOP,
            Token::ELOOP,
            Token::INPT,
            Token::OPT,
            Token::NONE,
            Token::NONE,
            Token::NONE,
            Token::NONE,
        ]
    );
}

#[test]
fn tokenize_of_nothing_is_nothing() {
    assert_eq!(tokenize(""), Ok(vec![]));
}

#[test]
fn tokenize_reports_the_first_invalid_character() {
    assert_eq!(
        tokenize("++?+!"),
        Err(BfError::InvalidTokenError { character: '?', position: 2 })
    );
    assert_eq!(tokenize("x"), Err(BfError::InvalidTokenError { character: 'x', position: 0 }));
}

#[test]
fn tokenize_counts_positions_in_characters() {
    assert_eq!(
        tokenize("+ \n+é+"),
        Err(BfError::InvalidTokenError { character: 'é', position: 4 })
    );
    assert_eq!(
        tokenize("é+ü"),
        Err(BfError::InvalidTokenError { character: 'é', position: 0 })
    );
}
