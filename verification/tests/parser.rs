use regex_parse::ast::ParseError;
use regex_parse::ast::RegEx::{Or, Repetition, Sequence, Terminal};
use regex_parse::parser::RegExParser;

#[test]
fn test_basic() {
    let mut p = RegExParser::new("".to_string());
    assert_eq!(p.parse(), Ok(Sequence(vec![])));

    let mut p = RegExParser::new("a".to_string());
    assert_eq!(p.parse(), Ok(Sequence(vec![Box::new(Terminal('a'))])));

    let mut p = RegExParser::new("a|b".to_string());
    assert_eq!(
        p.parse(),
        Ok(Or(
            Box::new(Sequence(vec![Box::new(Terminal('a'))])),
            Box::new(Sequence(vec![Box::new(Terminal('b'))]))
        ))
    );

    let mut p = RegExParser::new("a*".to_string());
    assert_eq!(
        p.parse(),
        Ok(Sequence(vec![Box::new(Repetition(Box::new(Terminal('a'))))]))
    );

    let mut p = RegExParser::new("((a|b*)|a*)|aab".to_string());
    let res = Ok(Or(
        Box::new(Sequence(vec![Box::new(Or(
            Box::new(Sequence(vec![Box::new(Or(
                Box::new(Sequence(vec![Box::new(Terminal('a'))])),
                Box::new(Sequence(vec![Box::new(Repetition(Box::new(Terminal(
                    'b',
                ))))])),
            ))])),
            Box::new(Sequence(vec![Box::new(Repetition(Box::new(Terminal('a'))))])),
        ))])),
        Box::new(Sequence(vec![
            Box::new(Terminal('a')),
            Box::new(Terminal('a')),
            Box::new(Terminal('b')),
        ])),
    ));
    assert_eq!(p.parse(), res);
}

#[test]
fn literal_input_gives_one_terminal_per_character() {
    let mut p = RegExParser::new("xyz".to_string());
    assert_eq!(
        p.parse(),
        Ok(Sequence(vec![
            Box::new(Terminal('x')),
            Box::new(Terminal('y')),
            Box::new(Terminal('z')),
        ]))
    );
}

#[test]
fn reparsing_with_a_fresh_parser_gives_an_equal_tree() {
    let input = "((a|b*)|a*)|aab";
    let first = RegExParser::new(input.to_string()).parse();
    let second = RegExParser::new(input.to_string()).parse();
    assert_eq!(first, second);

    let first = RegExParser::new("(".to_string()).parse();
    let second = RegExParser::new("(".to_string()).parse();
    assert_eq!(first, second);
}

#[test]
fn unterminated_group_reports_the_missing_paren() {
    let mut p = RegExParser::new("(".to_string());
    assert_eq!(
        p.parse(),
        Err(ParseError {
            expected: ')',
            position: 1,
            found: None,
        })
    );

    let mut p = RegExParser::new("(ab".to_string());
    assert_eq!(
        p.parse(),
        Err(ParseError {
            expected: ')',
            position: 3,
            found: None,
        })
    );
}

#[test]
fn missing_paren_with_a_character_present_names_it() {
    // The inner alternation consumes `a|b` and stops before the second `|`,
    // where the group demands its `)`.
    let mut p = RegExParser::new("(a|b|c)".to_string());
    assert_eq!(
        p.parse(),
        Err(ParseError {
            expected: ')',
            position: 4,
            found: Some('|'),
        })
    );
}

#[test]
fn stray_close_paren_is_left_unconsumed_and_ignored() {
    let mut p = RegExParser::new(")".to_string());
    assert_eq!(p.parse(), Ok(Sequence(vec![])));
}

#[test]
fn trailing_alternation_is_left_unconsumed_and_ignored() {
    let mut p = RegExParser::new("a|b|c".to_string());
    assert_eq!(
        p.parse(),
        Ok(Or(
            Box::new(Sequence(vec![Box::new(Terminal('a'))])),
            Box::new(Sequence(vec![Box::new(Terminal('b'))]))
        ))
    );
}

#[test]
fn a_second_star_is_consumed_as_a_literal() {
    // `base` excludes no character: after `a*` the next factor starts at the
    // second `*`, which is taken as a terminal.
    let mut p = RegExParser::new("a**".to_string());
    assert_eq!(
        p.parse(),
        Ok(Sequence(vec![
            Box::new(Repetition(Box::new(Terminal('a')))),
            Box::new(Terminal('*')),
        ]))
    );
}

#[test]
fn a_group_nests_its_body_as_one_factor() {
    let mut p = RegExParser::new("(a)".to_string());
    assert_eq!(
        p.parse(),
        Ok(Sequence(vec![Box::new(Sequence(vec![Box::new(Terminal(
            'a'
        ))]))]))
    );
}

#[test]
fn an_empty_group_is_an_empty_sequence() {
    let mut p = RegExParser::new("()".to_string());
    assert_eq!(
        p.parse(),
        Ok(Sequence(vec![Box::new(Sequence(vec![]))]))
    );
}

#[test]
fn a_starred_group_repeats_the_whole_body() {
    let mut p = RegExParser::new("(ab)*".to_string());
    assert_eq!(
        p.parse(),
        Ok(Sequence(vec![Box::new(Repetition(Box::new(Sequence(vec![
            Box::new(Terminal('a')),
            Box::new(Terminal('b')),
        ]))))]))
    );
}

#[test]
fn an_empty_right_alternative_is_an_empty_sequence() {
    let mut p = RegExParser::new("a|".to_string());
    assert_eq!(
        p.parse(),
        Ok(Or(
            Box::new(Sequence(vec![Box::new(Terminal('a'))])),
            Box::new(Sequence(vec![]))
        ))
    );
}
