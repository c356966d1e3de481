use lox::chars::{chars_of, class_holds, find_run_end, spells, CharClass};
use lox::report::{format_line_message, join_lines, push_decimal};
use lox::scanner::{lexical_errors, numeral, word_type, Scanner};
use lox::token::{Token, Type, Value};

fn scan_text(text: &str) -> Vec<Token> {
    Scanner::new(&text.to_string()).parse()
}

fn kinds(tokens: &Vec<Token>) -> Vec<Type> {
    tokens.iter().map(|t| t.typ).collect()
}

fn text_of(value: &Value) -> String {
    match value {
        Value::Str(s) => s.clone(),
        other => panic!("not a text: {:?}", other),
    }
}

#[test]
fn every_scan_ends_with_the_only_end_of_input() {
    for text in ["", "  ", "1 + 2", "@", "a @ b", "\"open", "// note", "(){}", "1..1", "é"] {
        let tokens = scan_text(text);
        assert!(!tokens.is_empty());
        assert_eq!(tokens[tokens.len() - 1].typ, Type::EndOfFile);
        let count = tokens.iter().filter(|t| t.typ == Type::EndOfFile).count();
        assert_eq!(count, 1);
    }
}

#[test]
fn blank_text_scans_to_the_end_of_input_alone() {
    for text in ["", " ", "\t\r\n ", "\n\n\n", "\u{a0}\u{2003}"] {
        let tokens = scan_text(text);
        assert_eq!(tokens.len(), 1);
        assert_eq!(tokens[0].typ, Type::EndOfFile);
        assert_eq!(tokens[0].literal, Value::Absent);
        assert_eq!(tokens[0].lexeme, None);
    }
    assert_eq!(scan_text("\n\n\n")[0].line, 4);
    assert_eq!(scan_text("")[0].line, 1);
}

#[test]
fn scanning_twice_gives_the_same_tokens() {
    for text in ["var a = 1.5; // c\n\"s\"", "", "!= <= @ x"] {
        assert_eq!(scan_text(text), scan_text(text));
    }
}

#[test]
fn punctuation_carries_its_own_text() {
    let tokens = scan_text("( != / =");
    assert_eq!(kinds(&tokens), vec![Type::LeftParen, Type::BangEqual, Type::Slash, Type::Equal, Type::EndOfFile]);
    assert_eq!(text_of(&tokens[0].literal), "(");
    assert_eq!(text_of(&tokens[1].literal), "!=");
    assert_eq!(text_of(&tokens[2].literal), "/");
    assert_eq!(text_of(&tokens[3].literal), "=");
    assert_eq!(tokens[4].literal, Value::Absent);
}

#[test]
fn two_character_operators_need_the_equals_sign_next() {
    let tokens = scan_text("! = =! <>");
    assert_eq!(
        kinds(&tokens),
        vec![Type::Bang, Type::Equal, Type::Equal, Type::Bang, Type::Less, Type::Greater, Type::EndOfFile]
    );
    let tokens = scan_text("===");
    assert_eq!(kinds(&tokens), vec![Type::EqualEqual, Type::Equal, Type::EndOfFile]);
}

#[test]
fn comments_give_no_token() {
    let tokens = scan_text("1 // two three\n4");
    assert_eq!(kinds(&tokens), vec![Type::Number, Type::Number, Type::EndOfFile]);
    assert_eq!(tokens[1].literal, Value::Num("4".to_string()));
    assert_eq!(tokens[1].line, 2);
    assert_eq!(kinds(&scan_text("// only")), vec![Type::EndOfFile]);
    assert_eq!(kinds(&scan_text("//")), vec![Type::EndOfFile]);
    assert_eq!(kinds(&scan_text("// a\n// b\n+")), vec![Type::Plus, Type::EndOfFile]);
    assert_eq!(kinds(&scan_text("/ /")), vec![Type::Slash, Type::Slash, Type::EndOfFile]);
    assert_eq!(kinds(&scan_text("1 / 2")), vec![Type::Number, Type::Slash, Type::Number, Type::EndOfFile]);
}

#[test]
fn a_comment_ends_at_a_carriage_return_too() {
    let tokens = scan_text("// a\rb");
    assert_eq!(kinds(&tokens), vec![Type::Identifier, Type::EndOfFile]);
    assert_eq!(tokens[0].line, 1);
}

#[test]
fn strings_keep_what_stands_between_the_quotes() {
    let tokens = scan_text("\" a  b \"");
    assert_eq!(kinds(&tokens), vec![Type::String, Type::EndOfFile]);
    assert_eq!(text_of(&tokens[0].literal), " a  b ");
    let tokens = scan_text("\"\"");
    assert_eq!(kinds(&tokens), vec![Type::String, Type::EndOfFile]);
    assert_eq!(text_of(&tokens[0].literal), "");
    let tokens = scan_text("\"a\"\"b\"");
    assert_eq!(kinds(&tokens), vec![Type::String, Type::String, Type::EndOfFile]);
    assert_eq!(text_of(&tokens[1].literal), "b");
}

#[test]
fn an_open_string_runs_to_the_end() {
    let tokens = scan_text("\"abc");
    assert_eq!(kinds(&tokens), vec![Type::String, Type::EndOfFile]);
    assert_eq!(text_of(&tokens[0].literal), "abc");
    let tokens = scan_text("\"");
    assert_eq!(kinds(&tokens), vec![Type::String, Type::EndOfFile]);
    assert_eq!(text_of(&tokens[0].literal), "");
}

#[test]
fn a_string_over_lines_is_on_its_last_line() {
    let tokens = scan_text("\"a\nb\nc\" x");
    assert_eq!(kinds(&tokens), vec![Type::String, Type::Identifier, Type::EndOfFile]);
    assert_eq!(text_of(&tokens[0].literal), "a\nb\nc");
    assert_eq!(tokens[0].line, 3);
    assert_eq!(tokens[1].line, 3);
}

#[test]
fn tokens_record_their_line() {
    let tokens = scan_text("a\nb\n\nc d\r\ne");
    let lines: Vec<usize> = tokens.iter().map(|t| t.line).collect();
    assert_eq!(lines, vec![1, 2, 4, 4, 5, 5]);
}

#[test]
fn numbers_keep_their_numeral() {
    let tokens = scan_text("0 007 3.25 4. 1..1");
    assert_eq!(
        kinds(&tokens),
        vec![
            Type::Number,
            Type::Number,
            Type::Number,
            Type::Number,
            Type::Number,
            Type::Dot,
            Type::Number,
            Type::EndOfFile
        ]
    );
    assert_eq!(tokens[0].literal, Value::Num("0".to_string()));
    assert_eq!(tokens[1].literal, Value::Num("007".to_string()));
    assert_eq!(tokens[2].literal, Value::Num("3.25".to_string()));
    assert_eq!(tokens[3].literal, Value::Num("4.".to_string()));
    assert_eq!(tokens[4].literal, Value::Num("1.".to_string()));
    assert_eq!(tokens[6].literal, Value::Num("1".to_string()));
    for token in &tokens {
        if let Value::Num(text) = &token.literal {
            assert!(text.parse::<f64>().is_ok());
        }
    }
    assert_eq!(lexical_errors(&tokens), Vec::<String>::new());
}

#[test]
fn a_number_needs_a_digit_first() {
    let tokens = scan_text(".5");
    assert_eq!(kinds(&tokens), vec![Type::Dot, Type::Number, Type::EndOfFile]);
    assert_eq!(tokens[1].literal, Value::Num("5".to_string()));
}

#[test]
fn a_number_of_other_numerals_is_malformed() {
    let tokens = scan_text("1\u{663} 2\n3\u{bd}.4 5");
    assert_eq!(
        kinds(&tokens),
        vec![Type::Number, Type::Number, Type::Number, Type::Number, Type::EndOfFile]
    );
    assert_eq!(tokens[0].literal, Value::Absent);
    assert_eq!(tokens[1].literal, Value::Num("2".to_string()));
    assert_eq!(tokens[2].literal, Value::Absent);
    assert_eq!(tokens[3].literal, Value::Num("5".to_string()));
    assert_eq!(
        lexical_errors(&tokens),
        vec!["line 1: malformed number".to_string(), "line 2: malformed number".to_string()]
    );
}

#[test]
fn lexical_errors_of_handmade_tokens() {
    let bad = Token { typ: Type::Number, lexeme: None, literal: Value::Str("x".to_string()), line: 7 };
    let good = Token { typ: Type::Number, lexeme: None, literal: Value::Num("1".to_string()), line: 8 };
    let other = Token { typ: Type::Plus, lexeme: None, literal: Value::Absent, line: 9 };
    assert_eq!(lexical_errors(&vec![good, other, bad]), vec!["line 7: malformed number".to_string()]);
    assert_eq!(lexical_errors(&vec![]), Vec::<String>::new());
}

#[test]
fn names_go_on_with_letters_numerals_and_hyphens() {
    let tokens = scan_text("a-b c3 d_e");
    assert_eq!(
        kinds(&tokens),
        vec![Type::Identifier, Type::Identifier, Type::Identifier, Type::EndOfFile]
    );
    assert_eq!(text_of(&tokens[0].literal), "a-b");
    assert_eq!(text_of(&tokens[1].literal), "c3");
    assert_eq!(text_of(&tokens[2].literal), "d");
    assert_eq!(text_of(&tokens[3].literal), "_");
}

#[test]
fn a_hyphen_first_is_a_minus() {
    let tokens = scan_text("-a");
    assert_eq!(kinds(&tokens), vec![Type::Minus, Type::Identifier, Type::EndOfFile]);
}

#[test]
fn reserved_words_are_matched_exactly() {
    let tokens = scan_text("And and andy an nil-x True");
    assert_eq!(
        kinds(&tokens),
        vec![
            Type::Identifier,
            Type::And,
            Type::Identifier,
            Type::Identifier,
            Type::Identifier,
            Type::Identifier,
            Type::EndOfFile
        ]
    );
    assert_eq!(text_of(&tokens[1].literal), "and");
}

#[test]
fn truth_words_carry_truth_values() {
    let tokens = scan_text("true false nil");
    assert_eq!(tokens[0].literal, Value::Bool(true));
    assert_eq!(tokens[1].literal, Value::Bool(false));
    assert_eq!(tokens[2].literal, Value::Str("nil".to_string()));
}

#[test]
fn letters_of_other_scripts_make_names() {
    let tokens = scan_text("é = \"ü\"");
    assert_eq!(kinds(&tokens), vec![Type::Identifier, Type::Equal, Type::String, Type::EndOfFile]);
    assert_eq!(text_of(&tokens[0].literal), "é");
    assert_eq!(text_of(&tokens[2].literal), "ü");
}

#[test]
fn an_unknown_character_ends_the_scan() {
    let tokens = scan_text("a @ b");
    assert_eq!(kinds(&tokens), vec![Type::Identifier, Type::EndOfFile]);
    assert_eq!(text_of(&tokens[1].literal), "@");
    assert_eq!(tokens[1].line, 1);
}

#[test]
fn a_second_scan_goes_on_behind_the_token_dropped() {
    let mut scanner = Scanner::new(&"a @ b c".to_string());
    assert_eq!(kinds(&scanner.parse()), vec![Type::Identifier, Type::EndOfFile]);
    let rest = scanner.parse();
    assert_eq!(kinds(&rest), vec![Type::Identifier, Type::EndOfFile]);
    assert_eq!(rest[0].literal, Value::Str("c".to_string()));
    assert_eq!(kinds(&scanner.parse()), vec![Type::EndOfFile]);
}

#[test]
fn no_token_has_a_lexeme() {
    for token in scan_text("var x = (1 + \"a\") // c\n @") {
        assert_eq!(token.lexeme, None);
    }
}

#[test]
fn a_token_equals_its_clone() {
    for token in scan_text("var x = 1.5 != true \"s\"") {
        assert_eq!(token.clone(), token);
    }
}

#[test]
fn chars_of_gives_every_character() {
    assert_eq!(chars_of("aé\n😀"), vec!['a', 'é', '\n', '😀']);
    assert_eq!(chars_of(""), Vec::<char>::new());
}

#[test]
fn classes_of_characters() {
    assert!(class_holds(CharClass::Digit, '0'));
    assert!(class_holds(CharClass::Digit, '9'));
    assert!(!class_holds(CharClass::Digit, 'a'));
    assert!(!class_holds(CharClass::Digit, '\u{663}'));
    assert!(class_holds(CharClass::Numeric, '\u{663}'));
    assert!(!class_holds(CharClass::Numeric, '.'));
    assert!(class_holds(CharClass::Word, '-'));
    assert!(class_holds(CharClass::Word, 'z'));
    assert!(class_holds(CharClass::Word, '5'));
    assert!(!class_holds(CharClass::Word, '_'));
    assert!(class_holds(CharClass::StringBody, 'a'));
    assert!(!class_holds(CharClass::StringBody, '"'));
    assert!(class_holds(CharClass::CommentBody, ' '));
    assert!(!class_holds(CharClass::CommentBody, '\n'));
    assert!(!class_holds(CharClass::CommentBody, '\r'));
}

#[test]
fn runs_end_at_the_first_character_outside_the_class() {
    let text = chars_of("123ab");
    assert_eq!(find_run_end(&text, 0, CharClass::Digit), 3);
    assert_eq!(find_run_end(&text, 3, CharClass::Digit), 3);
    assert_eq!(find_run_end(&text, 2, CharClass::Word), 5);
    assert_eq!(find_run_end(&text, 5, CharClass::Word), 5);
}

#[test]
fn spelling() {
    assert!(spells(&chars_of("and"), "and"));
    assert!(!spells(&chars_of("an"), "and"));
    assert!(!spells(&chars_of("ant"), "and"));
    assert!(spells(&chars_of(""), ""));
}

#[test]
fn numerals() {
    for good in ["0", "12", "1.", "1.5", "00.00"] {
        assert!(numeral(&chars_of(good)), "{}", good);
    }
    for bad in ["", ".", ".5", "1..", "1.2.3", "1a", "a1", "1\u{663}", "-1", "1.5e3"] {
        assert!(!numeral(&chars_of(bad)), "{}", bad);
    }
}

#[test]
fn kinds_of_words() {
    assert_eq!(word_type(&chars_of("while")), Type::While);
    assert_eq!(word_type(&chars_of("whil")), Type::Identifier);
    assert_eq!(word_type(&chars_of("")), Type::Identifier);
}

#[test]
fn decimal_numerals_of_line_numbers() {
    for n in [0usize, 7, 10, 99, 100, 12345, usize::MAX] {
        let mut out = vec!['#'];
        push_decimal(n, &mut out);
        let text: String = out.iter().collect();
        assert_eq!(text, format!("#{}", n));
    }
}

#[test]
fn messages_name_their_line() {
    assert_eq!(format_line_message(3, "expecting ')'"), "line 3: expecting ')'");
    assert_eq!(format_line_message(120, ""), "line 120: ");
}

#[test]
fn joining_messages() {
    assert_eq!(join_lines(&vec![]), "");
    assert_eq!(join_lines(&vec!["a".to_string()]), "a");
    assert_eq!(join_lines(&vec!["a".to_string(), "".to_string(), "c".to_string()]), "a\n\nc");
}
