use mung::error::{DecodeError, Error, ParseError};
use mung::token::{tokenize, tokenize_str, Token, TokenKind, Tokens};

fn show(tokens: Vec<Token>) -> String {
    let parts: Vec<String> = tokens.iter().map(|t| t.describe()).collect();
    format!("[{}]", parts.join(", "))
}

fn texts(tokens: &[Token]) -> Vec<String> {
    tokens.iter().map(|t| t.text().to_string()).collect()
}

fn kinds(tokens: &[Token]) -> Vec<TokenKind> {
    tokens.iter().map(|t| t.kind()).collect()
}

#[test]
fn tokenize_simple() {
    let tok = tokenize_str("db.teams.find({})");
    assert_eq!(
        show(tok.into_vec().unwrap()),
        "[T[Other db], T[FullStop .], T[Other teams], \
                T[FullStop .], T[Other find], T[ParenLeft (], \
                T[CurlLeft {], T[CurlRight }], T[ParenRight )]]"
    );
}

#[test]
fn tokenize_paren() {
    let tok = tokenize_str("skip(3)");
    assert_eq!(
        show(tok.into_vec().unwrap()),
        "[T[Other skip], T[ParenLeft (], T[Other 3], T[ParenRight )]]"
    );
}

#[test]
fn expect_double_string() {
    let mut tok = tokenize_str("\"foo\"");
    assert_eq!("foo", tok.expect_string(false).unwrap());
}

#[test]
fn expect_single_string() {
    let mut tok = tokenize_str("'foo'");
    assert_eq!("foo", tok.expect_string(false).unwrap());
}

#[test]
fn string_in_pair() {
    let mut tok = tokenize_str("{'foo'}");
    let x = tok
        .find_pair(TokenKind::CurlLeft, TokenKind::CurlRight, true, false)
        .unwrap();
    assert_eq!(
        show(x.into_vec().unwrap()),
        "[T[CurlLeft {], T[SingleQuote '], T[Other foo], T[SingleQuote '], T[CurlRight }]]"
    );
}

#[test]
fn string_in_pair_with_end() {
    let mut tok = tokenize_str("{' } '}");
    let x = tok
        .find_pair(TokenKind::CurlLeft, TokenKind::CurlRight, true, false)
        .unwrap();
    assert_eq!(
        show(x.into_vec().unwrap()),
        "[T[CurlLeft {], T[SingleQuote '], T[Whitespace  ], T[CurlRight }], \
            T[Whitespace  ], T[SingleQuote '], T[CurlRight }]]"
    );
}

#[test]
fn string_with_escape() {
    let mut tok = tokenize_str("' \\' '");
    assert_eq!(" \\' ", tok.expect_string(false).unwrap());
}

#[test]
fn every_punctuation_character_has_its_own_kind() {
    let all = tokenize_str("{}[]()'\"\\,.").into_vec().unwrap();
    assert_eq!(
        kinds(&all),
        vec![
            TokenKind::CurlLeft,
            TokenKind::CurlRight,
            TokenKind::BracketLeft,
            TokenKind::BracketRight,
            TokenKind::ParenLeft,
            TokenKind::ParenRight,
            TokenKind::SingleQuote,
            TokenKind::DoubleQuote,
            TokenKind::Backslash,
            TokenKind::Comma,
            TokenKind::FullStop,
        ]
    );
    for t in &all {
        assert_eq!(t.text().chars().count(), 1);
    }
}

#[test]
fn classify_goes_by_the_character_then_by_whitespace() {
    assert_eq!(TokenKind::classify('{', false), TokenKind::CurlLeft);
    assert_eq!(TokenKind::classify('{', true), TokenKind::CurlLeft);
    assert_eq!(TokenKind::classify('.', true), TokenKind::FullStop);
    assert_eq!(TokenKind::classify(' ', true), TokenKind::Whitespace);
    assert_eq!(TokenKind::classify('x', true), TokenKind::Whitespace);
    assert_eq!(TokenKind::classify('x', false), TokenKind::Other);
    assert_eq!(TokenKind::classify(' ', false), TokenKind::Other);
}

#[test]
fn of_knows_whitespace() {
    assert_eq!(TokenKind::of(' '), TokenKind::Whitespace);
    assert_eq!(TokenKind::of('\n'), TokenKind::Whitespace);
    assert_eq!(TokenKind::of('\t'), TokenKind::Whitespace);
    assert_eq!(TokenKind::of('\u{A0}'), TokenKind::Whitespace);
    assert_eq!(TokenKind::of('\u{3000}'), TokenKind::Whitespace);
    assert_eq!(TokenKind::of('a'), TokenKind::Other);
    assert_eq!(TokenKind::of('7'), TokenKind::Other);
    assert_eq!(TokenKind::of('越'), TokenKind::Other);
    assert_eq!(TokenKind::of(')'), TokenKind::ParenRight);
}

#[test]
fn only_whitespace_and_other_merge() {
    assert!(TokenKind::Whitespace.is_segment());
    assert!(TokenKind::Other.is_segment());
    assert!(!TokenKind::Comma.is_segment());
    assert!(!TokenKind::SingleQuote.is_segment());
    assert!(TokenKind::SingleQuote.is_string_start());
    assert!(TokenKind::DoubleQuote.is_string_start());
    assert!(!TokenKind::Backslash.is_string_start());
    assert!(!TokenKind::Other.is_string_start());
}

#[test]
fn kind_names() {
    assert_eq!(TokenKind::CurlLeft.name(), "CurlLeft");
    assert_eq!(TokenKind::FullStop.name(), "FullStop");
    assert_eq!(TokenKind::Whitespace.name(), "Whitespace");
    assert_eq!(TokenKind::DoubleQuote.name(), "DoubleQuote");
}

#[test]
fn runs_merge_and_punctuation_does_not() {
    let all = tokenize_str("ab  \t\ncd((  ..x").into_vec().unwrap();
    assert_eq!(texts(&all), vec!["ab", "  \t\n", "cd", "(", "(", "  ", ".", ".", "x"]);
    assert_eq!(
        kinds(&all),
        vec![
            TokenKind::Other,
            TokenKind::Whitespace,
            TokenKind::Other,
            TokenKind::ParenLeft,
            TokenKind::ParenLeft,
            TokenKind::Whitespace,
            TokenKind::FullStop,
            TokenKind::FullStop,
            TokenKind::Other,
        ]
    );
}

#[test]
fn tokenizing_is_lossless() {
    for s in [
        "",
        " ",
        "db.teams.find({})",
        "  db . a. find ( {\"x\": 'y\\'z'} , [1,2] )\n.limit(3)  ",
        "おはよう 世界 {💚}",
        "\\\\''\"\"",
    ] {
        let all = tokenize_str(s).into_vec().unwrap();
        assert_eq!(texts(&all).concat(), s);
        assert_eq!(tokenize_str(s).into_string().unwrap(), s);
        for w in all.windows(2) {
            if w[0].kind().is_segment() {
                assert_ne!(w[0].kind(), w[1].kind());
            }
        }
        for t in &all {
            assert!(!t.text().is_empty());
            assert!(t.text().chars().all(|c| TokenKind::of(c) == t.kind()));
        }
    }
}

#[test]
fn peek_keeps_and_next_takes() {
    let mut tok = tokenize_str("a b");
    assert_eq!(tok.peek().unwrap().unwrap().text(), "a");
    assert_eq!(tok.peek().unwrap().unwrap().text(), "a");
    assert_eq!(tok.peek_kind(), Ok(Some(TokenKind::Other)));
    assert_eq!(tok.next().unwrap().unwrap().text(), "a");
    assert_eq!(tok.peek_kind(), Ok(Some(TokenKind::Whitespace)));
    assert_eq!(tok.next().unwrap().unwrap().text(), " ");
    assert_eq!(tok.next().unwrap().unwrap().text(), "b");
    assert!(tok.peek().unwrap().is_none());
    assert!(tok.next().unwrap().is_none());
    assert_eq!(tok.peek_kind(), Ok(None));
}

#[test]
fn skip_white_takes_one_whitespace_token() {
    let mut tok = tokenize_str("   x   ");
    tok.skip_white().unwrap();
    assert_eq!(tok.peek().unwrap().unwrap().text(), "x");
    tok.skip_white().unwrap();
    assert_eq!(tok.next().unwrap().unwrap().text(), "x");
    tok.skip_white().unwrap();
    assert!(tok.next().unwrap().is_none());
    tok.skip_white().unwrap();
}

#[test]
fn token_tests() {
    let mut tok = tokenize_str("abc x1 (");
    let t = tok.next().unwrap().unwrap();
    assert!(t.is_name());
    assert!(!t.is_whitespace());
    assert_eq!(t.kind(), TokenKind::Other);
    assert_eq!(t.describe(), "T[Other abc]");
    assert_eq!(t.clone().expect_name(), Ok("abc".to_string()));
    assert_eq!(t.clone().expect_kind(TokenKind::Other).unwrap().text(), "abc");
    assert_eq!(
        t.expect_kind(TokenKind::Comma).unwrap_err(),
        Error::Parse(ParseError::ExpectedKind(TokenKind::Comma, TokenKind::Other))
    );
    let t = tok.next().unwrap().unwrap();
    assert!(t.is_whitespace());
    assert!(!t.is_name());
    let t = tok.next().unwrap().unwrap();
    assert!(!t.is_name());
    assert_eq!(
        t.expect_name(),
        Err(Error::Parse(ParseError::ExpectedName("x1".to_string())))
    );
    tok.skip_white().unwrap();
    let t = tok.next().unwrap().unwrap();
    assert!(!t.is_name());
}

#[test]
fn names_are_ascii_letters_only() {
    for (s, name) in [("find", true), ("batchSize", true), ("Zz", true), ("a_b", false), ("naïve", false), ("é", false), ("x2", false), ("@", false), ("`", false), ("[", false), ("{", false)] {
        let t = tokenize_str(s).next().unwrap().unwrap();
        assert_eq!(t.is_name(), name, "{}", s);
    }
}

#[test]
fn expect_name_and_kind_on_streams() {
    let mut tok = tokenize_str("db.9");
    assert_eq!(tok.expect_name(), Ok("db".to_string()));
    assert_eq!(tok.expect_kind(TokenKind::FullStop).unwrap().text(), ".");
    assert_eq!(
        tok.expect_kind(TokenKind::FullStop).unwrap_err(),
        Error::Parse(ParseError::ExpectedKind(TokenKind::FullStop, TokenKind::Other))
    );
    // the token that did not fit is gone
    assert_eq!(tok.expect_name(), Err(Error::Parse(ParseError::EndOfInput)));
    assert_eq!(tok.expect_something().unwrap_err(), Error::Parse(ParseError::EndOfInput));
    assert_eq!(
        tok.expect_kind(TokenKind::Comma).unwrap_err(),
        Error::Parse(ParseError::EndOfInput)
    );
    let mut tok = tokenize_str("9");
    assert_eq!(tok.expect_name(), Err(Error::Parse(ParseError::ExpectedName("9".to_string()))));
}

#[test]
fn expect_as_reads_numbers() {
    assert_eq!(tokenize_str("3").expect_as::<i64>(), Ok(3));
    assert_eq!(tokenize_str("-3").expect_as::<i64>(), Ok(-3));
    assert_eq!(tokenize_str("+3").expect_as::<i64>(), Ok(3));
    assert_eq!(tokenize_str("007").expect_as::<u32>(), Ok(7));
    assert_eq!(tokenize_str("+7").expect_as::<u32>(), Ok(7));
    assert_eq!(tokenize_str("4294967295").expect_as::<u32>(), Ok(4294967295));
    assert_eq!(tokenize_str("9223372036854775807").expect_as::<i64>(), Ok(i64::MAX));
    assert_eq!(tokenize_str("-9223372036854775808").expect_as::<i64>(), Ok(i64::MIN));
    assert_eq!(tokenize_str("12 34").expect_as::<i64>(), Ok(12));
}

fn number_failure<T: std::fmt::Debug>(r: Result<T, Error>) -> String {
    match r {
        Err(Error::Parse(ParseError::Number(text, _))) => text,
        other => panic!("{:?}", other),
    }
}

#[test]
fn expect_as_refuses_what_is_no_number() {
    assert_eq!(number_failure(tokenize_str("-3").expect_as::<u32>()), "-3");
    assert_eq!(number_failure(tokenize_str("4294967296").expect_as::<u32>()), "4294967296");
    assert_eq!(number_failure(tokenize_str("9223372036854775808").expect_as::<i64>()), "9223372036854775808");
    assert_eq!(number_failure(tokenize_str("-9223372036854775809").expect_as::<i64>()), "-9223372036854775809");
    assert_eq!(number_failure(tokenize_str("abc").expect_as::<i64>()), "abc");
    assert_eq!(number_failure(tokenize_str("1_000").expect_as::<i64>()), "1_000");
    assert_eq!(number_failure(tokenize_str("+").expect_as::<i64>()), "+");
    assert_eq!(number_failure(tokenize_str("-").expect_as::<i64>()), "-");
    assert_eq!(number_failure(tokenize_str("--1").expect_as::<i64>()), "--1");
    assert_eq!(number_failure(tokenize_str("٣").expect_as::<i64>()), "٣");
    assert_eq!(number_failure(tokenize_str(" 3").expect_as::<i64>()), " ");
    assert_eq!(number_failure(tokenize_str("(").expect_as::<i64>()), "(");
    assert_eq!(tokenize_str("").expect_as::<i64>(), Err(Error::Parse(ParseError::EndOfInput)));
    let said = match tokenize_str("x").expect_as::<u32>() {
        Err(e) => e.message(),
        Ok(_) => panic!(),
    };
    assert_eq!(said, "parser: invalid digit found in string");
}

#[test]
fn quoted_region_is_opaque_to_the_outer_pair() {
    let mut tok = tokenize_str("{\"a}b\"}");
    let x = tok
        .find_pair(TokenKind::CurlLeft, TokenKind::CurlRight, true, false)
        .unwrap();
    assert_eq!(x.into_string().unwrap(), "{\"a}b\"}");
    assert!(tok.next().unwrap().is_none());
}

#[test]
fn escaped_quote_stays_as_written() {
    let mut tok = tokenize_str("'it\\'s'");
    assert_eq!(tok.expect_string(false).unwrap(), "it\\'s");
    assert!(tok.next().unwrap().is_none());
    let mut tok = tokenize_str("'it\\'s' tail");
    assert_eq!(tok.expect_string(true).unwrap(), "'it\\'s'");
    assert_eq!(tok.into_string().unwrap(), " tail");
}

#[test]
fn find_pair_keeps_or_drops_the_outer_pair_only() {
    let mut tok = tokenize_str("((a)(b))c");
    let x = tok
        .find_pair(TokenKind::ParenLeft, TokenKind::ParenRight, false, false)
        .unwrap();
    assert_eq!(x.into_string().unwrap(), "(a)(b)");
    assert_eq!(tok.into_string().unwrap(), "c");
    let mut tok = tokenize_str("((a)(b))c");
    let x = tok
        .find_pair(TokenKind::ParenLeft, TokenKind::ParenRight, true, false)
        .unwrap();
    assert_eq!(x.into_string().unwrap(), "((a)(b))");
    assert_eq!(tok.into_string().unwrap(), "c");
    let mut tok = tokenize_str("()");
    let x = tok
        .find_pair(TokenKind::ParenLeft, TokenKind::ParenRight, false, false)
        .unwrap();
    assert_eq!(x.into_vec().unwrap().len(), 0);
}

#[test]
fn find_pair_result_begins_and_ends_with_the_pair_and_takes_a_prefix() {
    for s in ["{}", "{a}b", "{{}{}}", "{'}'}}", "{ \"{\" '\\'' [ ( } ) ]", "{{{{}}}} {"] {
        let all = tokenize_str(s).into_vec().unwrap();
        let mut tok = tokenize_str(s);
        let x = tok
            .find_pair(TokenKind::CurlLeft, TokenKind::CurlRight, true, false)
            .unwrap()
            .into_vec()
            .unwrap();
        let rest = tok.into_vec().unwrap();
        assert_eq!(x.first().unwrap().kind(), TokenKind::CurlLeft);
        assert_eq!(x.last().unwrap().kind(), TokenKind::CurlRight);
        let mut again = texts(&x);
        again.extend(texts(&rest));
        assert_eq!(again, texts(&all));
    }
}

#[test]
fn find_pair_failures() {
    let pair = |s: &str, esc: bool| {
        let mut tok = tokenize_str(s);
        match tok.find_pair(TokenKind::CurlLeft, TokenKind::CurlRight, true, esc) {
            Ok(_) => panic!("{}", s),
            Err(e) => e,
        }
    };
    assert_eq!(pair("", false), Error::Parse(ParseError::EndOfInput));
    assert_eq!(
        pair("x{}", false),
        Error::Parse(ParseError::ExpectedKind(TokenKind::CurlLeft, TokenKind::Other))
    );
    let unbalanced = Error::Parse(ParseError::Unbalanced(TokenKind::CurlLeft, TokenKind::CurlRight));
    assert_eq!(pair("{", false), unbalanced);
    assert_eq!(pair("{{}", false), unbalanced);
    assert_eq!(pair("{ a, b", false), unbalanced);
    assert_eq!(unbalanced.message(), "parser: Unbalanced CurlLeft-CurlRight");
    assert_eq!(
        pair("{'}", false),
        Error::Parse(ParseError::Unbalanced(TokenKind::SingleQuote, TokenKind::SingleQuote))
    );
    // each quote of the other kind opens a string inside the string
    assert_eq!(
        pair("{\"it's\"}", false),
        Error::Parse(ParseError::Unbalanced(TokenKind::DoubleQuote, TokenKind::DoubleQuote))
    );
    assert_eq!(pair("{\\", true), Error::Parse(ParseError::EndAfterEscape));
    assert_eq!(pair("{'\\", false), Error::Parse(ParseError::EndAfterEscape));
    // without escapes a backslash is a token like any other
    assert_eq!(pair("{\\", false), unbalanced);
}

#[test]
fn escapes_hide_the_pair_only_where_they_are_on() {
    let mut tok = tokenize_str("{\\}}");
    let x = tok
        .find_pair(TokenKind::CurlLeft, TokenKind::CurlRight, true, true)
        .unwrap();
    assert_eq!(x.into_string().unwrap(), "{\\}}");
    let mut tok = tokenize_str("{\\}}");
    let x = tok
        .find_pair(TokenKind::CurlLeft, TokenKind::CurlRight, true, false)
        .unwrap();
    assert_eq!(x.into_string().unwrap(), "{\\}");
    assert_eq!(tok.into_string().unwrap(), "}");
}

#[test]
fn expect_string_failures() {
    assert_eq!(
        tokenize_str("").expect_string(false),
        Err(Error::Parse(ParseError::EndBeforeString))
    );
    assert_eq!(
        tokenize_str("foo").expect_string(false),
        Err(Error::Parse(ParseError::ExpectedString(TokenKind::Other)))
    );
    assert_eq!(
        tokenize_str("'foo").expect_string(false),
        Err(Error::Parse(ParseError::Unbalanced(TokenKind::SingleQuote, TokenKind::SingleQuote)))
    );
    assert_eq!(
        tokenize_str("\"foo\\\"").expect_string(false),
        Err(Error::Parse(ParseError::Unbalanced(TokenKind::DoubleQuote, TokenKind::DoubleQuote)))
    );
    assert_eq!(
        tokenize_str("\"foo\\").expect_string(false),
        Err(Error::Parse(ParseError::EndAfterEscape))
    );
    assert_eq!(tokenize_str("\"a'b'c\"").expect_string(false), Ok("a'b'c".to_string()));
    assert_eq!(tokenize_str("''").expect_string(false), Ok("".to_string()));
    assert_eq!(tokenize_str("''").expect_string(true), Ok("''".to_string()));
}

#[test]
fn extracted_stream_can_be_read_like_any_other() {
    let mut tok = tokenize_str("( a , 'b' )");
    let mut inner =
        tok.find_pair(TokenKind::ParenLeft, TokenKind::ParenRight, false, false).unwrap();
    assert!(matches!(inner, Tokens::Peekable(_)));
    inner.skip_white().unwrap();
    assert_eq!(inner.peek().unwrap().unwrap().text(), "a");
    assert_eq!(inner.expect_name(), Ok("a".to_string()));
    inner.skip_white().unwrap();
    inner.expect_kind(TokenKind::Comma).unwrap();
    inner.skip_white().unwrap();
    assert_eq!(inner.expect_string(true), Ok("'b'".to_string()));
    inner.skip_white().unwrap();
    assert_eq!(inner.peek_kind(), Ok(None));
    assert!(inner.next().unwrap().is_none());
}

#[test]
fn fault_comes_after_the_tokens_before_it() {
    // "ab(" then a byte that begins no character
    let mut tok = tokenize(vec![b'a', b'b', b'(', 0xFF]);
    assert_eq!(tok.next().unwrap().unwrap().text(), "ab");
    assert_eq!(tok.next().unwrap().unwrap().text(), "(");
    assert_eq!(tok.peek().unwrap_err(), Error::Decode(DecodeError::BadLead));
    assert_eq!(tok.next().unwrap_err(), Error::Decode(DecodeError::BadLead));
    assert_eq!(tok.skip_white(), Err(Error::Decode(DecodeError::BadLead)));
    assert_eq!(tok.expect_name(), Err(Error::Decode(DecodeError::BadLead)));
    assert_eq!(tok.into_string(), Err(Error::Decode(DecodeError::BadLead)));
}

#[test]
fn run_that_reaches_a_fault_is_no_token() {
    let mut tok = tokenize(vec![b'(', b'a', b'b', 0xE3, 0x81]);
    assert_eq!(tok.next().unwrap().unwrap().text(), "(");
    assert_eq!(tok.next().unwrap_err(), Error::Decode(DecodeError::Truncated));
    assert_eq!(tok.next().unwrap_err(), Error::Decode(DecodeError::Truncated));
    let tok = tokenize(vec![b'x', 0xED, 0xA0, 0x80]);
    assert_eq!(tok.into_vec().unwrap_err(), Error::Decode(DecodeError::NotScalar));
    assert_eq!(Error::Decode(DecodeError::NotScalar).message(), "Failed to read utf-8 char");
}

#[test]
fn fault_inside_a_region_is_the_failure() {
    let mut tok = tokenize(vec![b'{', b'a', b',', 0xFF, b'}']);
    assert_eq!(
        tok.find_pair(TokenKind::CurlLeft, TokenKind::CurlRight, true, false).unwrap_err(),
        Error::Decode(DecodeError::BadLead)
    );
}

#[test]
fn tokenize_bytes_and_text_agree() {
    let s = "db.x.find({ 'ü': \"✓\" })";
    assert_eq!(
        show(tokenize(s.as_bytes().to_vec()).into_vec().unwrap()),
        show(tokenize_str(s).into_vec().unwrap())
    );
}

#[test]
fn messages() {
    let m = |e: ParseError| e.message();
    assert_eq!(m(ParseError::EndOfInput), "End of input");
    assert_eq!(m(ParseError::EndBeforeString), "End when we want a string");
    assert_eq!(m(ParseError::EndAfterEscape), "Unexpected end after string escape");
    assert_eq!(m(ParseError::ExpectedName("x1".into())), "Expected name: x1");
    assert_eq!(
        m(ParseError::ExpectedKind(TokenKind::ParenLeft, TokenKind::Other)),
        "Expected ParenLeft but got: Other"
    );
    assert_eq!(
        m(ParseError::ExpectedString(TokenKind::Comma)),
        "Expected string literal: Comma"
    );
    assert_eq!(
        m(ParseError::Unbalanced(TokenKind::ParenLeft, TokenKind::ParenRight)),
        "Unbalanced ParenLeft-ParenRight"
    );
    assert_eq!(m(ParseError::ExpectedDb), "Expected 'db'");
    assert_eq!(m(ParseError::UnhandledOperation("bogus".into())), "Unhandled operation: bogus");
    assert_eq!(
        m(ParseError::UnrecognizedCursorOption("hint".into())),
        "Unrecognized cursor option: hint"
    );
    assert_eq!(m(ParseError::UpdateNeedsQuery), "Update requires a query");
    assert_eq!(m(ParseError::UpdateNeedsUpdate), "Update requires an update");
    assert_eq!(m(ParseError::InsertNeedsDocument), "Insert needs a document");
    assert_eq!(m(ParseError::RemoveNeedsDocument), "Remove needs a document");
    assert_eq!(m(ParseError::SortNeedsDocument), "Expected doc for sort()");
    assert_eq!(m(ParseError::Number("x".into(), "why".into())), "why");
    assert_eq!(m(ParseError::Options("why".into())), "why");
    assert_eq!(m(ParseError::OptionNotBoolean("multi".into())), "Option is not a boolean: multi");
    assert_eq!(Error::Parse(ParseError::ExpectedDb).message(), "parser: Expected 'db'");
}
