//! Error behaviour, boundary cases, and structural-equality checks that the
//! golden fixtures do not cover.

use noise_query::ast::Token;
use noise_query::error::ParseError;
use noise_query::query::is_comment_line;
use noise_query::query::parse_noise;
use noise_query::render::render;
use noise_query::render::render_result;

#[test]
fn missing_value_is_an_error() {
    let r = parse_noise(r#"find {"hello": == }"#);
    assert!(matches!(r, Err(ParseError::Value { .. })));
}

#[test]
fn each_clause_reports_its_own_error() {
    assert!(matches!(
        parse_noise(r#"find {"a": == $}"#),
        Err(ParseError::Lex { .. })
    ));
    assert!(matches!(
        parse_noise(r#"find {"a": == ,}"#),
        Err(ParseError::Value { .. })
    ));
    assert!(matches!(
        parse_noise(r#"find {"a" == 1}"#),
        Err(ParseError::Filter { .. })
    ));
    assert!(matches!(
        parse_noise(r#"find {} return ("#),
        Err(ParseError::Return { .. })
    ));
    assert!(matches!(
        parse_noise(r#"find {} order foo"#),
        Err(ParseError::Order { .. })
    ));
    assert!(matches!(
        parse_noise(r#"find {} limit x"#),
        Err(ParseError::Structure { .. })
    ));
}

#[test]
fn clause_order_is_fixed() {
    assert!(parse_noise(r#"find {} return . order asc"#).is_err());
    assert!(parse_noise(r#"find {} limit 10 return ."#).is_err());
    assert!(parse_noise(r#"find {} limit 1 limit 2"#).is_err());
    assert!(parse_noise(r#"find {} order asc order desc"#).is_err());
    assert!(parse_noise(r#"find {} order asc return . limit 10"#).is_ok());
}

#[test]
fn missing_find_is_a_structural_error() {
    let r = parse_noise(r#"{"hello": == "world"}"#);
    assert!(matches!(r, Err(ParseError::Structure { .. })));
    assert!(matches!(parse_noise(""), Err(ParseError::Structure { .. })));
}

#[test]
fn trailing_input_is_an_error() {
    assert!(parse_noise(r#"find {} {}"#).is_err());
    assert!(parse_noise(r#"find {"a": == 1} ,"#).is_err());
}

#[test]
fn lexical_errors() {
    // Unterminated string: the opening quote stands at character 6.
    let r = parse_noise(r#"find {"hello"#);
    assert!(matches!(r, Err(ParseError::Lex { pos: 6 })));
    // Invalid escape.
    assert!(parse_noise("find {\"a\\n\": == 1}").is_err());
    // Malformed numbers.
    assert!(parse_noise(r#"find {"a": == 3.}"#).is_err());
    assert!(parse_noise(r#"find {"a": == -}"#).is_err());
    // Lone & and |.
    assert!(parse_noise(r#"find {"a": == 1} & {"b": == 2}"#).is_err());
    assert!(parse_noise(r#"find {"a": == 1} | {"b": == 2}"#).is_err());
}

#[test]
fn error_messages_are_readable() {
    let r = parse_noise(r#"find {"#);
    match r {
        Err(e) => assert_eq!(e.message(), "malformed filter at token 2"),
        Ok(_) => panic!("parse should fail"),
    }
    let r = parse_noise(r#"find {"hello"#);
    match r {
        Err(e) => assert_eq!(e.message(), "malformed token at character 6"),
        Ok(_) => panic!("parse should fail"),
    }
}

#[test]
fn boost_and_limit_zero_are_valid() {
    assert_eq!(
        render_result(&parse_noise(r#"find {"a": == 1}^0"#)),
        r#"Ok(Noise(Boost(0, Equal(Some("a"), JsonNumber(1))), [], None, None))"#
    );
    assert_eq!(
        render_result(&parse_noise(r#"find {} limit 0"#)),
        r#"Ok(Noise(All, [], None, Some(Limit(0))))"#
    );
    assert_eq!(
        render_result(&parse_noise(r#"find {"a": ~0= "x"}"#)),
        r#"Ok(Noise(WordMatch(Some("a"), Some(0), JsonString("x")), [], None, None))"#
    );
}

#[test]
fn oversized_numbers_are_errors() {
    assert!(parse_noise(r#"find {"a": == 1}^99999999999999999999999"#).is_err());
    assert!(parse_noise(r#"find {} limit 99999999999999999999999"#).is_err());
    assert!(parse_noise(r#"find {"a": ~99999999999999999999999= "x"}"#).is_err());
}

#[test]
fn empty_field_key_is_an_error() {
    assert!(parse_noise(r#"find {"": == 1}"#).is_err());
}

#[test]
fn value_objects_hold_one_pair() {
    assert_eq!(
        render_result(&parse_noise(r#"find {} return .a default={"k": 1}"#)),
        r#"Ok(Noise(All, [], Some(Default(JsonObject("k", JsonNumber(1)), Path([JsonString("a")]))), None))"#
    );
    assert!(parse_noise(r#"find {} return .a default={"k": 1, "m": 2}"#).is_err());
}

#[test]
fn bbox_keeps_number_text() {
    assert_eq!(
        render_result(&parse_noise(r#"find {"a": && [-1.5, 2, 3.25, 40]}"#)),
        r#"Ok(Noise(Intersect(Some("a"), Bbox(-1.5, 2, 3.25, 40)), [], None, None))"#
    );
    assert!(parse_noise(r#"find {"a": && [1, 2, 3]}"#).is_err());
}

#[test]
fn top_level_array_and_bind() {
    assert_eq!(
        render_result(&parse_noise(r#"find [== "world"]"#)),
        r#"Ok(Noise(Array(Equal(None, JsonString("world"))), [], None, None))"#
    );
    assert_eq!(
        render_result(&parse_noise(r#"find xyz::[== "world"]"#)),
        r#"Ok(Noise(Bind("xyz", Array(Equal(None, JsonString("world")))), [], None, None))"#
    );
}

#[test]
fn default_suffix_inside_return_object() {
    assert_eq!(
        render_result(&parse_noise(r#"find {} return {"a": .b default=1}"#)),
        r#"Ok(Noise(All, [], Some(ReturnObject([Object("a", Default(JsonNumber(1), Path([JsonString("b")])))])), None))"#
    );
}

#[test]
fn negation_sugar_builds_the_same_tree() {
    let sugar = parse_noise(r#"find {"hello": != "world"}"#).unwrap();
    let spelled = parse_noise(r#"find !{"hello": == "world"}"#).unwrap();
    assert_eq!(sugar, spelled);
    let word_sugar = parse_noise(r#"find {"hello": !~2= "world"}"#).unwrap();
    assert_eq!(
        render(&word_sugar),
        r#"Noise(Not(WordMatch(Some("hello"), Some(2), JsonString("world"))), [], None, None)"#
    );
}

#[test]
fn parse_equals_hand_built_tree() {
    let parsed = parse_noise(r#"find {"hello": == "world"}"#).unwrap();
    let expected = Token::Noise(
        Box::new(Token::Equal(
            Some(String::from("hello")),
            Box::new(Token::JsonString(String::from("world"))),
        )),
        vec![],
        Box::new(None),
        Box::new(None),
    );
    assert_eq!(parsed, expected);
}

#[test]
fn boost_placement_changes_the_tree() {
    // On a bare comparison the nearest closed construct is the comparison
    // itself, whichever side of the brace the caret stands on.
    let outer = parse_noise(r#"find {"hello": == "world"}^2"#).unwrap();
    let inner = parse_noise(r#"find {"hello": == "world"^2}"#).unwrap();
    assert_eq!(outer, inner);
    assert_eq!(
        render(&outer),
        r#"Noise(Boost(2, Equal(Some("hello"), JsonString("world"))), [], None, None)"#
    );
    // On an array filter the placement picks different constructs.
    let whole = parse_noise(r#"find {"hello": [== "world"]^2}"#).unwrap();
    let element = parse_noise(r#"find {"hello": [== "world"^2]}"#).unwrap();
    assert_ne!(whole, element);
    assert_eq!(
        render(&whole),
        r#"Noise(Object("hello", Boost(2, Array(Equal(None, JsonString("world"))))), [], None, None)"#
    );
    assert_eq!(
        render(&element),
        r#"Noise(Object("hello", Array(Boost(2, Equal(None, JsonString("world"))))), [], None, None)"#
    );
}

#[test]
fn string_escapes_render_escaped() {
    let parsed = parse_noise(r#"find {"a": == "x\\y\"z"}"#).unwrap();
    assert_eq!(
        render(&parsed),
        r#"Noise(Equal(Some("a"), JsonString("x\\\\y\\\"z")), [], None, None)"#
    );
}

#[test]
fn comment_lines() {
    assert!(is_comment_line("# a comment"));
    assert!(is_comment_line("#"));
    assert!(!is_comment_line(""));
    assert!(!is_comment_line("find {}"));
    assert!(!is_comment_line(" # not at start"));
}

#[test]
fn whitespace_is_insignificant() {
    let tight = parse_noise(r#"find{"a":=="b"}limit 3"#).unwrap();
    let spaced = parse_noise("find\t {  \"a\" :\n ==   \"b\" }   limit   3").unwrap();
    assert_eq!(tight, spaced);
}
