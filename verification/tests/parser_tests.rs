use abnf_engine::parser::{
    alternation, c_nl, char_val, comment, element, num_val, prose_val, repeat, repetition, rule,
    rule_name,
};

#[test]
fn test_rule_parsing() {
    let input: Vec<u8> = b"elements       =  alternation *c-wsp\r\n".to_vec();
    let (end, def) = rule(&input, 0).unwrap().unwrap();
    assert_eq!(end, input.len());
    assert_eq!(def.name.as_str(), "elements");
    assert!(!def.incremental);

    let input: Vec<u8> =
        b"element        =  rulename / group / option \r\n                  char-val / num-val / prose-val\r\n"
            .to_vec();
    let (end, def) = rule(&input, 0).unwrap().unwrap();
    assert_eq!(end, input.len());
    assert_eq!(def.name.as_str(), "element");
}

#[test]
fn test_rule_name() {
    let input: Vec<u8> = b"rule-name".to_vec();
    assert_eq!(rule_name(&input, 0), Some(input.len()));

    let input: Vec<u8> = b"x100910912".to_vec();
    assert_eq!(rule_name(&input, 0), Some(input.len()));

    let input: Vec<u8> = b"x----".to_vec();
    assert_eq!(rule_name(&input, 0), Some(input.len()));
}

#[test]
fn test_invalid_rule_name() {
    let input: Vec<u8> = b"1-rule-name".to_vec();
    assert!(rule_name(&input, 0).is_none());

    let input: Vec<u8> = b"-rule-name".to_vec();
    assert!(rule_name(&input, 0).is_none());
}

#[test]
fn test_c_nl_parsing() {
    let input: Vec<u8> = b"\r\n".to_vec();
    assert_eq!(c_nl(&input, 0), Some(input.len()));

    let input: Vec<u8> = b"\n".to_vec();
    assert_eq!(c_nl(&input, 0), Some(input.len()));

    // Comments count as valid line endings too
    let input: Vec<u8> = b"; some comment\r\n".to_vec();
    assert_eq!(c_nl(&input, 0), Some(input.len()));
}

#[test]
fn test_comment_parsing() {
    let input: Vec<u8> = b"; this is a comment\r\n".to_vec();
    assert_eq!(comment(&input, 0), Some(input.len()));
}

#[test]
fn test_alternation() {
    let input: Vec<u8> = b"a / b / c".to_vec();
    let (end, _expr) = alternation(&input, 0).unwrap().unwrap();
    assert_eq!(end, input.len());
}

#[test]
fn test_repetition_parsing() {
    // Repetitions may not even have a repeat count
    let input: Vec<u8> = b"\"word\"".to_vec();
    let (end, _) = repetition(&input, 0).unwrap().unwrap();
    assert_eq!(end, input.len());

    // 0 or more repetitions of the string "word"
    let input: Vec<u8> = b"*\"word\"".to_vec();
    let (end, _) = repetition(&input, 0).unwrap().unwrap();
    assert_eq!(end, input.len());

    // 1 or more repetitions of the string "word"
    let input: Vec<u8> = b"1*\"word\"".to_vec();
    let (end, _) = repetition(&input, 0).unwrap().unwrap();
    assert_eq!(end, input.len());

    // 1 to 5 repetitions of the string "word"
    let input: Vec<u8> = b"1*5\"word\"".to_vec();
    let (end, _) = repetition(&input, 0).unwrap().unwrap();
    assert_eq!(end, input.len());
}

#[test]
fn test_repeat_parsing() {
    // 0 or more repeats
    let input: Vec<u8> = b"*".to_vec();
    let (end, min, max) = repeat(&input, 0).unwrap().unwrap();
    assert_eq!((end, min, max), (input.len(), 0, None));

    // 0 or 1 repeats
    let input: Vec<u8> = b"*1".to_vec();
    let (end, min, max) = repeat(&input, 0).unwrap().unwrap();
    assert_eq!((end, min, max), (input.len(), 0, Some(1)));

    // 1 or more repeats
    let input: Vec<u8> = b"1*".to_vec();
    let (end, min, max) = repeat(&input, 0).unwrap().unwrap();
    assert_eq!((end, min, max), (input.len(), 1, None));

    // 1 to 5 repeats
    let input: Vec<u8> = b"1*5".to_vec();
    let (end, min, max) = repeat(&input, 0).unwrap().unwrap();
    assert_eq!((end, min, max), (input.len(), 1, Some(5)));
}

#[test]
fn test_element_parsing() {
    // rulename
    let input: Vec<u8> = b"a-rule-name-ending-with-123".to_vec();
    let (end, _) = element(&input, 0).unwrap().unwrap();
    assert_eq!(end, input.len());

    // group
    let input: Vec<u8> = b"(a group)".to_vec();
    let (end, _) = element(&input, 0).unwrap().unwrap();
    assert_eq!(end, input.len());

    // option
    let input: Vec<u8> = b"[repeat]".to_vec();
    let (end, _) = element(&input, 0).unwrap().unwrap();
    assert_eq!(end, input.len());

    // char-val
    let input: Vec<u8> = b"\"some string\"".to_vec();
    let (end, _) = element(&input, 0).unwrap().unwrap();
    assert_eq!(end, input.len());

    // num-val
    let input: Vec<u8> = b"%x1F".to_vec();
    let (end, _) = element(&input, 0).unwrap().unwrap();
    assert_eq!(end, input.len());

    // prose-val
    let input: Vec<u8> = b"<prose-val>".to_vec();
    let (end, _) = element(&input, 0).unwrap().unwrap();
    assert_eq!(end, input.len());
}

#[test]
fn test_char_val() {
    let input: Vec<u8> = b"\"hello\"".to_vec();
    let (end, content) = char_val(&input, 0).unwrap().unwrap();
    assert_eq!(end, input.len());
    assert_eq!(content, b"hello".to_vec());
}

#[test]
fn test_bin_val() {
    let input: Vec<u8> = b"%b1010".to_vec();
    let (end, _, _) = num_val(&input, 0).unwrap().unwrap();
    assert_eq!(end, input.len());
}

#[test]
fn test_dec_val() {
    let input: Vec<u8> = b"%d10".to_vec();
    let (end, _, _) = num_val(&input, 0).unwrap().unwrap();
    assert_eq!(end, input.len());
}

#[test]
fn test_hex_val() {
    let input: Vec<u8> = b"%x10".to_vec();
    let (end, _, _) = num_val(&input, 0).unwrap().unwrap();
    assert_eq!(end, input.len());
}

#[test]
fn test_prose_val() {
    let input: Vec<u8> = b"<hello>".to_vec();
    let (end, content) = prose_val(&input, 0).unwrap().unwrap();
    assert_eq!(end, input.len());
    assert_eq!(content, b"hello".to_vec());
}

#[test]
fn test_numeric_value_overflow_is_rejected() {
    let input: Vec<u8> = b"%d99999999999".to_vec();
    assert!(num_val(&input, 0).is_err());
}

#[test]
fn test_unclosed_literal_is_rejected() {
    let input: Vec<u8> = b"\"never closed".to_vec();
    assert!(char_val(&input, 0).is_err());
}
