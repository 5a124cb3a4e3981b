use satysfi_formatter::config::OptionData;

fn test_tmpl(input: &str, expect: &str) {
    let option = OptionData { row_length: 80, indent_space: 4, command_args_space: true };
    let (out, err) = satysfi_formatter::format(&input.as_bytes().to_vec(), option);
    assert!(err.is_none());
    assert_eq!(String::from_utf8(out).unwrap(), expect);
}

#[test]
fn test_const_string_sequently1() {
    let text = r#"document(||)'<
    +p{`ok` `no`
    }
>
"#;

    let expect = r#"document(||)'<
    +p { `ok` `no` }
>
"#;
    test_tmpl(text, expect)
}

#[test]
fn test_const_string_sequently2() {
    let text = r#"document(||)'<
    +p{`ok`
`no`
    }
>
"#;

    let expect = r#"document(||)'<
    +p {
        `ok`
        `no`
    }
>
"#;
    test_tmpl(text, expect)
}
