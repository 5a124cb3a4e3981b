use satysfi_formatter::config::OptionData;

fn test_tmpl(input: &str, expect: &str) {
    let option = OptionData { row_length: 80, indent_space: 4, command_args_space: true };
    let (out, err) = satysfi_formatter::format(&input.as_bytes().to_vec(), option);
    assert!(err.is_none());
    assert_eq!(String::from_utf8(out).unwrap(), expect);
}

#[test]
fn math_test1() {
    let text = r#"
@require: stdja

document(||)'<
    +p{
        ${
\lim_{n\to\infty}a_n = a
        }
    }
>
"#;

    let expect = r#"@require: stdja

document(||)'<
    +p { ${\lim_{n \to \infty} a_n = a} }
>
"#;
    test_tmpl(text, expect)
}
