use satysfi_formatter::config::OptionData;

fn test_tmpl(input: &str, expect: &str) {
    let option = OptionData { row_length: 80, indent_space: 4, command_args_space: true };
    let (out, err) = satysfi_formatter::format(&input.as_bytes().to_vec(), option);
    assert!(err.is_none());
    assert_eq!(String::from_utf8(out).unwrap(), expect);
}

#[test]
fn if_stmt() {
    let text = r#"@import: hello
  @require: local
  let-mutable x <- 0
  let () = if (1 < 2) then x <- 1 else x <- 2
in

document(|title = {hello}|)'<
>"#;

    let expect = r#"@import: hello
@require: local

let-mutable x <- 0
let () = if (1 < 2) then x <- 1 else x <- 2
in

document(|title = { hello }|)'<>
"#;

    test_tmpl(text, expect)
}

#[test]
fn while_stmt() {
    let text = r#"@import: hello
  @require: local
  let-mutable x <- 0
let () = while (!x < 2) do x <- !x + 1
let-inline \inline =
  let text = embed-string (arabic !x) in
  {#text;}
in

document(|title = {hello}|)'<
+p {
  \inline;
}
>"#;

    let expect = r#"@import: hello
@require: local

let-mutable x <- 0
let () = while (!x < 2) do x <- !x + 1
let-inline \inline =
    let text = embed-string (arabic !x) in { #text; }
in

document(|title = { hello }|)'<
    +p { \inline; }
>
"#;

    test_tmpl(text, expect)
}
