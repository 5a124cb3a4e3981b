use satysfi_formatter::config::OptionData;

fn test_tmpl(input: &str, expect: &str) {
    let option = OptionData { row_length: 80, indent_space: 4, command_args_space: true };
    let (out, err) = satysfi_formatter::format(&input.as_bytes().to_vec(), option);
    assert!(err.is_none());
    assert_eq!(String::from_utf8(out).unwrap(), expect);
}

#[test]
fn test_let_block1() {
    let text = r#"
@require: stdja

let-block ctx +newpage = clear-page
in

document(||)'<
    +newpage;
    
    +p{hello
    }
>
"#;

    let expect = r#"@require: stdja

let-block ctx +newpage = clear-page
in

document(||)'<
    +newpage;
    +p { hello }
>
"#;
    test_tmpl(text, expect)
}

#[test]
fn test_let_block2() {
    let text = r#"
@require: stdja

let-block ctx +newpage = clear-page
let-block ctx   +newcmd arg = '<+cmd{arg}>
in

document(||)'<
    +newpage;
    
    +p{hello
    }
>
"#;

    let expect = r#"@require: stdja

let-block ctx +newpage = clear-page
let-block ctx +newcmd arg = '<
    +cmd { arg }
>
in

document(||)'<
    +newpage;
    +p { hello }
>
"#;
    test_tmpl(text, expect);
}

#[test]
fn test_let_block3() {
    let text = r#"
@require: stdja
let x = '< +hoge; >
let a = '<
  #x;
>
in

document(||)'<
    +newpage;
    
    +p{hello
    }
>
"#;

    let expect = r#"@require: stdja

let x = '<
    +hoge;
>
let a = '<
    #x;
>
in

document(||)'<
    +newpage;
    +p { hello }
>
"#;
    test_tmpl(text, expect);
}

#[test]
fn test_let_block4() {
    let text = r#"
@require: stdja
let a = Some     
x#a   
in

document(||)'<
    +newpage;
    
    +p{hello
    }
>
"#;

    let expect = r#"@require: stdja

let a = Some x#a
in

document(||)'<
    +newpage;
    +p { hello }
>
"#;
    test_tmpl(text, expect);
}
