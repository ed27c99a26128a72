use rust_cc::preprocessor::preprocess;
use rust_cc::source::File;

#[test]
fn strip_block_comments() {
    assert_eq!(File::strip_block_comments("/**/".to_string()), "".to_string());
    assert_eq!(
        File::strip_block_comments("hello /*hello*/goodbye".to_string()),
        "hello goodbye".to_string()
    );
    assert_eq!(
        File::strip_block_comments("this is my file /* this is a comment */ */".to_string()),
        "this is my file  */".to_string()
    );
    assert_eq!(
        File::strip_block_comments(
            "this /*is my */file /* this is a\n multiline comment */".to_string()
        ),
        "this file ".to_string()
    );
}

#[test]
fn strip_block_comments_edges() {
    assert_eq!(File::strip_block_comments("a / b * c".to_string()), "a / b * c".to_string());
    assert_eq!(File::strip_block_comments("a /* never closed".to_string()), "a ".to_string());
    assert_eq!(File::strip_block_comments("/* /* */x*/".to_string()), "x*/".to_string());
}

#[test]
fn preprocess_drops_directive_lines() {
    let mut file = File { buf: "#include <stdio.h>\nint a;\n  #x\n#define N 1\nint b;".to_string() };
    preprocess(&mut file);
    assert_eq!(file.buf, "int a;\n  #x\nint b;");

    let mut file = File { buf: "#only".to_string() };
    preprocess(&mut file);
    assert_eq!(file.buf, "");
}
