use esper::cc::{ClangCXX, ToolchainError};
use esper::diagnostics::{describe, expected_string, lines, render_parse_error, window};
use esper::emit::{EmitContextImpl, EmitDefault};
use esper::esper_parser::{program, ParseError};
use esper::token::Token;
use esper::ast::Expr;

fn chars(text: &str) -> Vec<char> {
    text.chars().collect()
}

#[test]
fn lines_split_at_line_feeds() {
    assert_eq!(lines(&chars("")), Vec::<String>::new());
    assert_eq!(lines(&chars("a")), vec!["a"]);
    assert_eq!(lines(&chars("a\n")), vec!["a"]);
    assert_eq!(lines(&chars("a\nb")), vec!["a", "b"]);
    assert_eq!(lines(&chars("a\n\nb\n")), vec!["a", "", "b"]);
    assert_eq!(lines(&chars("\n")), vec![""]);
    assert_eq!(lines(&chars("a\r\nb\r")), vec!["a", "b\r"]);
}

#[test]
fn lines_agree_with_std() {
    for text in ["", "x", "x\n", "x\ny", "\n\n", "a\r\nb", "a\rb\n", "a\r", "\r\n", "é\nü"] {
        let expected: Vec<String> = text.lines().map(|l| l.to_string()).collect();
        assert_eq!(lines(&chars(text)), expected, "{:?}", text);
    }
}

#[test]
fn window_holds_two_lines_on_either_side() {
    let source = chars("l1\nl2\nl3\nl4\nl5\nl6\nl7\n");
    assert_eq!(window(&source, 4), "l2\nl3\nl4\nl5\nl6");
    assert_eq!(window(&source, 1), "l1\nl2\nl3");
    assert_eq!(window(&source, 2), "l1\nl2\nl3\nl4");
    assert_eq!(window(&source, 7), "l5\nl6\nl7");
    assert_eq!(window(&source, 8), "l6\nl7");
    assert_eq!(window(&source, 0), "l1\nl2");
    assert_eq!(window(&source, 11), "");
    assert_eq!(window(&chars(""), 1), "");
}

#[test]
fn expected_in_words() {
    assert_eq!(expected_string(&vec![]), "expected: <unreported>");
    assert_eq!(expected_string(&vec![Token::EndOfInput]), "expected: EOF");
    assert_eq!(expected_string(&vec![Token::Let]), "expected: \"let\"");
    assert_eq!(
        expected_string(&vec![Token::Identifier, Token::Digit, Token::Quote, Token::NotApostrophe]),
        "expected: one of identifier, ['0'..='9'], \"\\\"\", [^ '\\'']"
    );
}

#[test]
fn report_is_laid_out_by_chic() {
    let err = ParseError {
        line: 1,
        column: 9,
        offset: 8,
        expected: vec![Token::Identifier, Token::Digit],
    };
    let report = render_parse_error("let x = $", &err).unwrap();
    assert_eq!(
        report,
        "error: parse error\n  |\n1 | let x = $\n  |         ^ expected: one of identifier, ['0'..='9']\n  |"
    );
    assert_eq!(
        report,
        chic::Error::new("parse error")
            .error(1, 8, 9, "let x = $", "expected: one of identifier, ['0'..='9']")
            .to_string()
    );
}

#[test]
fn report_of_a_real_failure() {
    let source = "let a = 1\nlet b = 2\nlet c = $\nlet d = 4\n";
    let err = program(source).unwrap_err();
    assert_eq!((err.line, err.column, err.offset), (3, 9, 28));
    let report = render_parse_error(source, &err).unwrap();
    let label = expected_string(&err.expected);
    assert_eq!(
        report,
        format!(
            "error: parse error\n  |\n1 | let a = 1\n2 | let b = 2\n3 | let c = $\n  |         ^ {}\n4 | let d = 4\n  |",
            label
        )
    );
    assert_eq!(
        report,
        chic::Error::new("parse error")
            .error(1, 30, 31, "let a = 1\nlet b = 2\nlet c = $\nlet d = 4", label)
            .to_string()
    );
}

#[test]
fn report_numbers_the_window_from_its_first_line() {
    let source = "l1\nl2\nl3\nl4\nl5 $\nl6\nl7\nl8\n";
    let err = program(source).unwrap_err();
    assert_eq!((err.line, err.column), (5, 4));
    let report = render_parse_error(source, &err).unwrap();
    let label = expected_string(&err.expected);
    assert_eq!(
        report,
        format!(
            "error: parse error\n  |\n3 | l3\n4 | l4\n5 | l5 $\n  |    ^ {}\n6 | l6\n7 | l7\n  |",
            label
        )
    );
}

#[test]
fn report_of_a_failure_behind_the_last_line() {
    let source = "let x = \n";
    let err = program(source).unwrap_err();
    assert_eq!((err.line, err.column, err.offset), (2, 1, 9));
    let report = render_parse_error(source, &err).unwrap();
    let label = expected_string(&err.expected);
    assert_eq!(
        report,
        format!("error: parse error\n  |\n1 | let x = \n  |         ^ {}\n  |", label)
    );
}

#[test]
fn report_is_refused_beyond_the_limits() {
    let err = ParseError { line: 1, column: 1, offset: usize::MAX, expected: vec![] };
    assert!(render_parse_error("x", &err).is_some());
    let far_line = ParseError { line: usize::MAX, column: 1, offset: 0, expected: vec![] };
    assert_eq!(
        render_parse_error("x", &far_line),
        Some("error: parse error\n |\n |".to_string())
    );
    let far_column = ParseError { line: 2, column: usize::MAX, offset: 0, expected: vec![] };
    assert_eq!(render_parse_error("a\nb", &far_column), None);
    let near_column = ParseError { line: 1, column: usize::MAX, offset: 0, expected: vec![] };
    assert!(render_parse_error("a\nb", &near_column).is_some());
}

#[test]
fn compiler_command_line() {
    assert_eq!(ClangCXX::program(), "clang++");
    assert_eq!(
        ClangCXX::arguments("out/fib", vec!["-O2".to_string(), "-std=c++20".to_string()]),
        vec!["-x", "c++", "-", "-o", "out/fib", "-O2", "-std=c++20"]
    );
    assert_eq!(ClangCXX::arguments("a", vec![]), vec!["-x", "c++", "-", "-o", "a"]);
}

#[test]
fn compiler_outcomes() {
    assert_eq!(ClangCXX::outcome(true, Some(0)), Ok(()));
    assert_eq!(ClangCXX::outcome(true, Some(1)), Err(ToolchainError::NonZeroExit(1)));
    assert_eq!(ClangCXX::outcome(true, None), Err(ToolchainError::NoExitCode));
    assert_eq!(
        ClangCXX::outcome(false, Some(0)),
        Err(ToolchainError::WriteFailed { exit: Some(0) })
    );
    assert_eq!(ClangCXX::outcome(false, None), Err(ToolchainError::WriteFailed { exit: None }));
}

#[test]
fn fits_tells_whether_the_indentation_stays_in_range() {
    let nested = Expr::If(
        Box::new(Expr::Var("c".to_string())),
        vec![Expr::Loop(
            Box::new(Expr::Var("i".to_string())),
            Box::new(Expr::Var("xs".to_string())),
            vec![Expr::Pass],
        )],
        None,
    );
    let mut emitter = EmitDefault { ctx: EmitContextImpl::new() };
    assert!(emitter.fits(&nested));
    assert!(emitter.nests_within(&nested, 4));
    assert!(!emitter.nests_within(&nested, 3));
    assert!(emitter.nests_within(&Expr::Pass, 0));
    emitter.ctx.level = usize::MAX - 3;
    assert!(!emitter.fits(&nested));
    emitter.ctx.level = usize::MAX - 4;
    assert!(emitter.fits(&nested));
    let mut ctx = EmitContextImpl::new();
    ctx.level = usize::MAX - 4;
    ctx.output = String::new();
    let match_node = Expr::Match(Box::new(Expr::Var("v".to_string())), vec![("A".to_string(), vec![])]);
    assert!(emitter.nests_within(&match_node, 4));
    assert!(!emitter.nests_within(&match_node, 3));
}

#[test]
fn failure_in_one_line() {
    let err = program("let x = 1\nlet y = ").unwrap_err();
    assert_eq!((err.line, err.column, err.offset), (2, 9, 18));
    let text = describe(&err);
    assert!(text.starts_with("error at 2:9: expected: one of "), "{}", text);
    let small = ParseError { line: 12, column: 345, offset: 0, expected: vec![Token::EndOfInput] };
    assert_eq!(describe(&small), "error at 12:345: expected: EOF");
}
