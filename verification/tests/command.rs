use dbgrs::command::{
    convert_parse_error_to_diagnostics, parse_command, parse_int, parse_sym, try_parse_int,
    CommandExpr, Diagnostic, EvalExpr, Level, ParseError, ParseErrorReason, SpanLabel, SpanStyle,
};

fn num(n: u64) -> Box<EvalExpr> {
    Box::new(EvalExpr::Number(n))
}

fn sym(s: &str) -> Box<EvalExpr> {
    Box::new(EvalExpr::Symbol(s.to_string()))
}

fn add(a: Box<EvalExpr>, b: Box<EvalExpr>) -> Box<EvalExpr> {
    Box::new(EvalExpr::Add(a, (), b))
}

#[test]
fn commands_without_operand() {
    assert_eq!(parse_command("t"), Ok(CommandExpr::StepInto(())));
    assert_eq!(parse_command("g"), Ok(CommandExpr::Go(())));
    assert_eq!(parse_command("bl"), Ok(CommandExpr::ListBreakpoints(())));
    assert_eq!(parse_command("r"), Ok(CommandExpr::DisplayRegisters(())));
    assert_eq!(parse_command("k"), Ok(CommandExpr::StackWalk(())));
    assert_eq!(parse_command("u"), Ok(CommandExpr::UnassembleContinue(())));
    assert_eq!(parse_command("q"), Ok(CommandExpr::Quit(())));
    assert_eq!(parse_command("  g \t"), Ok(CommandExpr::Go(())));
}

#[test]
fn commands_with_an_expression() {
    assert_eq!(parse_command("bp hello!main"), Ok(CommandExpr::SetBreakpoint((), sym("hello!main"))));
    assert_eq!(parse_command("bc 0"), Ok(CommandExpr::ClearBreakpoint((), num(0))));
    assert_eq!(parse_command("db @rsp"), Ok(CommandExpr::DisplayBytes((), sym("@rsp"))));
    assert_eq!(parse_command("? 0x10"), Ok(CommandExpr::Evaluate((), num(16))));
    assert_eq!(parse_command("ln 123"), Ok(CommandExpr::ListNearest((), num(123))));
    assert_eq!(parse_command("u @rip"), Ok(CommandExpr::Unassemble((), sym("@rip"))));
    assert_eq!(parse_command("lsa @rip"), Ok(CommandExpr::ListSource((), sym("@rip"))));
}

#[test]
fn blanks_are_free_between_tokens() {
    assert_eq!(parse_command("?1+2"), Ok(CommandExpr::Evaluate((), add(num(1), num(2)))));
    assert_eq!(
        parse_command("  ?   1  +\t2   "),
        Ok(CommandExpr::Evaluate((), add(num(1), num(2))))
    );
    assert_eq!(parse_command("bpmain"), Ok(CommandExpr::SetBreakpoint((), sym("main"))));
    assert_eq!(parse_command("u0x10"), Ok(CommandExpr::Unassemble((), num(0x10))));
}

#[test]
fn sums_group_to_the_left() {
    assert_eq!(
        parse_command("? 1 + 2 + 3"),
        Ok(CommandExpr::Evaluate((), add(add(num(1), num(2)), num(3))))
    );
    assert_eq!(
        parse_command("? a!b + @rax + 0x10"),
        Ok(CommandExpr::Evaluate((), add(add(sym("a!b"), sym("@rax")), num(16))))
    );
}

#[test]
fn numbers_and_symbols() {
    assert_eq!(parse_command("? 0"), Ok(CommandExpr::Evaluate((), num(0))));
    assert_eq!(parse_command("? 007"), Ok(CommandExpr::Evaluate((), num(7))));
    assert_eq!(parse_command("? 0xFf"), Ok(CommandExpr::Evaluate((), num(255))));
    assert_eq!(
        parse_command("? 18446744073709551615"),
        Ok(CommandExpr::Evaluate((), num(u64::MAX)))
    );
    assert_eq!(
        parse_command("? 0xffffffffffffffff"),
        Ok(CommandExpr::Evaluate((), num(u64::MAX)))
    );
    // What is no number is a symbol.
    assert_eq!(parse_command("? 0x"), Ok(CommandExpr::Evaluate((), sym("0x"))));
    assert_eq!(parse_command("? 0X10"), Ok(CommandExpr::Evaluate((), sym("0X10"))));
    assert_eq!(parse_command("? 12ab"), Ok(CommandExpr::Evaluate((), sym("12ab"))));
    assert_eq!(parse_command("? 0x1g"), Ok(CommandExpr::Evaluate((), sym("0x1g"))));
    assert_eq!(parse_command("? a.b_c#d"), Ok(CommandExpr::Evaluate((), sym("a.b_c#d"))));
    assert_eq!(parse_command("? m.dll!f@8"), Ok(CommandExpr::Evaluate((), sym("m.dll!f@8"))));
}

#[test]
fn register_command_takes_a_name_of_letters() {
    assert_eq!(
        parse_command("r rip"),
        Ok(CommandExpr::DisplaySpecificRegister((), "rip".to_string()))
    );
    assert_eq!(
        parse_command("rRAX  "),
        Ok(CommandExpr::DisplaySpecificRegister((), "RAX".to_string()))
    );
    assert_eq!(
        parse_command("r r8"),
        Err(ParseError {
            reason: ParseErrorReason::UnexpectedToken("8".to_string()),
            start: 3,
            end: 4,
        })
    );
    assert_eq!(
        parse_command("r 8"),
        Err(ParseError {
            reason: ParseErrorReason::UnexpectedToken("8".to_string()),
            start: 2,
            end: 3,
        })
    );
}

#[test]
fn source_path_takes_the_rest_of_the_line() {
    assert_eq!(
        parse_command("srcpath c:\\src;d:\\other dir"),
        Ok(CommandExpr::SrcPath((), "c:\\src;d:\\other dir".to_string()))
    );
    assert_eq!(parse_command("srcpath"), Ok(CommandExpr::SrcPath((), "".to_string())));
    assert_eq!(parse_command("srcpath   /x"), Ok(CommandExpr::SrcPath((), "/x".to_string())));
}

#[test]
fn empty_line_misses_a_command() {
    for line in ["", "   ", "\t"] {
        let e = parse_command(line).unwrap_err();
        assert!(matches!(e.reason, ParseErrorReason::MissingToken(_)));
        assert_eq!((e.start, e.end), (line.len(), line.len()));
    }
}

#[test]
fn unknown_commands_are_unexpected() {
    assert_eq!(
        parse_command("xyz 1"),
        Err(ParseError {
            reason: ParseErrorReason::UnexpectedToken("xyz".to_string()),
            start: 0,
            end: 3,
        })
    );
    assert_eq!(
        parse_command(" b 1"),
        Err(ParseError { reason: ParseErrorReason::UnexpectedToken("b".to_string()), start: 1, end: 2 })
    );
}

#[test]
fn missing_operands() {
    assert_eq!(
        parse_command("bp"),
        Err(ParseError {
            reason: ParseErrorReason::MissingToken("expression".to_string()),
            start: 2,
            end: 2,
        })
    );
    assert_eq!(
        parse_command("? 1 + "),
        Err(ParseError {
            reason: ParseErrorReason::MissingToken("expression".to_string()),
            start: 6,
            end: 6,
        })
    );
}

#[test]
fn text_where_it_cannot_stand() {
    assert_eq!(
        parse_command("? + 1"),
        Err(ParseError { reason: ParseErrorReason::UnexpectedToken("+".to_string()), start: 2, end: 3 })
    );
    assert_eq!(
        parse_command("g now"),
        Err(ParseError {
            reason: ParseErrorReason::UnexpectedToken("now".to_string()),
            start: 2,
            end: 5,
        })
    );
    assert_eq!(
        parse_command("? 1 2"),
        Err(ParseError { reason: ParseErrorReason::UnexpectedToken("2".to_string()), start: 4, end: 5 })
    );
    assert_eq!(
        parse_command("? a!b!c"),
        Err(ParseError {
            reason: ParseErrorReason::UnexpectedToken("!c".to_string()),
            start: 5,
            end: 7,
        })
    );
    assert_eq!(
        parse_command("? !x"),
        Err(ParseError { reason: ParseErrorReason::UnexpectedToken("!".to_string()), start: 2, end: 3 })
    );
}

#[test]
fn numbers_too_large_fail() {
    assert_eq!(
        parse_command("? 18446744073709551616"),
        Err(ParseError { reason: ParseErrorReason::FailedNode, start: 2, end: 22 })
    );
    assert_eq!(
        parse_command("bp 0x10000000000000000"),
        Err(ParseError { reason: ParseErrorReason::FailedNode, start: 3, end: 22 })
    );
}

#[test]
fn parse_int_reads_both_bases() {
    assert_eq!(parse_int("0"), 0);
    assert_eq!(parse_int("42"), 42);
    assert_eq!(parse_int("0x10"), 16);
    assert_eq!(parse_int("0xdeadBEEF"), 0xdead_beef);
    assert_eq!(parse_int("18446744073709551615"), u64::MAX);
    assert_eq!(try_parse_int("0x20"), Some(0x20));
    assert_eq!(try_parse_int("18446744073709551616"), None);
    assert_eq!(try_parse_int(""), None);
    assert_eq!(try_parse_int("0x"), None);
    assert_eq!(try_parse_int("12a"), None);
    assert_eq!(try_parse_int("-1"), None);
    assert_eq!(try_parse_int(" 1"), None);
}

#[test]
fn parse_sym_copies_the_text() {
    assert_eq!(parse_sym("hello!main"), "hello!main");
    assert_eq!(parse_sym(""), "");
}

fn diagnostic_of(error: &ParseError) -> Diagnostic {
    let mut diagnostics = Vec::new();
    convert_parse_error_to_diagnostics(error, &mut diagnostics);
    assert_eq!(diagnostics.len(), 1);
    diagnostics.pop().unwrap()
}

#[test]
fn diagnostics_name_the_token() {
    let missing = diagnostic_of(&ParseError {
        reason: ParseErrorReason::MissingToken("expression".to_string()),
        start: 2,
        end: 2,
    });
    assert_eq!(
        missing,
        Diagnostic {
            level: Level::Error,
            message: "Missing token: \"expression\"".to_string(),
            code: Some("S000".to_string()),
            spans: vec![SpanLabel {
                start: 2,
                end: 2,
                style: SpanStyle::Primary,
                label: Some("missing \"expression\"".to_string()),
            }],
        }
    );
    let unexpected = diagnostic_of(&parse_command("g now").unwrap_err());
    assert_eq!(unexpected.message, "Unexpected token: \"now\"");
    assert_eq!(unexpected.spans[0].label, Some("unexpected \"now\"".to_string()));
    assert_eq!((unexpected.spans[0].start, unexpected.spans[0].end), (2, 5));
    let failed = diagnostic_of(&ParseError { reason: ParseErrorReason::FailedNode, start: 1, end: 4 });
    assert_eq!(failed.message, "Failed to parse node");
    assert_eq!(failed.spans[0].label, Some("failed".to_string()));
}

#[test]
fn diagnostics_are_appended() {
    let mut diagnostics = Vec::new();
    convert_parse_error_to_diagnostics(&parse_command("").unwrap_err(), &mut diagnostics);
    convert_parse_error_to_diagnostics(&parse_command("zz").unwrap_err(), &mut diagnostics);
    assert_eq!(diagnostics.len(), 2);
    assert_eq!(diagnostics[1].message, "Unexpected token: \"zz\"");
    assert!(diagnostics[0].message.starts_with("Missing token"));
}

#[test]
fn positions_count_characters() {
    let e = parse_command("? é").unwrap_err();
    assert_eq!(e.reason, ParseErrorReason::UnexpectedToken("é".to_string()));
    assert_eq!((e.start, e.end), (2, 3));
}
