use mlogjit::parser::tokenizer;

#[test]
fn spliting() {
    assert_eq!(vec!["a", "\"a\""], tokenizer("a \"a\""));
}

#[test]
fn spliting_empty() {
    assert_eq!(Vec::<String>::new(), tokenizer(""));
}

#[test]
fn splitting_mixed_whitespace() {
    assert_eq!(vec!["op", "add", "x", "1", "2"], tokenizer("  op\tadd  x 1\t2 "));
}

#[test]
fn splitting_unterminated_quote() {
    assert_eq!(vec!["say", "\"ab\""], tokenizer("say \"ab"));
}

#[test]
fn splitting_empty_quotes() {
    assert_eq!(vec!["\"\""], tokenizer("\"\""));
}

use mlogjit::ir::{Instr, OpKind, Operand};
use mlogjit::parser::{ParseError, parse_line_with, parse_operand, split_lines};

fn parse_line(line: &str) -> Result<Instr, ParseError> {
    let tokens = tokenizer(line);
    let mut nums: Vec<Option<u64>> = Vec::new();
    for t in &tokens {
        nums.push(t.parse::<f64>().ok().map(f64::to_bits));
    }
    assert_eq!(tokens.len(), nums.len());
    parse_line_with(&tokens, &nums)
}

#[test]
fn set_to_ir() {
    assert_eq!(
        Instr::Assign("a".into(), Operand::Const(10.0f64.to_bits())),
        parse_line("set a 10").unwrap()
    )
}

#[test]
fn bad_insr() {
    parse_line("asfdasdfsadfjkj").unwrap_err();
}

#[test]
fn op_to_ir() {
    assert_eq!(
        Instr::Op(
            "q".into(),
            OpKind::Idiv,
            Operand::Var("l".into()),
            Operand::Const((-7.0f64).to_bits())
        ),
        parse_line("op idiv q l -7").unwrap()
    )
}

#[test]
fn wrong_argument_count() {
    assert!(matches!(
        parse_line("set a"),
        Err(ParseError::WrongArgumentCount)
    ));
    assert!(matches!(parse_line(""), Err(ParseError::WrongArgumentCount)));
}

#[test]
fn unknown_operation_reports_whole_line() {
    match parse_line("op foo x 1 2") {
        Err(ParseError::UnknownInstruction(text)) => assert_eq!("op foo x 1 2", text),
        other => panic!("expected UnknownInstruction, got {:?}", other),
    }
}

#[test]
fn line_splitting() {
    assert_eq!(vec!["set a 10", "set b 20"], split_lines("set a 10\nset b 20"));
    assert_eq!(vec!["a", "b"], split_lines("a\r\nb\n"));
    assert_eq!(vec!["", "x"], split_lines("\nx"));
    assert_eq!(Vec::<String>::new(), split_lines(""));
}

#[test]
fn operand_kinds() {
    assert_eq!(Operand::Null, parse_operand("null", None));
    assert_eq!(Operand::Const(2.5f64.to_bits()), parse_operand("2.5", Some(2.5f64.to_bits())));
    assert_eq!(
        Operand::String("hi".into()),
        parse_operand("\"hi\"", None)
    );
    assert_eq!(Operand::Var("cell_1".into()), parse_operand("cell 1", None));
}
