use swpp_interpreter::common::{AccessSize, Arg, BitWidth, ICMP};
use swpp_interpreter::function::SwppFunction;
use swpp_interpreter::inst::{
    InstAsyncLoad, InstComparison, InstEAdd, InstFunctionCall, InstHeapAllocation, InstRet,
    InstSignedDivision, InstStore, InstTernary, SwppInst, SwppInstKind,
};
use swpp_interpreter::logger::DummyLogger;
use swpp_interpreter::parser::block::{bname_parser, block_parser};
use swpp_interpreter::parser::common::{char_code, ParsePanic};
use swpp_interpreter::parser::inst::inst_parser;
use swpp_interpreter::parser::{numbered_text, total_program_parser};
use swpp_interpreter::program::{StepAction, SwppBlock, SwppProgram, SwppState};
use swpp_interpreter::register::SwppRegisterName;

fn r(i: usize) -> SwppRegisterName {
    SwppRegisterName::Gen(i)
}

fn reg(i: usize) -> Arg {
    Arg::Reg(r(i))
}

fn c(v: u64) -> Arg {
    Arg::Const(v)
}

/// The characters of `text` and their codes.
fn coded(text: &str) -> (Vec<char>, Vec<u8>) {
    (text.chars().collect(), text.chars().map(char_code).collect())
}

/// Parses one instruction line of `text`, starting at its beginning.
fn parse_inst(text: &str) -> Result<Option<(SwppInst, usize)>, ParsePanic> {
    let (cs, bs) = coded(text);
    inst_parser(&cs, &bs, 0, bs.len())
}

fn same<T: std::fmt::Debug>(a: &T, b: &T) -> bool {
    format!("{:?}", a) == format!("{:?}", b)
}

/// Runs the program with `input` as what `read` returns; gives what `write`
/// wrote and the total cost.
fn run(functions: Vec<SwppFunction>, input: &[u64]) -> (Vec<u64>, u64) {
    let mut program = SwppProgram::new(SwppState::new(functions), DummyLogger::new());
    let mut output = Vec::new();
    let mut next_input = 0;
    program.start().unwrap();
    loop {
        assert!(program.has_cost_headroom());
        assert!(!program.step_would_fault());
        match program.step().unwrap() {
            StepAction::Continue => {}
            StepAction::Finished => break,
            StepAction::Read => {
                let v = input[next_input];
                next_input += 1;
                program.complete_return(Some(v)).unwrap();
            }
            StepAction::Write(v) => {
                output.push(v);
                program.complete_return(None).unwrap();
            }
        }
    }
    let cost = program.total_cost();
    (output, cost)
}

fn parse_program(text: &str) -> Vec<SwppFunction> {
    match total_program_parser(text) {
        Ok(Some(v)) => v,
        other => panic!("not a program: {:?}", other.map(|o| o.map(|v| v.len()))),
    }
}

#[test]
fn bname_test() {
    let bname = ".hello 5 .hi .def";
    let (cs, bs) = coded(bname);
    let res = bname_parser(&cs, &bs, 0, bs.len());
    println!("{:?}", res);
    assert_eq!(res, Some(("hello".to_string(), 6)));
}

#[test]
fn parse_inst_test() {
    let fff = "2:    r1 = malloc r1
    3:    r2 = call read
    4:    r3 = call read
    5:    r1 = mul r3 r4 64
    6:    r5 = sdiv r1 r4 64";
    let res = parse_inst(fff);
    println!("{:?}", res);
    let (inst, end) = res.unwrap().unwrap();
    let expected = SwppInst::new(SwppInstKind::Malloc(InstHeapAllocation::new(r(1), reg(1))), 2);
    assert!(same(&inst, &expected));
    assert_eq!(end, fff.find('\n').unwrap());
}

#[test]
fn bname_stops_at_a_byte_outside_names() {
    let text = ".loop_1-a.b: next";
    let (cs, bs) = coded(text);
    assert_eq!(bname_parser(&cs, &bs, 0, bs.len()), Some(("loop_1-a.b".to_string(), 11)));
    let text = "hello";
    let (cs, bs) = coded(text);
    assert_eq!(bname_parser(&cs, &bs, 0, bs.len()), None);
    let text = ". x";
    let (cs, bs) = coded(text);
    assert_eq!(bname_parser(&cs, &bs, 0, bs.len()), None);
}

#[test]
fn parse_ret_with_and_without_value() {
    let (inst, _) = parse_inst("7: ret").unwrap().unwrap();
    assert!(same(&inst, &SwppInst::new(SwppInstKind::Ret(InstRet::new(None)), 7)));
    let (inst, _) = parse_inst("7:   ret   r3").unwrap().unwrap();
    assert!(same(&inst, &SwppInst::new(SwppInstKind::Ret(InstRet::new(Some(reg(3)))), 7)));
}

#[test]
fn parse_call_with_target_and_arguments() {
    let (inst, _) = parse_inst("9: r2 = call f r1 4 arg3").unwrap().unwrap();
    let expected = SwppInst::new(
        SwppInstKind::FnCall(InstFunctionCall::new(
            Some(r(2)),
            "f".to_string(),
            vec![reg(1), c(4), Arg::Reg(SwppRegisterName::Argument(3))],
        )),
        9,
    );
    assert!(same(&inst, &expected));
}

#[test]
fn parse_binary_and_comparison() {
    let (inst, _) = parse_inst("3: r5 = sdiv r1 r4 32").unwrap().unwrap();
    let expected =
        SwppInst::new(SwppInstKind::SDiv(InstSignedDivision::new(reg(1), reg(4), r(5), BitWidth::Quad)), 3);
    assert!(same(&inst, &expected));
    let (inst, _) = parse_inst("4: r1 = eadd sp 8 64").unwrap().unwrap();
    let expected = SwppInst::new(
        SwppInstKind::EAdd(InstEAdd::new(Arg::Reg(SwppRegisterName::StackPointer), c(8), r(1), BitWidth::Full)),
        4,
    );
    assert!(same(&inst, &expected));
    let (inst, _) = parse_inst("5: r1 = icmp sle r2 0 8").unwrap().unwrap();
    let expected = SwppInst::new(
        SwppInstKind::Comp(InstComparison::new(reg(2), c(0), ICMP::Sle, r(1), BitWidth::Byte)),
        5,
    );
    assert!(same(&inst, &expected));
}

#[test]
fn parse_memory_and_select() {
    let (inst, _) = parse_inst("6: store 4 r1 sp").unwrap().unwrap();
    let expected = SwppInst::new(
        SwppInstKind::Store(InstStore::new(reg(1), Arg::Reg(SwppRegisterName::StackPointer), AccessSize::Four)),
        6,
    );
    assert!(same(&inst, &expected));
    let (inst, _) = parse_inst("7: r2 = aload 8 r1").unwrap().unwrap();
    let expected = SwppInst::new(SwppInstKind::ALoad(InstAsyncLoad::new(r(2), reg(1), AccessSize::Eight)), 7);
    assert!(same(&inst, &expected));
    let (inst, _) = parse_inst("8: r3 = select r1 5 r2").unwrap().unwrap();
    let expected = SwppInst::new(SwppInstKind::Select(InstTernary::new(reg(2), c(5), reg(1), r(3))), 8);
    assert!(same(&inst, &expected));
}

#[test]
fn parse_switch_later_case_wins() {
    let (inst, _) = parse_inst("2: switch 1 1 .a 2 .b 1 .c .d").unwrap().unwrap();
    assert!(matches!(inst.get_kind(), SwppInstKind::Switch(_)));
    let functions = vec![SwppFunction::new(
        "main".to_string(),
        0,
        vec![
            SwppBlock { block_name: "entry".to_string(), inst_vec: vec![inst], start_loc: 1 },
            block_writing("a", 10, 1),
            block_writing("b", 20, 2),
            block_writing("c", 30, 3),
            block_writing("d", 40, 4),
        ],
    )];
    // the value 1 names `.a` first and `.c` last: the jump goes to `.c`
    assert_eq!(run(functions, &[]).0, vec![3]);
}

fn block_writing(name: &str, loc: u64, v: u64) -> SwppBlock {
    SwppBlock {
        block_name: name.to_string(),
        inst_vec: vec![
            SwppInst::new(
                SwppInstKind::FnCall(InstFunctionCall::new(None, "write".to_string(), vec![c(v)])),
                loc,
            ),
            SwppInst::new(SwppInstKind::Ret(InstRet::new(None)), loc + 1),
        ],
        start_loc: loc,
    }
}

#[test]
fn parse_ignores_rest_of_line_and_takes_its_end() {
    let text = "3: ret 5 whatever\n4: ret";
    let (inst, end) = parse_inst(text).unwrap().unwrap();
    assert!(same(&inst, &SwppInst::new(SwppInstKind::Ret(InstRet::new(Some(c(5)))), 3)));
    assert_eq!(end, 17);
}

#[test]
fn parse_unknown_line_is_no_match() {
    assert!(matches!(parse_inst("3: r1 = frobnicate r2"), Ok(None)));
    assert!(matches!(parse_inst("3: end main"), Ok(None)));
    assert!(matches!(parse_inst(""), Ok(None)));
    assert!(matches!(parse_inst("3: r1 = load 3 r2"), Ok(None)));
    assert!(matches!(parse_inst("3: r1 = eadd r2 r3 7"), Ok(None)));
}

#[test]
fn parse_panics_where_reading_stops() {
    assert!(matches!(parse_inst("3: r1 = icmp foo r2 r3 64"), Err(ParsePanic)));
    assert!(matches!(parse_inst("3: r1 = vicmp eq r2 r3 64"), Err(ParsePanic)));
    assert!(matches!(parse_inst("3: ret 18446744073709551616"), Err(ParsePanic)));
    assert!(matches!(parse_inst("3: ret 18446744073709551615"), Ok(Some(_))));
}

#[test]
fn block_with_comments_and_empty_lines() {
    let text = "1: .entry:\n2:   ; a comment\n3: \n4:   r1 = eadd 1 2 64\n5:   ret r1\n6: .next:\n";
    let (b, end) = block_parser(&coded(text).0, &coded(text).1, 0, coded(text).1.len()).unwrap().unwrap();
    assert_eq!(b.block_name, "entry");
    assert_eq!(b.start_loc, 1);
    assert_eq!(b.inst_vec.len(), 2);
    assert_eq!(b.inst_vec[0].get_loc(), 4);
    assert_eq!(b.inst_vec[1].get_loc(), 5);
    assert_eq!(&text[end..], "6: .next:\n");
}

#[test]
fn block_stops_at_a_line_without_newline() {
    let text = "1: .entry:\n2: ret";
    let (b, end) = block_parser(&coded(text).0, &coded(text).1, 0, coded(text).1.len()).unwrap().unwrap();
    assert_eq!(b.inst_vec.len(), 0);
    assert_eq!(end, 11);
}

#[test]
fn program_text_runs_like_the_same_program_built_by_hand() {
    let text = "start main 0:\n  .entry:\n    r1 = eadd 3 5 64\n    call write r1\n    ret\nend main\n";
    let functions = parse_program(text);
    assert_eq!(functions.len(), 1);
    assert_eq!(functions[0].fname(), "main");
    assert_eq!(functions[0].nargs(), 0);
    assert_eq!(functions[0].get_entry_block_name(), "entry");
    assert_eq!(run(functions, &[]), (vec![8], 41));
}

#[test]
fn program_with_two_functions_comments_and_blank_lines() {
    let text = "; a program\n\nstart add 2:\n\n  .entry:\n    r1 = eadd arg1 arg2 64\n    ret r1\nend add\n\nstart main 0:\n  .entry:\n    r1 = call read\n    r2 = call read\n    r3 = call add r1 r2\n    call write r3\n    ret\nend main\n";
    let functions = parse_program(text);
    assert_eq!(functions.len(), 2);
    assert_eq!(functions[0].fname(), "add");
    assert_eq!(functions[0].nargs(), 2);
    let (out, _) = run(functions, &[3, 4]);
    assert_eq!(out, vec![7]);
}

#[test]
fn program_line_numbers_count_every_line() {
    let text = "start main 0:\n.entry:\n\nret\nend main";
    let functions = parse_program(text);
    let b = functions[0].get_block("entry").unwrap();
    assert_eq!(b.start_loc, 2);
    assert_eq!(b.inst_vec[0].get_loc(), 4);
}

#[test]
fn program_refusals() {
    assert!(matches!(total_program_parser("start main 0:\n.entry:\nret\n"), Ok(None)));
    assert!(matches!(total_program_parser("hello"), Ok(None)));
    assert!(matches!(total_program_parser(""), Ok(Some(ref v)) if v.is_empty()));
    assert!(matches!(total_program_parser("start main 0:\nend main\n"), Err(ParsePanic)));
    assert!(matches!(
        total_program_parser("start main 0:\n.entry:\nr1 = icmp xx 1 2 64\nend main\n"),
        Err(ParsePanic)
    ));
}

#[test]
fn program_with_non_ascii_comment() {
    let text = "start main 0:\n  .entry:\n    ; é ü\n    ret\nend main\n";
    let functions = parse_program(text);
    assert_eq!(functions.len(), 1);
    assert_eq!(run(functions, &[]), (vec![], 1));
}

#[test]
fn recursion_five_thousand_deep() {
    let text = "start count 1:
  .entry:
    r1 = icmp eq arg1 0 64
    br r1 .done .rec
  .done:
    ret 0
  .rec:
    r2 = esub arg1 1 64
    r3 = call count r2
    r4 = eadd r3 1 64
    ret r4
end count

start main 0:
  .entry:
    r1 = call count 5000
    call write r1
    ret
end main
";
    let functions = parse_program(text);
    let (out, _) = run(functions, &[]);
    assert_eq!(out, vec![5000]);
}

#[test]
fn call_basic_return() {
    let text = "start add 2:
  .entry:
    r1 = eadd arg1 arg2 64
    ret r1
end add
start main 0:
  .entry:
    r1 = call add 3 5
    call write r1
    ret
end main
";
    let (out, _) = run(parse_program(text), &[]);
    assert_eq!(out, vec![8]);
}

#[test]
fn lines_are_numbered_from_one() {
    assert_eq!(numbered_text("a\nb"), coded("1: a\n2: b"));
    assert_eq!(numbered_text(""), coded("1: "));
    assert_eq!(numbered_text("x\n"), coded("1: x\n2: "));
    assert_eq!(numbered_text("\u{e9}").0, vec!['1', ':', ' ', '\u{e9}']);
    assert_eq!(numbered_text("\u{e9}").1, vec![b'1', b':', b' ', 127]);
}

#[test]
fn characters_beyond_ascii_are_read_by_their_low_byte() {
    assert_eq!(char_code('a'), b'a');
    assert_eq!(char_code('\u{7f}'), 127);
    assert_eq!(char_code('\u{142}'), 128);
    assert_eq!(char_code('\u{139}'), 128);
    assert_eq!(char_code('\u{10a}'), 129);
    assert_eq!(char_code('\u{e9}'), 127);
    assert_eq!(char_code('\u{15f}'), 127);
}

#[test]
fn bname_takes_characters_whose_low_byte_is_a_letter_or_digit() {
    let text = ".b\u{142}\u{139}: next";
    let (cs, bs) = coded(text);
    assert_eq!(bname_parser(&cs, &bs, 0, bs.len()), Some(("b\u{142}\u{139}".to_string(), 4)));
    let text = ".b\u{e9}x";
    let (cs, bs) = coded(text);
    assert_eq!(bname_parser(&cs, &bs, 0, bs.len()), Some(("b".to_string(), 2)));
    let text = ".\u{15f}";
    let (cs, bs) = coded(text);
    assert_eq!(bname_parser(&cs, &bs, 0, bs.len()), None);
}

#[test]
fn instruction_line_ends_at_a_character_whose_low_byte_is_a_newline() {
    let (inst, end) = parse_inst("5: ret\u{10a}x").unwrap().unwrap();
    let expected = SwppInst::new(SwppInstKind::Ret(InstRet::new(None)), 5);
    assert!(same(&inst, &expected));
    assert_eq!(end, 6);
    let text = "start main 0:\n.entry:\nret\u{10a}\nend main\n";
    assert!(matches!(total_program_parser(text), Ok(None)));
}

#[test]
fn program_with_block_names_beyond_ascii() {
    let text = "start main 0:\n.\u{142}a:\nbr .\u{142}b\n.\u{142}b:\nret 7\nend main\n";
    let functions = parse_program(text);
    assert_eq!(functions.len(), 1);
    assert_eq!(functions[0].get_entry_block_name(), "\u{142}a");
    assert!(functions[0].get_block("\u{142}b").is_ok());
    assert_eq!(run(functions, &[]), (vec![], 46));
    let text = "start main 0:\n.a\u{e9}:\nret\nend main\n";
    assert!(matches!(total_program_parser(text), Ok(None)));
}
