use sol_gen::parsed_log::{
    parse_data, parse_program_id, parse_units, quick_pubkey_check, LogParseError, ParsedCuLog,
    ParsedDataLog, ParsedFailedLog, ParsedInvokeLog, ParsedLog, ParsedProgramLog, ParsedReturnLog,
    ParsedSuccessLog,
};
use sol_gen::raw_log::{
    RawCuLog, RawDataLog, RawFailedLog, RawInvokeLog, RawLog, RawProgramLog, RawReturnLog,
    RawSuccessLog,
};
use sol_gen::structured_log::{
    FrameBuilder, ProgramResult, RawProgramResult, RawStructuredLog, StructuredLog,
};
use sol_gen::text::{
    chars_of, copy_range, matches_at, parse_u64, parse_u8, range_is, split_all_in, split_once_in,
    str_eq, strip_prefix_in, strip_suffix_in, trim_in, trim_range, Range,
};

const TOKEN: &str = "TokenkegQfeZyiNwAJbNbGKPFXCWuBvf9Ss623VQ5DA";
const SYSTEM: &str = "11111111111111111111111111111111";
const TOKEN_BYTES: [u8; 32] = [
    6, 221, 246, 225, 215, 101, 161, 147, 217, 203, 225, 70, 206, 235, 121, 172, 28, 180, 133, 237,
    95, 91, 55, 145, 58, 140, 245, 133, 126, 255, 0, 169,
];

#[test]
fn pubkey_check_takes_base58_of_the_right_length() {
    assert!(quick_pubkey_check(TOKEN));
    assert!(quick_pubkey_check(SYSTEM));
    assert!(quick_pubkey_check("ComputeBudget111111111111111111111111111111"));
    assert!(quick_pubkey_check(&"z".repeat(44)));
    assert!(!quick_pubkey_check(&"z".repeat(45)));
    assert!(!quick_pubkey_check(&"1".repeat(31)));
    assert!(!quick_pubkey_check(""));
}

#[test]
fn pubkey_check_refuses_other_characters() {
    for bad in ['0', 'O', 'I', 'l', ' ', '-', '_', '\u{e9}'] {
        let mut s = "1".repeat(31);
        s.push(bad);
        assert!(!quick_pubkey_check(&s));
        let mut t = String::new();
        t.push(bad);
        t.push_str(&"1".repeat(31));
        assert!(!quick_pubkey_check(&t));
    }
    for good in ['1', '9', 'A', 'H', 'J', 'N', 'P', 'Z', 'a', 'k', 'm', 'z'] {
        let mut s = "2".repeat(31);
        s.push(good);
        assert!(quick_pubkey_check(&s));
    }
}

#[test]
fn raw_parse_program_log() {
    let line = "Program log: Instruction: Transfer";
    assert_eq!(
        RawLog::Log(RawProgramLog { raw: line, msg: "Instruction: Transfer" }),
        RawLog::parse(line)
    );
    let padded = "  Program log: hi  \n";
    assert_eq!(RawLog::Log(RawProgramLog { raw: padded, msg: "hi" }), RawLog::parse(padded));
}

#[test]
fn raw_parse_trims_before_it_matches() {
    assert_eq!(RawLog::Other("Program log:"), RawLog::parse("Program log:"));
    assert_eq!(RawLog::Other("Program log: "), RawLog::parse("Program log: "));
    assert_eq!(
        RawLog::Log(RawProgramLog { raw: "Program log:  x", msg: " x" }),
        RawLog::parse("Program log:  x")
    );
    assert_eq!(
        RawLog::Success(RawSuccessLog { raw: "\u{a0}Program x success\u{2003}", program_id: "x" }),
        RawLog::parse("\u{a0}Program x success\u{2003}")
    );
}

#[test]
fn raw_parse_data_and_return() {
    assert_eq!(
        RawLog::Data(RawDataLog { raw: "Program data: aGVsbG8gd29ybGQ=", data: "aGVsbG8gd29ybGQ=" }),
        RawLog::parse("Program data: aGVsbG8gd29ybGQ=")
    );
    let line = "Program return: TokenkegQfeZyiNwAJbNbGKPFXCWuBvf9Ss623VQ5DA AP8Q";
    assert_eq!(
        RawLog::Return(RawReturnLog { raw: line, program_id: TOKEN, data: "AP8Q" }),
        RawLog::parse(line)
    );
    assert_eq!(
        RawLog::Return(RawReturnLog { raw: "Program return: a b c", program_id: "a", data: "b c" }),
        RawLog::parse("Program return: a b c")
    );
    assert_eq!(RawLog::Other("Program return: abc"), RawLog::parse("Program return: abc"));
}

#[test]
fn raw_parse_invoke() {
    let line = "Program 11111111111111111111111111111111 invoke [1]";
    assert_eq!(
        RawLog::Invoke(RawInvokeLog { raw: line, program_id: SYSTEM, depth: 1 }),
        RawLog::parse(line)
    );
    assert_eq!(
        RawLog::Invoke(RawInvokeLog { raw: "Program x invoke [255]", program_id: "x", depth: 255 }),
        RawLog::parse("Program x invoke [255]")
    );
    assert_eq!(
        RawLog::Invoke(RawInvokeLog { raw: "Program x invoke [+07]", program_id: "x", depth: 7 }),
        RawLog::parse("Program x invoke [+07]")
    );
    for bad in [
        "Program x invoke [256]",
        "Program x invoke []",
        "Program x invoke [+]",
        "Program x invoke [-1]",
        "Program x invoke [1 ]",
        "Program x invoke [a]",
    ] {
        assert_eq!(RawLog::Other(bad), RawLog::parse(bad));
    }
    assert_eq!(RawLog::Other("Program x invoke [1"), RawLog::parse("Program x invoke [1"));
    assert_eq!(RawLog::Other("Program x invoke 1]"), RawLog::parse("Program x invoke 1]"));
}

#[test]
fn raw_parse_success_and_failed() {
    let line = "Program TokenkegQfeZyiNwAJbNbGKPFXCWuBvf9Ss623VQ5DA success";
    assert_eq!(
        RawLog::Success(RawSuccessLog { raw: line, program_id: TOKEN }),
        RawLog::parse(line)
    );
    assert_eq!(RawLog::Other("Program x success!"), RawLog::parse("Program x success!"));
    assert_eq!(RawLog::Other("Program x  success"), RawLog::parse("Program x  success"));
    let line = "Program x failed: custom program error: 0x1";
    assert_eq!(
        RawLog::Failed(RawFailedLog { raw: line, program_id: "x", err: "custom program error: 0x1" }),
        RawLog::parse(line)
    );
    assert_eq!(RawLog::Other("Program x failed:"), RawLog::parse("Program x failed:"));
}

#[test]
fn raw_parse_compute_units() {
    let line = "Program x consumed 2633 of 200000 compute units";
    assert_eq!(
        RawLog::Cu(RawCuLog { raw: line, program_id: "x", consumed: "2633", budget: "200000" }),
        RawLog::parse(line)
    );
    assert_eq!(
        RawLog::Cu(RawCuLog {
            raw: "Program x consumed a of b of c compute units",
            program_id: "x",
            consumed: "a",
            budget: "b of c",
        }),
        RawLog::parse("Program x consumed a of b of c compute units")
    );
    assert_eq!(
        RawLog::Other("Program x consumed 1 of 2 units"),
        RawLog::parse("Program x consumed 1 of 2 units")
    );
    assert_eq!(RawLog::Other("Program x consumed 1"), RawLog::parse("Program x consumed 1"));
}

#[test]
fn raw_parse_other() {
    for line in ["", "   ", "Program", "Program x", "Programs x success", "log: x"] {
        assert_eq!(RawLog::Other(line), RawLog::parse(line));
    }
    assert_eq!(
        RawLog::Success(RawSuccessLog { raw: "Program  success", program_id: "" }),
        RawLog::parse("Program  success")
    );
    assert_eq!("Program x", RawLog::parse("Program x").raw());
    assert_eq!(" Program x success ", RawLog::parse(" Program x success ").raw());
}

#[test]
fn parsed_log_decodes_the_parts() {
    let line = "Program TokenkegQfeZyiNwAJbNbGKPFXCWuBvf9Ss623VQ5DA invoke [2]";
    assert_eq!(
        Ok(ParsedLog::Invoke(ParsedInvokeLog { program_id: TOKEN_BYTES, depth: 2 })),
        ParsedLog::from_raw(&RawLog::parse(line))
    );
    assert_eq!(
        Ok(ParsedLog::Success(ParsedSuccessLog { program_id: [0; 32] })),
        ParsedLog::from_raw(&RawLog::parse("Program 11111111111111111111111111111111 success"))
    );
    assert_eq!(
        Ok(ParsedLog::Failed(ParsedFailedLog { program_id: [0; 32], err: "boom".to_string() })),
        ParsedLog::from_raw(&RawLog::parse("Program 11111111111111111111111111111111 failed: boom"))
    );
    assert_eq!(
        Ok(ParsedLog::Log(ParsedProgramLog { msg: "hi".to_string() })),
        ParsedLog::from_raw(&RawLog::parse("Program log: hi"))
    );
    assert_eq!(
        Ok(ParsedLog::Data(ParsedDataLog { data: b"hello world".to_vec() })),
        ParsedLog::from_raw(&RawLog::parse("Program data: aGVsbG8gd29ybGQ="))
    );
    assert_eq!(
        Ok(ParsedLog::Return(ParsedReturnLog { program_id: TOKEN_BYTES, data: vec![0, 255, 16] })),
        ParsedLog::from_raw(&RawLog::parse(
            "Program return: TokenkegQfeZyiNwAJbNbGKPFXCWuBvf9Ss623VQ5DA AP8Q"
        ))
    );
    assert_eq!(
        Ok(ParsedLog::Cu(ParsedCuLog { program_id: [0; 32], consumed: 2633, budget: 200000 })),
        ParsedLog::from_raw(&RawLog::parse(
            "Program 11111111111111111111111111111111 consumed 2633 of 200000 compute units"
        ))
    );
    assert_eq!(
        Ok(ParsedLog::Other("something else".to_string())),
        ParsedLog::from_raw(&RawLog::parse("something else"))
    );
}

#[test]
fn parsed_log_errors() {
    assert_eq!(
        Err(LogParseError::Pubkey),
        ParsedLog::from_raw(&RawLog::parse("Program x invoke [1]"))
    );
    assert_eq!(Err(LogParseError::Pubkey), ParsedLog::from_raw(&RawLog::parse("Program x success")));
    assert_eq!(
        Err(LogParseError::Pubkey),
        ParsedLog::from_raw(&RawLog::parse("Program x failed: e"))
    );
    assert_eq!(
        Err(LogParseError::Base64),
        ParsedLog::from_raw(&RawLog::parse("Program data: not base64!"))
    );
    assert_eq!(
        Err(LogParseError::Pubkey),
        ParsedLog::from_raw(&RawLog::parse("Program return: x !!"))
    );
    assert_eq!(
        Err(LogParseError::Base64),
        ParsedLog::from_raw(&RawLog::parse(
            "Program return: 11111111111111111111111111111111 !!"
        ))
    );
    assert_eq!(
        Err(LogParseError::ParseInt),
        ParsedLog::from_raw(&RawLog::parse(
            "Program 11111111111111111111111111111111 consumed x of 2 compute units"
        ))
    );
    assert_eq!(
        Err(LogParseError::ParseInt),
        ParsedLog::from_raw(&RawLog::parse(
            "Program 11111111111111111111111111111111 consumed 1 of 18446744073709551616 compute units"
        ))
    );
    assert_eq!(
        Err(LogParseError::Pubkey),
        ParsedLog::from_raw(&RawLog::parse("Program x consumed y of z compute units"))
    );
}

#[test]
fn parsed_parts() {
    assert_eq!(Ok(TOKEN_BYTES), parse_program_id(TOKEN));
    assert_eq!(Ok([0; 32]), parse_program_id(SYSTEM));
    assert_eq!(Err(LogParseError::Pubkey), parse_program_id(""));
    assert_eq!(Err(LogParseError::Pubkey), parse_program_id("1111"));
    assert_eq!(Err(LogParseError::Pubkey), parse_program_id(&"1".repeat(33)));
    assert_eq!(Err(LogParseError::Pubkey), parse_program_id(&"0".repeat(32)));
    assert_eq!(Ok(b"hello world".to_vec()), parse_data("aGVsbG8gd29ybGQ="));
    assert_eq!(Ok(vec![]), parse_data(""));
    assert_eq!(Err(LogParseError::Base64), parse_data("aGVsbG8gd29ybGQ"));
    assert_eq!(Ok(0), parse_units("0"));
    assert_eq!(Ok(12), parse_units("+12"));
    assert_eq!(Ok(u64::MAX), parse_units("18446744073709551615"));
    assert_eq!(Ok(5), parse_units("0000000000000000000000005"));
    assert_eq!(Err(LogParseError::ParseInt), parse_units("18446744073709551616"));
    assert_eq!(Err(LogParseError::ParseInt), parse_units(""));
    assert_eq!(Err(LogParseError::ParseInt), parse_units("+"));
    assert_eq!(Err(LogParseError::ParseInt), parse_units("-1"));
    assert_eq!(Err(LogParseError::ParseInt), parse_units("1 "));
    assert_eq!(Err(LogParseError::ParseInt), parse_units("++1"));
}

#[test]
fn parsed_lines_one_by_one() {
    assert_eq!(
        Ok(ParsedProgramLog { msg: "m".to_string() }),
        ParsedProgramLog::from_raw(&RawProgramLog { raw: "Program log: m", msg: "m" })
    );
    assert_eq!(
        Ok(ParsedDataLog { data: vec![0, 255, 16] }),
        ParsedDataLog::from_raw(&RawDataLog { raw: "", data: "AP8Q" })
    );
    assert_eq!(
        Ok(ParsedInvokeLog { program_id: [0; 32], depth: 3 }),
        ParsedInvokeLog::from_raw(&RawInvokeLog { raw: "", program_id: SYSTEM, depth: 3 })
    );
    assert_eq!(
        Ok(ParsedSuccessLog { program_id: TOKEN_BYTES }),
        ParsedSuccessLog::from_raw(&RawSuccessLog { raw: "", program_id: TOKEN })
    );
    assert_eq!(
        Ok(ParsedFailedLog { program_id: TOKEN_BYTES, err: "e".to_string() }),
        ParsedFailedLog::from_raw(&RawFailedLog { raw: "", program_id: TOKEN, err: "e" })
    );
    assert_eq!(
        Ok(ParsedReturnLog { program_id: TOKEN_BYTES, data: vec![] }),
        ParsedReturnLog::from_raw(&RawReturnLog { raw: "", program_id: TOKEN, data: "" })
    );
    assert_eq!(
        Ok(ParsedCuLog { program_id: TOKEN_BYTES, consumed: 1, budget: 2 }),
        ParsedCuLog::from_raw(&RawCuLog { raw: "", program_id: TOKEN, consumed: "1", budget: "2" })
    );
}

fn lines<'a>(text: &[&'a str]) -> Vec<RawLog<'a>> {
    text.iter().map(|l| RawLog::parse(l)).collect()
}

const NESTED: [&str; 12] = [
    "stray line",
    "Program A invoke [1]",
    "Program log: start",
    "Program B invoke [2]",
    "Program log: inner",
    "Program data: AP8Q",
    "Program B consumed 10 of 100 compute units",
    "Program return: B aGk=",
    "Program B success",
    "something else",
    "Program A failed: custom error",
    "Program C invoke [1]",
];

#[test]
fn structured_log_nests_invocations() {
    let mut all = lines(&NESTED);
    all.push(RawLog::parse("Program C success"));
    let forest = RawStructuredLog::from_raw_logs(all);
    assert_eq!(2, forest.len());
    let a = &forest[0];
    assert_eq!("A", a.program_id);
    assert_eq!(1, a.depth);
    assert_eq!(RawProgramResult::Failed("custom error"), a.result);
    assert_eq!(vec![RawProgramLog { raw: "Program log: start", msg: "start" }], a.program_logs);
    assert!(a.data_logs.is_empty());
    assert_eq!(None, a.return_data);
    assert_eq!(None, a.compute_log);
    assert_eq!(
        vec![
            "Program A invoke [1]",
            "Program log: start",
            "something else",
            "Program A failed: custom error"
        ],
        a.raw_logs
    );
    assert_eq!(1, a.cpi_logs.len());
    let b = &a.cpi_logs[0];
    assert_eq!("B", b.program_id);
    assert_eq!(2, b.depth);
    assert_eq!(RawProgramResult::Success, b.result);
    assert_eq!(vec![RawProgramLog { raw: "Program log: inner", msg: "inner" }], b.program_logs);
    assert_eq!(vec![RawDataLog { raw: "Program data: AP8Q", data: "AP8Q" }], b.data_logs);
    assert_eq!(Some("aGk="), b.return_data);
    assert_eq!(
        Some(RawCuLog {
            raw: "Program B consumed 10 of 100 compute units",
            program_id: "B",
            consumed: "10",
            budget: "100",
        }),
        b.compute_log
    );
    assert_eq!(
        vec![
            "Program B invoke [2]",
            "Program log: inner",
            "Program data: AP8Q",
            "Program B consumed 10 of 100 compute units",
            "Program return: B aGk=",
            "Program B success"
        ],
        b.raw_logs
    );
    assert!(b.cpi_logs.is_empty());
    let c = &forest[1];
    assert_eq!("C", c.program_id);
    assert_eq!(RawProgramResult::Success, c.result);
    assert_eq!(vec!["Program C invoke [1]", "Program C success"], c.raw_logs);
}

#[test]
fn structured_log_of_no_lines_is_empty() {
    assert!(RawStructuredLog::nests(&vec![]));
    assert!(RawStructuredLog::from_raw_logs(vec![]).is_empty());
    assert!(StructuredLog::from_logs(lines(&["a", "Program log: b"])).is_empty());
}

#[test]
fn structured_log_refuses_lines_that_do_not_nest() {
    assert!(!RawStructuredLog::nests(&lines(&NESTED)));
    assert_eq!(None, StructuredLog::try_from_logs(&lines(&NESTED)));
    assert_eq!(None, StructuredLog::try_from_logs(&lines(&["Program A success"])));
    assert_eq!(None, StructuredLog::try_from_logs(&lines(&["Program A failed: e"])));
    assert_eq!(
        None,
        StructuredLog::try_from_logs(&lines(&["Program A invoke [1]", "Program B success"]))
    );
    assert_eq!(
        None,
        StructuredLog::try_from_logs(&lines(&["Program A invoke [1]", "Program B failed: e"]))
    );
    assert_eq!(
        None,
        StructuredLog::try_from_logs(&lines(&[
            "Program A invoke [1]",
            "Program return: B AP8Q",
            "Program A success"
        ]))
    );
    assert_eq!(
        None,
        StructuredLog::try_from_logs(&lines(&[
            "Program A invoke [1]",
            "Program A success",
            "Program A success"
        ]))
    );
    assert!(RawStructuredLog::nests(&lines(&[
        "Program return: B AP8Q",
        "Program A invoke [1]",
        "Program A success"
    ])));
}

#[test]
fn structured_log_keeps_the_order_of_siblings() {
    let forest = StructuredLog::from_logs(lines(&[
        "Program A invoke [1]",
        "Program B invoke [2]",
        "Program B success",
        "Program C invoke [2]",
        "Program D invoke [3]",
        "Program D failed: x",
        "Program C success",
        "Program A success",
    ]));
    assert_eq!(1, forest.len());
    let a = &forest[0];
    assert_eq!(ProgramResult::Success, a.result);
    assert_eq!(vec!["B", "C"], a.cpi_logs.iter().map(|l| l.program_id).collect::<Vec<&str>>());
    assert_eq!("D", a.cpi_logs[1].cpi_logs[0].program_id);
    assert_eq!(ProgramResult::Failed("x"), a.cpi_logs[1].cpi_logs[0].result);
    assert_eq!(3, a.cpi_logs[1].cpi_logs[0].depth);
    let raw = RawStructuredLog::from_structured(a);
    assert_eq!("D", raw.cpi_logs[1].cpi_logs[0].program_id);
    assert_eq!(RawProgramResult::Failed("x"), raw.cpi_logs[1].cpi_logs[0].result);
    assert_eq!(a.raw_logs, raw.raw_logs);
}

#[test]
fn frame_builder_collects_the_lines_of_an_invocation() {
    let mut frame = FrameBuilder::new("A", 1, "Program A invoke [1]");
    frame.push_program_log(RawProgramLog { raw: "Program log: x", msg: "x" });
    frame.push_data_log(RawDataLog { raw: "Program data: AP8Q", data: "AP8Q" });
    frame.push_raw("other");
    frame.set_return_data("A", "aGk=", "Program return: A aGk=");
    frame.set_compute_log(RawCuLog {
        raw: "Program A consumed 1 of 2 compute units",
        program_id: "A",
        consumed: "1",
        budget: "2",
    });
    let done = frame.finalize(ProgramResult::Failed("e"), "Program A failed: e");
    assert_eq!("A", done.program_id);
    assert_eq!(1, done.depth);
    assert_eq!(ProgramResult::Failed("e"), done.result);
    assert_eq!(1, done.program_logs.len());
    assert_eq!(1, done.data_logs.len());
    assert_eq!(Some("aGk="), done.return_data);
    assert_eq!("1", done.compute_log.unwrap().consumed);
    assert_eq!(
        vec![
            "Program A invoke [1]",
            "Program log: x",
            "Program data: AP8Q",
            "other",
            "Program return: A aGk=",
            "Program A consumed 1 of 2 compute units",
            "Program A failed: e"
        ],
        done.raw_logs
    );
}

#[test]
fn text_ranges() {
    let v = chars_of("  ab=>cd, e  ");
    assert_eq!(Range { lo: 2, hi: 11 }, trim_range(&v));
    assert_eq!(Range { lo: 0, hi: 0 }, trim_range(&chars_of(" \t ")));
    assert_eq!(Range { lo: 0, hi: 0 }, trim_range(&chars_of("")));
    assert_eq!(Range { lo: 8, hi: 11 }, trim_in(&v, Range { lo: 8, hi: 12 }));
    assert_eq!(Range { lo: 10, hi: 11 }, trim_in(&v, Range { lo: 9, hi: 12 }));
    assert_eq!(Range { lo: 11, hi: 11 }, trim_in(&v, Range { lo: 11, hi: 13 }));
    assert_eq!(Range { lo: 8, hi: 9 }, trim_in(&v, Range { lo: 8, hi: 9 }));
    let all = Range { lo: 0, hi: v.len() };
    assert_eq!(
        Some((Range { lo: 0, hi: 4 }, Range { lo: 6, hi: 13 })),
        split_once_in(&v, all, &chars_of("=>"))
    );
    assert_eq!(None, split_once_in(&v, all, &chars_of("=>>")));
    assert_eq!(None, split_once_in(&v, Range { lo: 0, hi: 5 }, &chars_of("=>")));
    assert_eq!(
        Some((Range { lo: 3, hi: 3 }, Range { lo: 3, hi: 6 })),
        split_once_in(&v, Range { lo: 3, hi: 6 }, &chars_of(""))
    );
    assert_eq!(Some(Range { lo: 2, hi: 13 }), strip_prefix_in(&v, all, &chars_of("  ")));
    assert_eq!(None, strip_prefix_in(&v, all, &chars_of("ab")));
    assert_eq!(Some(Range { lo: 0, hi: 11 }), strip_suffix_in(&v, all, &chars_of("  ")));
    assert_eq!(None, strip_suffix_in(&v, all, &chars_of("e")));
    assert_eq!(None, strip_suffix_in(&v, Range { lo: 0, hi: 1 }, &chars_of("   ")));
    assert!(matches_at(&v, all, 2, &chars_of("ab")));
    assert!(!matches_at(&v, Range { lo: 0, hi: 3 }, 2, &chars_of("ab")));
    assert!(range_is(&v, Range { lo: 2, hi: 4 }, &chars_of("ab")));
    assert!(!range_is(&v, Range { lo: 2, hi: 5 }, &chars_of("ab")));
    assert_eq!(chars_of("cd"), copy_range(&v, Range { lo: 6, hi: 8 }));
    assert_eq!(
        vec![Range { lo: 0, hi: 8 }, Range { lo: 9, hi: 13 }],
        split_all_in(&v, all, ',')
    );
    assert_eq!(
        vec![Range { lo: 0, hi: 0 }, Range { lo: 1, hi: 1 }, Range { lo: 2, hi: 2 }],
        split_all_in(&chars_of(",,"), Range { lo: 0, hi: 2 }, ',')
    );
    assert_eq!(vec![Range { lo: 0, hi: 0 }], split_all_in(&chars_of(""), Range { lo: 0, hi: 0 }, ','));
    assert!(str_eq("ab", "ab"));
    assert!(!str_eq("ab", "abc"));
}

#[test]
fn numbers_are_read_in_decimal() {
    assert_eq!(Some(0), parse_u8(&chars_of("0")));
    assert_eq!(Some(255), parse_u8(&chars_of("255")));
    assert_eq!(Some(7), parse_u8(&chars_of("007")));
    assert_eq!(None, parse_u8(&chars_of("256")));
    assert_eq!(None, parse_u8(&chars_of("")));
    assert_eq!(None, parse_u8(&chars_of("1a")));
    assert_eq!(None, parse_u8(&chars_of("+1")));
    assert_eq!(None, parse_u8(&chars_of("99999999999999999999999999")));
    assert_eq!(Some(18446744073709551615), parse_u64(&chars_of("18446744073709551615")));
    assert_eq!(None, parse_u64(&chars_of("18446744073709551616")));
    assert_eq!(None, parse_u64(&chars_of("18446744073709551620")));
    assert_eq!(Some(1844674407370955161), parse_u64(&chars_of("1844674407370955161")));
    assert_eq!(None, parse_u64(&chars_of("\u{663}")));
}
