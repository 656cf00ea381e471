use prolog_parser::ast::{FX, FY, XF, XFX, XFY, YF, YFX};
use toplevel::ast::{ArithmeticError, Constant, Fixity, Integer, Number, ParserError, Term};
use toplevel::code::IndexStore;
use toplevel::reader::{
    are_operators, decode, parse_term, DoubleQuotes, MachineFlags, OpEntry, ReadError,
};
use toplevel::scan::comes_to_a_stop;

fn op(name: &str, fixity: Fixity, specifier: u32, precedence: usize) -> OpEntry {
    OpEntry { name: name.to_string(), fixity, specifier, precedence }
}

fn store() -> IndexStore {
    let mut indices = IndexStore::new();
    indices.op_dir.push(op(":-", Fixity::In, XFX, 1200));
    indices.op_dir.push(op(":-", Fixity::Pre, FX, 1200));
    indices.op_dir.push(op("/", Fixity::In, YFX, 400));
    indices.op_dir.push(op("-", Fixity::Pre, FY, 200));
    indices
}

fn chars() -> MachineFlags {
    MachineFlags { double_quotes: DoubleQuotes::Chars }
}

fn read(text: &str) -> Result<Term, ParserError> {
    parse_term(&store(), chars(), text.as_bytes())
}

fn error(text: &str) -> ParserError {
    match read(text) {
        Ok(term) => panic!("{:?} was read", term),
        Err(e) => e,
    }
}

#[test]
fn an_atom_is_read() {
    assert!(matches!(
        read("foo."),
        Ok(Term::Constant(Constant::Atom(name, None))) if name == "foo"
    ));
}

#[test]
fn a_clause_is_read_with_its_arguments() {
    match read("foo(X, _, [a|T]).") {
        Ok(Term::Clause(name, args, None)) => {
            assert_eq!(name, "foo");
            assert_eq!(args.len(), 3);
            assert!(matches!(&args[0], Term::Var(v) if v == "X"));
            assert!(matches!(&args[1], Term::AnonVar));
            match &args[2] {
                Term::Cons(head, tail) => {
                    assert!(matches!(&**head, Term::Constant(Constant::Atom(a, _)) if a == "a"));
                    assert!(matches!(&**tail, Term::Var(v) if v == "T"));
                }
                other => panic!("{:?}", other),
            }
        }
        other => panic!("{:?}", other),
    }
}

#[test]
fn an_operator_gives_its_fixity() {
    match read("a :- b.") {
        Ok(Term::Clause(name, args, Some(Fixity::In))) => {
            assert_eq!(name, ":-");
            assert_eq!(args.len(), 2);
        }
        other => panic!("{:?}", other),
    }
    assert!(matches!(read(":- b."), Ok(Term::Clause(_, _, Some(Fixity::Pre)))));
}

#[test]
fn the_operators_decide() {
    let bare = IndexStore::new();
    assert_eq!(
        parse_term(&bare, chars(), b"a :- b.").err(),
        Some(ParserError::IncompleteReduction),
    );
}

#[test]
fn a_negative_integer_is_read() {
    match read("-300.") {
        Ok(Term::Constant(Constant::Number(Number::Integer(n)))) => {
            assert_eq!(n.bytes, vec![0xd4, 0xfe]);
        }
        other => panic!("{:?}", other),
    }
}

#[test]
fn a_float_is_read_as_its_bits() {
    match read("1.5.") {
        Ok(Term::Constant(Constant::Number(Number::Float(bits)))) => {
            assert_eq!(f64::from_bits(bits), 1.5);
        }
        other => panic!("{:?}", other),
    }
}

#[test]
fn the_flag_decides_on_double_quotes() {
    assert!(matches!(read("\"ab\"."), Ok(Term::Constant(Constant::String(s))) if s == "ab"));
    let atoms = MachineFlags { double_quotes: DoubleQuotes::Atom };
    assert!(matches!(
        parse_term(&store(), atoms, b"\"ab\"."),
        Ok(Term::Constant(Constant::Atom(s, None))) if s == "ab"
    ));
}

#[test]
fn only_the_first_term_is_read() {
    assert!(matches!(read("a. b."), Ok(Term::Constant(Constant::Atom(a, _))) if a == "a"));
}

#[test]
fn the_empty_list_and_a_char_are_constants() {
    assert!(matches!(read("[]."), Ok(Term::Constant(Constant::EmptyList))));
    assert!(matches!(read("'q'."), Ok(Term::Constant(Constant::Char('q')))));
}

#[test]
fn errors_come_through() {
    assert_eq!(error("foo"), ParserError::UnexpectedEOF);
    assert_eq!(error("foo(."), ParserError::IncompleteReduction);
    assert_eq!(error("'foo\n."), ParserError::MissingQuote);
    assert_eq!(error("`foo`."), ParserError::BackQuotedString);
    assert_eq!(error("0xg."), ParserError::ParseBigInt);
    assert_eq!(error("1.0e."), ParserError::ParseFloat);
    assert_eq!(error("0'"), ParserError::UnexpectedEOF);
    assert_eq!(error("0'' "), ParserError::UnexpectedChar('\''));
    assert_eq!(error("0'\t"), ParserError::UnexpectedChar('\t'));
}

#[test]
fn every_code_is_decoded() {
    let codes = [
        ("back_quoted_string", ParserError::BackQuotedString),
        ("unexpected_end_of_file", ParserError::UnexpectedEOF),
        ("expected_relation", ParserError::ExpectedRel),
        ("expected_atom_or_cons_or_clause", ParserError::ExpectedTopLevelTerm),
        ("inadmissible_fact", ParserError::InadmissibleFact),
        ("inadmissible_query_term", ParserError::InadmissibleQueryTerm),
        ("incomplete_reduction", ParserError::IncompleteReduction),
        ("inconsistent_entry", ParserError::InconsistentEntry),
        ("invalid_hook", ParserError::InvalidHook),
        ("invalid_module_declaration", ParserError::InvalidModuleDecl),
        ("invalid_module_export", ParserError::InvalidModuleExport),
        ("invalid_module_resolution", ParserError::InvalidModuleResolution),
        ("invalid_head_of_rule", ParserError::InvalidRuleHead),
        ("invalid_use_module_declaration", ParserError::InvalidUseModuleDecl),
        ("missing_quote", ParserError::MissingQuote),
        ("non_prolog_character", ParserError::NonPrologChar),
        ("cannot_parse_big_int", ParserError::ParseBigInt),
        ("cannot_parse_float", ParserError::ParseFloat),
        ("cannot_parse_cyclic_term", ParserError::CannotParseCyclicTerm),
    ];
    for (code, e) in codes.iter() {
        assert_eq!(decode(Err(ReadError::Coded(code.to_string()))).err(), Some(*e));
    }
    assert!(matches!(decode(Ok(Term::AnonVar)), Ok(Term::AnonVar)));
}

#[test]
fn the_codes_are_those_of_the_parser() {
    let hook = prolog_parser::ast::ParserError::InvalidHook;
    assert_eq!(
        decode(Err(ReadError::Coded(hook.as_str().to_string()))).err(),
        Some(ParserError::InvalidHook),
    );
    let cyclic = prolog_parser::ast::ParserError::CannotParseCyclicTerm;
    assert_eq!(
        decode(Err(ReadError::Coded(cyclic.as_str().to_string()))).err(),
        Some(ParserError::CannotParseCyclicTerm),
    );
}

#[test]
fn the_kinds_of_operators_are_those_of_the_parser() {
    assert_eq!(toplevel::ast::XFX, XFX);
    assert_eq!(toplevel::ast::XFY, XFY);
    assert_eq!(toplevel::ast::YFX, YFX);
    assert_eq!(toplevel::ast::XF, XF);
    assert_eq!(toplevel::ast::YF, YF);
    assert_eq!(toplevel::ast::FX, FX);
    assert_eq!(toplevel::ast::FY, FY);
}

#[test]
fn an_error_keeps_what_it_carries() {
    let errors = vec![
        (
            ReadError::Arithmetic(ArithmeticError::NoRoots),
            ParserError::Arithmetic(ArithmeticError::NoRoots),
        ),
        (ReadError::UnexpectedChar('q'), ParserError::UnexpectedChar('q')),
        (ReadError::IO(Some(5)), ParserError::IO(Some(5))),
        (ReadError::Utf8Conversion(3, Some(1)), ParserError::Utf8Conversion(3, Some(1))),
    ];
    for (read, e) in errors {
        assert_eq!(decode(Err(read)).err(), Some(e));
    }
}

/// The text is one in which the parser comes to a stop, and the parser does.
fn stops(text: &str) -> Result<Term, ParserError> {
    assert!(comes_to_a_stop(text.as_bytes()), "{}", text);
    read(text)
}

fn reads_atom(text: &str, expected: &str) {
    match stops(text) {
        Ok(Term::Constant(Constant::Atom(name, _))) => assert_eq!(name, expected),
        other => panic!("{}: {:?}", text, other),
    }
}

#[test]
fn any_character_may_stand_in_a_line_comment() {
    reads_atom("% caf\u{e9} \u{0} \r\nfoo.", "foo");
    reads_atom("foo % it's a caf\u{e9}\n.", "foo");
    reads_atom("foo.% caf\u{e9}\n", "foo");
    reads_atom("/* it's */ % \u{e9} */\nfoo.", "foo");
    assert!(stops("X/0'%. % caf\u{e9}\n").is_ok());
    assert!(stops("1.0/'%'. % caf\u{e9}\n").is_ok());
    assert_eq!(stops("foo % \u{e9}").err(), Some(ParserError::UnexpectedEOF));
}

#[test]
fn any_character_may_follow_the_first_term() {
    reads_atom("foo. \u{e9}\r\n", "foo");
    reads_atom("foo.\n\u{0}", "foo");
    reads_atom("'f.%oo'. caf\u{e9}", "f.%oo");
    reads_atom("/* foo. **/ bar.\t\r", "bar");
    reads_atom("'a''. \\x41\\\\\n'. \u{e9}", "a'. A");
    for text in [
        "12. \u{e9}",
        "1.5e+3. \u{e9}",
        "0x1f. \u{e9}",
        "0o17. \u{e9}",
        "0b10. \u{e9}",
        "0'''. \u{e9}",
        "0'\\\\. \u{e9}",
        "0'\\101\\. \u{e9}",
        "\"a''`\"\"\". \u{e9}",
        "[a|{B}]/(c,d). \u{e9}",
    ]
    .iter()
    {
        assert!(stops(text).is_ok(), "{}", text);
    }
}

#[test]
fn a_strange_character_in_quotes_or_in_a_comment_in_brackets_is_an_error() {
    assert_eq!(stops("'caf\u{e9}'.").err(), Some(ParserError::MissingQuote));
    assert_eq!(stops("\"caf\u{e9}\".").err(), Some(ParserError::MissingQuote));
    assert_eq!(stops("/* caf\u{e9} */ a.").err(), Some(ParserError::NonPrologChar));
    assert_eq!(stops("0'\u{e9}").err(), Some(ParserError::UnexpectedChar('\u{c3}')));
    assert_eq!(stops("`foo` \u{e9}").err(), Some(ParserError::BackQuotedString));
    assert_eq!(stops("1.0e \u{e9}").err(), Some(ParserError::ParseFloat));
    assert_eq!(stops("0xg \u{e9}").err(), Some(ParserError::ParseBigInt));
    assert_eq!(stops("'\\q' \u{e9}").err(), Some(ParserError::MissingQuote));
}

#[test]
fn no_token_begins_with_a_strange_character() {
    let texts = [
        "\r",
        "a\rb.",
        "caf\u{e9}.",
        "\u{7f}.",
        "\u{0}",
        "a.b \u{e9}",
        "'it' \u{e9}",
        "/* a */ \u{e9}",
        "=. \u{e9}",
        ".. \u{e9}",
        "% a\n\u{e9}",
        "0'''\u{e9}",
        "1.0'%'\u{e9}",
        "`a\u{e9}",
        "0b12 \u{e9}",
    ];
    for text in texts.iter() {
        assert!(!comes_to_a_stop(text.as_bytes()), "{}", text);
    }
    assert!(comes_to_a_stop(b""));
    assert!(comes_to_a_stop(b" \t\n\x0b\x0c!~"));
}

#[test]
fn operators_have_a_kind_and_a_precedence() {
    assert!(are_operators(&store().op_dir));
    assert!(are_operators(&vec![op("f", Fixity::Post, XF, 1200)]));
    assert!(!are_operators(&vec![op("f", Fixity::Post, XF, 1201)]));
    assert!(!are_operators(&vec![op("f", Fixity::Post, 3, 1)]));
}

#[test]
fn brackets_come_off_an_atom() {
    let atom = |name: &str| Constant::Atom(name.to_string(), None).to_atom();
    assert_eq!(atom("(;)"), Some(String::from(";")));
    assert_eq!(atom("()"), Some(String::new()));
    assert_eq!(atom("("), Some(String::from("(")));
    assert_eq!(atom("a)"), Some(String::from("a)")));
    assert_eq!(Constant::EmptyList.to_atom(), None);
}

#[test]
fn integer_constants_are_integers() {
    let c = Constant::Number(Number::Integer(Integer { bytes: vec![7] }));
    assert_eq!(c.to_integer().map(|n| n.bytes), Some(vec![7]));
    assert!(Constant::Char('7').to_integer().is_none());
}
