//! What the library takes from the Prolog parser and from the big integers
//! that it works with.
use vstd::prelude::*;

use num::bigint::BigInt;
use num::{Signed, ToPrimitive};
use prolog_parser::ast::{
    ArithmeticError as OuterArithmetic, ClauseName, CompositeOp, Constant as ParserConstant,
    DoubleQuotes as ParserQuotes, Fixity as ParserFixity, MachineFlags as ParserFlags,
    Number as ParserNumber, OpDir, ParserError as OuterError, Term as ParserTerm,
};
use prolog_parser::parser::Parser;
use prolog_parser::tabled_rc::{TabledData, TabledRc};
use std::rc::Rc;

use crate::ast::{
    name_is, outcome, ArithmeticError, Constant, Fixity, Integer, Number, ParserError, Term, TermV,
    FX, FY, XF, XFX, XFY, YF, YFX,
};
use crate::code::IndexStore;
use crate::scan::stops;

verus! {

/// An operator: its name and fixity, its kind and its precedence.
#[derive(Debug)]
pub struct OpEntry {
    pub name: String,
    pub fixity: Fixity,
    pub specifier: u32,
    pub precedence: usize,
}

/// A name without the round brackets that enclose it, if they do.
pub open spec fn defrocked(name: Seq<char>) -> Seq<char> {
    if name.len() >= 2 && name[0] == '(' && name.last() == ')' {
        name.subrange(1, name.len() - 1)
    } else {
        name
    }
}

/// `prolog_parser::ast::ClauseName::defrock_brackets`: an opening bracket in
/// front and a closing one at the end are taken off together; any other name
/// stays as it is.
#[verifier::external_body]
pub(crate) fn defrock_brackets(name: String) -> (r: String)
    ensures
        r@ == defrocked(name@),
{
    let table = TabledData::new(Rc::new(String::new()));
    ClauseName::User(TabledRc::new(name, table)).defrock_brackets().to_rc().to_string()
}

/// `num::bigint::BigInt::to_usize`: the value, where a `usize` can hold it.
#[verifier::external_body]
pub(crate) fn integer_to_usize(n: &Integer) -> (r: Option<usize>)
    ensures
        match r {
            Some(k) => n@ == k,
            None => n@ < 0 || n@ > usize::MAX,
        },
{
    BigInt::from_signed_bytes_le(&n.bytes).to_usize()
}

/// `num::bigint::BigInt::is_negative`: whether the value is below zero.
#[verifier::external_body]
pub(crate) fn integer_is_negative(n: &Integer) -> (r: bool)
    ensures
        r == (n@ < 0),
{
    BigInt::from_signed_bytes_le(&n.bytes).is_negative()
}

/// How text in double quotes is read.
#[derive(Clone, Copy, Debug, PartialEq, Eq, Structural)]
pub enum DoubleQuotes {
    Atom,
    Chars,
}

/// The settings that the parser heeds.
#[derive(Clone, Copy, Debug, PartialEq, Eq, Structural)]
pub struct MachineFlags {
    pub double_quotes: DoubleQuotes,
}

/// The view of an `OpEntry`.
pub struct OpEntryV {
    pub name: Seq<char>,
    pub fixity: Fixity,
    pub specifier: u32,
    pub precedence: nat,
}

impl View for OpEntry {
    type V = OpEntryV;

    open spec fn view(&self) -> OpEntryV {
        OpEntryV {
            name: self.name@,
            fixity: self.fixity,
            specifier: self.specifier,
            precedence: self.precedence as nat,
        }
    }
}

/// The views of operators, one for one.
pub open spec fn ops_view(ops: Seq<OpEntry>) -> Seq<OpEntryV> {
    ops.map_values(|op: OpEntry| op@)
}

/// An operator of one of the seven kinds, with a precedence that an operator can have.
pub open spec fn is_operator(op: OpEntryV) -> bool {
    &&& op.precedence <= 1200
    &&& op.specifier == XFX || op.specifier == XFY || op.specifier == YFX || op.specifier == XF
        || op.specifier == YF || op.specifier == FX || op.specifier == FY
}

/// Whether all of these are operators that the parser can work with.
pub fn are_operators(ops: &Vec<OpEntry>) -> (r: bool)
    ensures
        r == forall|i: int| 0 <= i < ops@.len() ==> is_operator(#[trigger] ops_view(ops@)[i]),
{
    for i in 0..ops.len()
        invariant
            forall|j: int| 0 <= j < i ==> is_operator(#[trigger] ops_view(ops@)[j]),
    {
        let op = &ops[i];
        let kind: u32 = op.specifier;
        if op.precedence > 1200 || !(kind == XFX || kind == XFY || kind == YFX || kind == XF || kind
            == YF || kind == FX || kind == FY) {
            assert(!is_operator(ops_view(ops@)[i as int]));
            return false;
        }
    }
    true
}

/// The error that the parser gives this code to.
pub open spec fn error_coded(code: Seq<char>) -> Option<ParserError> {
    if code == "back_quoted_string"@ {
        Some(ParserError::BackQuotedString)
    } else if code == "unexpected_end_of_file"@ {
        Some(ParserError::UnexpectedEOF)
    } else if code == "expected_relation"@ {
        Some(ParserError::ExpectedRel)
    } else if code == "expected_atom_or_cons_or_clause"@ {
        Some(ParserError::ExpectedTopLevelTerm)
    } else if code == "inadmissible_fact"@ {
        Some(ParserError::InadmissibleFact)
    } else if code == "inadmissible_query_term"@ {
        Some(ParserError::InadmissibleQueryTerm)
    } else if code == "incomplete_reduction"@ {
        Some(ParserError::IncompleteReduction)
    } else if code == "inconsistent_entry"@ {
        Some(ParserError::InconsistentEntry)
    } else if code == "invalid_hook"@ {
        Some(ParserError::InvalidHook)
    } else if code == "invalid_module_declaration"@ {
        Some(ParserError::InvalidModuleDecl)
    } else if code == "invalid_module_export"@ {
        Some(ParserError::InvalidModuleExport)
    } else if code == "invalid_module_resolution"@ {
        Some(ParserError::InvalidModuleResolution)
    } else if code == "invalid_head_of_rule"@ {
        Some(ParserError::InvalidRuleHead)
    } else if code == "invalid_use_module_declaration"@ {
        Some(ParserError::InvalidUseModuleDecl)
    } else if code == "missing_quote"@ {
        Some(ParserError::MissingQuote)
    } else if code == "non_prolog_character"@ {
        Some(ParserError::NonPrologChar)
    } else if code == "cannot_parse_big_int"@ {
        Some(ParserError::ParseBigInt)
    } else if code == "cannot_parse_float"@ {
        Some(ParserError::ParseFloat)
    } else if code == "cannot_parse_cyclic_term"@ {
        Some(ParserError::CannotParseCyclicTerm)
    } else {
        None
    }
}

/// The error that the parser gives this code to.
fn error_by_code(code: &String) -> (r: Option<ParserError>)
    ensures
        r == error_coded(code@),
{
    if name_is(code, "back_quoted_string") {
        Some(ParserError::BackQuotedString)
    } else if name_is(code, "unexpected_end_of_file") {
        Some(ParserError::UnexpectedEOF)
    } else if name_is(code, "expected_relation") {
        Some(ParserError::ExpectedRel)
    } else if name_is(code, "expected_atom_or_cons_or_clause") {
        Some(ParserError::ExpectedTopLevelTerm)
    } else if name_is(code, "inadmissible_fact") {
        Some(ParserError::InadmissibleFact)
    } else if name_is(code, "inadmissible_query_term") {
        Some(ParserError::InadmissibleQueryTerm)
    } else if name_is(code, "incomplete_reduction") {
        Some(ParserError::IncompleteReduction)
    } else if name_is(code, "inconsistent_entry") {
        Some(ParserError::InconsistentEntry)
    } else if name_is(code, "invalid_hook") {
        Some(ParserError::InvalidHook)
    } else if name_is(code, "invalid_module_declaration") {
        Some(ParserError::InvalidModuleDecl)
    } else if name_is(code, "invalid_module_export") {
        Some(ParserError::InvalidModuleExport)
    } else if name_is(code, "invalid_module_resolution") {
        Some(ParserError::InvalidModuleResolution)
    } else if name_is(code, "invalid_head_of_rule") {
        Some(ParserError::InvalidRuleHead)
    } else if name_is(code, "invalid_use_module_declaration") {
        Some(ParserError::InvalidUseModuleDecl)
    } else if name_is(code, "missing_quote") {
        Some(ParserError::MissingQuote)
    } else if name_is(code, "non_prolog_character") {
        Some(ParserError::NonPrologChar)
    } else if name_is(code, "cannot_parse_big_int") {
        Some(ParserError::ParseBigInt)
    } else if name_is(code, "cannot_parse_float") {
        Some(ParserError::ParseFloat)
    } else if name_is(code, "cannot_parse_cyclic_term") {
        Some(ParserError::CannotParseCyclicTerm)
    } else {
        None
    }
}

/// An error of the parser, as it hands it over.
#[derive(Debug)]
pub enum ReadError {
    Arithmetic(ArithmeticError),
    UnexpectedChar(char),
    IO(Option<i32>),
    Utf8Conversion(usize, Option<usize>),
    /// Any other, by its code.
    Coded(String),
}

/// The view of a `ReadError`.
pub enum ReadErrorV {
    Arithmetic(ArithmeticError),
    UnexpectedChar(char),
    IO(Option<i32>),
    Utf8Conversion(usize, Option<usize>),
    Coded(Seq<char>),
}

impl View for ReadError {
    type V = ReadErrorV;

    open spec fn view(&self) -> ReadErrorV {
        match *self {
            ReadError::Arithmetic(e) => ReadErrorV::Arithmetic(e),
            ReadError::UnexpectedChar(c) => ReadErrorV::UnexpectedChar(c),
            ReadError::IO(code) => ReadErrorV::IO(code),
            ReadError::Utf8Conversion(valid, len) => ReadErrorV::Utf8Conversion(valid, len),
            ReadError::Coded(code) => ReadErrorV::Coded(code@),
        }
    }
}

/// The view of what the parser returned.
pub open spec fn reading(r: Result<Term, ReadError>) -> Result<TermV, ReadErrorV> {
    match r {
        Ok(term) => Ok(term@),
        Err(e) => Err(e@),
    }
}

/// What the parser returned, with its error as the library has it.
pub open spec fn decoded(r: Result<TermV, ReadErrorV>) -> Result<TermV, ParserError> {
    match r {
        Ok(term) => Ok(term),
        Err(ReadErrorV::Arithmetic(e)) => Err(ParserError::Arithmetic(e)),
        Err(ReadErrorV::UnexpectedChar(c)) => Err(ParserError::UnexpectedChar(c)),
        Err(ReadErrorV::IO(code)) => Err(ParserError::IO(code)),
        Err(ReadErrorV::Utf8Conversion(valid, len)) => Err(ParserError::Utf8Conversion(valid, len)),
        Err(ReadErrorV::Coded(code)) => Err(error_coded(code)->0),
    }
}

/// What the parser returned, with its error as the library has it.
pub fn decode(r: Result<Term, ReadError>) -> (read: Result<Term, ParserError>)
    requires
        r matches Err(ReadError::Coded(code)) ==> error_coded(code@) is Some,
    ensures
        outcome(read) == decoded(reading(r)),
{
    match r {
        Ok(term) => Ok(term),
        Err(ReadError::Arithmetic(e)) => Err(ParserError::Arithmetic(e)),
        Err(ReadError::UnexpectedChar(c)) => Err(ParserError::UnexpectedChar(c)),
        Err(ReadError::IO(code)) => Err(ParserError::IO(code)),
        Err(ReadError::Utf8Conversion(valid, len)) => Err(ParserError::Utf8Conversion(valid, len)),
        Err(ReadError::Coded(code)) => Err(error_by_code(&code).unwrap()),
    }
}

/// The parser's terms.
#[verifier::external_type_specification]
#[verifier::external_body]
pub struct ExTerm(ParserTerm);

/// The parser's atomic terms.
#[verifier::external_type_specification]
#[verifier::external_body]
pub struct ExConstant(ParserConstant);

/// The parser's numbers.
#[verifier::external_type_specification]
#[verifier::external_body]
pub struct ExNumber(ParserNumber);

/// The parser's fixities.
#[verifier::external_type_specification]
#[verifier::external_body]
pub struct ExFixity(ParserFixity);

/// The parser's integers.
#[verifier::external_type_specification]
#[verifier::external_body]
pub struct ExBigInt(BigInt);

/// The parser's errors.
#[verifier::external_type_specification]
#[verifier::external_body]
pub struct ExOuterError(OuterError);

/// The parser's arithmetic errors.
#[verifier::external_type_specification]
#[verifier::external_body]
pub struct ExOuterArithmetic(OuterArithmetic);

/// A `prolog_parser::ast::Fixity`, taken over variant by variant.
#[verifier::external_body]
fn own_fixity(fixity: ParserFixity) -> Fixity {
    match fixity {
        ParserFixity::In => Fixity::In,
        ParserFixity::Post => Fixity::Post,
        ParserFixity::Pre => Fixity::Pre,
    }
}

/// A `Fixity` as the parser has it.
#[verifier::external_body]
fn parser_fixity(fixity: Fixity) -> ParserFixity {
    match fixity {
        Fixity::In => ParserFixity::In,
        Fixity::Post => ParserFixity::Post,
        Fixity::Pre => ParserFixity::Pre,
    }
}

/// A `num::bigint::BigInt`, by its bytes in two's complement.
#[verifier::external_body]
fn own_integer(n: &BigInt) -> Integer {
    Integer { bytes: n.to_signed_bytes_le() }
}

/// A `prolog_parser::ast::Number`, taken over variant by variant.
#[verifier::external_body]
fn own_number(n: ParserNumber) -> Number {
    match n {
        ParserNumber::Float(f) => Number::Float(f.into_inner().to_bits()),
        ParserNumber::Integer(n) => Number::Integer(own_integer(&n)),
        ParserNumber::Rational(r) => Number::Rational(
            own_integer(r.numer()),
            own_integer(r.denom()),
        ),
    }
}

/// A `prolog_parser::ast::Constant`, taken over variant by variant.
#[verifier::external_body]
fn own_constant(c: ParserConstant) -> Constant {
    match c {
        ParserConstant::Atom(name, fixity) => Constant::Atom(
            name.as_str().to_owned(),
            fixity.map(own_fixity),
        ),
        ParserConstant::Char(c) => Constant::Char(c),
        ParserConstant::Number(n) => Constant::Number(own_number(n)),
        ParserConstant::String(s) => Constant::String(s.borrow().to_owned()),
        ParserConstant::Usize(n) => Constant::Usize(n),
        ParserConstant::EmptyList => Constant::EmptyList,
    }
}

/// A `prolog_parser::ast::Term`, taken over variant by variant.
#[verifier::external_body]
fn own_term(term: ParserTerm) -> Term {
    match term {
        ParserTerm::AnonVar => Term::AnonVar,
        ParserTerm::Clause(_, name, terms, fixity) => Term::Clause(
            name.as_str().to_owned(),
            terms.into_iter().map(|term| own_term(*term)).collect(),
            fixity.map(own_fixity),
        ),
        ParserTerm::Cons(_, head, tail) => Term::Cons(
            Box::new(own_term(*head)),
            Box::new(own_term(*tail)),
        ),
        ParserTerm::Constant(_, c) => Term::Constant(own_constant(c)),
        ParserTerm::Var(_, name) => Term::Var(name.to_string()),
    }
}

/// A `prolog_parser::ast::ArithmeticError`, taken over variant by variant.
#[verifier::external_body]
fn own_arithmetic(e: OuterArithmetic) -> ArithmeticError {
    match e {
        OuterArithmetic::InvalidAtom => ArithmeticError::InvalidAtom,
        OuterArithmetic::InvalidOp => ArithmeticError::InvalidOp,
        OuterArithmetic::InvalidTerm => ArithmeticError::InvalidTerm,
        OuterArithmetic::NoRoots => ArithmeticError::NoRoots,
        OuterArithmetic::UninstantiatedVar => ArithmeticError::UninstantiatedVar,
    }
}

/// A `prolog_parser::ast::ParserError`: one that carries something with what it carries, one that
/// carries nothing by the code that `prolog_parser::ast::ParserError::as_str` gives it. Of an error
/// of the system it keeps the code, where there is one; the parser itself returns none.
#[verifier::external_body]
fn own_error(e: OuterError) -> ReadError {
    match e {
        OuterError::Arithmetic(e) => ReadError::Arithmetic(own_arithmetic(e)),
        OuterError::UnexpectedChar(c) => ReadError::UnexpectedChar(c),
        OuterError::IO(e) => ReadError::IO(e.raw_os_error()),
        OuterError::Utf8Conversion(e) => ReadError::Utf8Conversion(e.valid_up_to(), e.error_len()),
        _ => ReadError::Coded(e.as_str().to_owned()),
    }
}

/// What `prolog_parser::parser::Parser::read_term` makes of the text that a parser begins with,
/// under these operators and with this reading of text in double quotes: a term or an error.
pub uninterp spec fn parsed(text: Seq<u8>, ops: Seq<OpEntryV>, quotes: DoubleQuotes) -> Result<
    TermV,
    ReadErrorV,
>;

/// `prolog_parser::parser::Parser::read_term` on a parser that begins with `text`, which
/// `prolog_parser::parser::Parser::new` makes. What it returns is a function of the text, of the
/// operators and of the reading of double quotes. The code of an error that carries nothing is one
/// of those that `prolog_parser::ast::ParserError::as_str` lists. A character that is none of
/// Prolog's keeps it where it is for ever if a token would begin there, and nowhere else.
#[verifier::external_body]
fn read_term(text: &[u8], ops: &Vec<OpEntry>, quotes: DoubleQuotes) -> (r: Result<
    Term,
    ReadError,
>)
    requires
        stops(text@, 0),
        forall|i: int| 0 <= i < ops@.len() ==> is_operator(#[trigger] ops_view(ops@)[i]),
    ensures
        reading(r) == parsed(text@, ops_view(ops@), quotes),
        r matches Err(ReadError::Coded(code)) ==> error_coded(code@) is Some,
{
    let table = TabledData::new(Rc::new(String::new()));
    let mut op_dir = OpDir::new();
    for op in ops.iter() {
        let name = ClauseName::User(TabledRc::new(op.name.clone(), table.clone()));
        let entry = (op.specifier, op.precedence, ClauseName::BuiltIn(""));
        op_dir.insert((name, parser_fixity(op.fixity)), entry);
    }
    let double_quotes = match quotes {
        DoubleQuotes::Atom => ParserQuotes::Atom,
        DoubleQuotes::Chars => ParserQuotes::Chars,
    };
    let op_dir = CompositeOp { op_dir: &op_dir, static_op_dir: None };
    let r = Parser::new(text, table, ParserFlags { double_quotes }).read_term(op_dir);
    r.map(own_term).map_err(own_error)
}

/// The first term of a text, under the operators of a module.
pub fn parse_term(indices: &IndexStore, flags: MachineFlags, text: &[u8]) -> (r: Result<
    Term,
    ParserError,
>)
    requires
        stops(text@, 0),
        forall|i: int|
            0 <= i < indices.op_dir@.len() ==> is_operator(
                #[trigger] ops_view(indices.op_dir@)[i],
            ),
    ensures
        outcome(r) == decoded(
            parsed(text@, ops_view(indices.op_dir@), flags.double_quotes),
        ),
{
    decode(read_term(text, &indices.op_dir, flags.double_quotes))
}

} // verus!
