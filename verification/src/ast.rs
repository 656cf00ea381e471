//! Terms as the parser hands them over, and their mathematical views.
use vstd::prelude::*;

use crate::reader::{defrock_brackets, defrocked};

verus! {

/// Where an operator stands relative to its operands.
#[derive(Clone, Copy, Debug, PartialEq, Eq, Structural)]
pub enum Fixity {
    In,
    Post,
    Pre,
}

/// The kind of an operator, as one bit.
pub type Specifier = u32;

pub const XFX: u32 = 0x0001;

pub const XFY: u32 = 0x0002;

pub const YFX: u32 = 0x0004;

pub const XF: u32 = 0x0010;

pub const YF: u32 = 0x0020;

pub const FX: u32 = 0x0040;

pub const FY: u32 = 0x0080;

/// What can go wrong with an arithmetic expression.
#[derive(Clone, Copy, Debug, PartialEq, Eq, Structural)]
pub enum ArithmeticError {
    InvalidAtom,
    InvalidOp,
    InvalidTerm,
    NoRoots,
    UninstantiatedVar,
}

/// What can go wrong between the text of a term and the clause it stands for.
#[derive(Clone, Copy, Debug, PartialEq, Eq, Structural)]
pub enum ParserError {
    Arithmetic(ArithmeticError),
    BackQuotedString,
    CannotParseCyclicTerm,
    UnexpectedChar(char),
    UnexpectedEOF,
    /// An error of the system, by its code where it has one.
    IO(Option<i32>),
    ExpectedRel,
    ExpectedTopLevelTerm,
    InadmissibleFact,
    InadmissibleQueryTerm,
    IncompleteReduction,
    InconsistentEntry,
    InvalidHook,
    InvalidModuleDecl,
    InvalidModuleExport,
    InvalidRuleHead,
    InvalidUseModuleDecl,
    InvalidModuleResolution,
    MissingQuote,
    NonPrologChar,
    ParseBigInt,
    ParseFloat,
    /// Bytes that are no UTF-8: how many in front of them are, and how many they are, unless the
    /// text breaks off there.
    Utf8Conversion(usize, Option<usize>),
}

/// An integer of any size, in two's complement: its bytes, the lowest first.
#[derive(Debug)]
pub struct Integer {
    pub bytes: Vec<u8>,
}

/// A number. A float is held as its bits.
#[derive(Debug)]
pub enum Number {
    Float(u64),
    Integer(Integer),
    Rational(Integer, Integer),
}

/// An atomic term. An atom that is an operator carries its fixity.
#[derive(Debug)]
pub enum Constant {
    Atom(String, Option<Fixity>),
    Char(char),
    Number(Number),
    String(String),
    Usize(usize),
    EmptyList,
}

/// A Prolog term. A clause that was written with an operator carries its fixity.
#[derive(Debug)]
pub enum Term {
    AnonVar,
    Clause(String, Vec<Term>, Option<Fixity>),
    Cons(Box<Term>, Box<Term>),
    Constant(Constant),
    Var(String),
}

/// The view of a `Number`.
pub enum NumberV {
    Float(u64),
    Integer(int),
    Rational(int, int),
}

/// The view of a `Constant`.
pub enum ConstantV {
    Atom(Seq<char>, Option<Fixity>),
    Char(char),
    Number(NumberV),
    String(Seq<char>),
    Usize(usize),
    EmptyList,
}

/// The view of a `Term`.
pub enum TermV {
    AnonVar,
    Clause(Seq<char>, Seq<TermV>, Option<Fixity>),
    Cons(Box<TermV>, Box<TermV>),
    Constant(ConstantV),
    Var(Seq<char>),
}

/// The number that `bytes` write in two's complement, the lowest byte first.
pub open spec fn signed_value(bytes: Seq<u8>) -> int
    decreases bytes.len(),
{
    if bytes.len() == 0 {
        0
    } else if bytes.len() == 1 {
        if bytes[0] < 128 {
            bytes[0] as int
        } else {
            bytes[0] - 256
        }
    } else {
        bytes[0] + 256 * signed_value(bytes.drop_first())
    }
}

impl View for Integer {
    type V = int;

    open spec fn view(&self) -> int {
        signed_value(self.bytes@)
    }
}

impl View for Number {
    type V = NumberV;

    open spec fn view(&self) -> NumberV {
        match *self {
            Number::Float(bits) => NumberV::Float(bits),
            Number::Integer(n) => NumberV::Integer(n@),
            Number::Rational(n, d) => NumberV::Rational(n@, d@),
        }
    }
}

impl View for Constant {
    type V = ConstantV;

    open spec fn view(&self) -> ConstantV {
        match *self {
            Constant::Atom(name, fixity) => ConstantV::Atom(name@, fixity),
            Constant::Char(c) => ConstantV::Char(c),
            Constant::Number(n) => ConstantV::Number(n@),
            Constant::String(s) => ConstantV::String(s@),
            Constant::Usize(n) => ConstantV::Usize(n),
            Constant::EmptyList => ConstantV::EmptyList,
        }
    }
}

/// The view of a term, by its parts.
pub open spec fn term_view(term: Term) -> TermV
    decreases term,
{
    match term {
        Term::AnonVar => TermV::AnonVar,
        Term::Clause(name, args, fixity) => TermV::Clause(name@, terms_view(args@), fixity),
        Term::Cons(head, tail) => TermV::Cons(
            Box::new(term_view(*head)),
            Box::new(term_view(*tail)),
        ),
        Term::Constant(c) => TermV::Constant(c@),
        Term::Var(name) => TermV::Var(name@),
    }
}

/// The views of the terms of a sequence, one for one.
pub open spec fn terms_view(terms: Seq<Term>) -> Seq<TermV>
    decreases terms,
{
    Seq::new(
        terms.len(),
        |i: int|
            if 0 <= i < terms.len() {
                term_view(terms[i])
            } else {
                TermV::AnonVar
            },
    )
}

impl View for Term {
    type V = TermV;

    open spec fn view(&self) -> TermV {
        term_view(*self)
    }
}

/// `terms_view` keeps the length and maps each term to its view.
pub broadcast proof fn lemma_terms_view(terms: Seq<Term>)
    ensures
        (#[trigger] terms_view(terms)).len() == terms.len(),
        forall|i: int| 0 <= i < terms.len() ==> terms_view(terms)[i] == term_view(terms[i]),
{
}

/// `term_view`, unfolded once.
pub broadcast proof fn lemma_term_view(term: Term)
    ensures
        #[trigger] term_view(term) == (match term {
            Term::AnonVar => TermV::AnonVar,
            Term::Clause(name, args, fixity) => TermV::Clause(name@, terms_view(args@), fixity),
            Term::Cons(head, tail) => TermV::Cons(
                Box::new(term_view(*head)),
                Box::new(term_view(*tail)),
            ),
            Term::Constant(c) => TermV::Constant(c@),
            Term::Var(name) => TermV::Var(name@),
        }),
{
}

impl Clone for Integer {
    fn clone(&self) -> (r: Self)
        ensures
            r@ == self@,
    {
        Integer { bytes: self.bytes.clone() }
    }
}

impl Clone for Number {
    fn clone(&self) -> (r: Self)
        ensures
            r@ == self@,
    {
        match self {
            Number::Float(bits) => Number::Float(*bits),
            Number::Integer(n) => Number::Integer(n.clone()),
            Number::Rational(n, d) => Number::Rational(n.clone(), d.clone()),
        }
    }
}

impl Clone for Constant {
    fn clone(&self) -> (r: Self)
        ensures
            r@ == self@,
    {
        match self {
            Constant::Atom(name, fixity) => Constant::Atom(name.clone(), *fixity),
            Constant::Char(c) => Constant::Char(*c),
            Constant::Number(n) => Constant::Number(n.clone()),
            Constant::String(s) => Constant::String(s.clone()),
            Constant::Usize(n) => Constant::Usize(*n),
            Constant::EmptyList => Constant::EmptyList,
        }
    }
}

impl Clone for Term {
    fn clone(&self) -> (r: Self)
        ensures
            r@ == self@,
        decreases self,
    {
        match self {
            Term::AnonVar => Term::AnonVar,
            Term::Clause(name, args, fixity) => {
                let mut copies: Vec<Term> = Vec::new();
                for i in 0..args.len()
                    invariant
                        copies@.len() == i <= args@.len(),
                        forall|j: int| 0 <= j < i ==> copies@[j]@ == args@[j]@,
                        decreases_to!(self => args@),
                {
                    copies.push(args[i].clone());
                }
                proof {
                    lemma_terms_view(copies@);
                    lemma_terms_view(args@);
                }
                assert(terms_view(copies@) =~= terms_view(args@));
                Term::Clause(name.clone(), copies, *fixity)
            },
            Term::Cons(head, tail) => Term::Cons(
                Box::new((&**head).clone()),
                Box::new((&**tail).clone()),
            ),
            Term::Constant(c) => Term::Constant(c.clone()),
            Term::Var(name) => Term::Var(name.clone()),
        }
    }
}

/// The view of a result: that of the value, or the error itself.
pub open spec fn outcome<T: View>(r: Result<T, ParserError>) -> Result<T::V, ParserError> {
    match r {
        Ok(value) => Ok(value@),
        Err(e) => Err(e),
    }
}

/// Whether a name reads as `text`.
pub fn name_is(name: &String, text: &str) -> (r: bool)
    ensures
        r == (name@ == text@),
{
    *name == text.to_owned()
}

impl TermV {
    /// A compound term of this name with so many arguments.
    pub open spec fn is_compound(self, name: Seq<char>, arity: nat) -> bool {
        self matches TermV::Clause(n, args, _) && n == name && args.len() == arity
    }

    /// The arguments of a compound term, none for any other.
    pub open spec fn args(self) -> Seq<TermV> {
        match self {
            TermV::Clause(_, args, _) => args,
            _ => Seq::empty(),
        }
    }

    /// The name of a clause head: that of a compound term or of an atom.
    pub open spec fn name(self) -> Option<Seq<char>> {
        match self {
            TermV::Clause(name, _, _) => Some(name),
            TermV::Constant(ConstantV::Atom(name, _)) => Some(name),
            _ => None,
        }
    }

    /// An atom in an argument place, without the brackets around it.
    pub open spec fn to_atom(self) -> Option<Seq<char>> {
        match self {
            TermV::Constant(ConstantV::Atom(name, _)) => Some(defrocked(name)),
            _ => None,
        }
    }
}

impl Constant {
    /// The name of an atom, without the brackets around it.
    pub fn to_atom(self) -> (r: Option<String>)
        ensures
            match r {
                Some(name) => self@ matches ConstantV::Atom(n, _) && name@ == defrocked(n),
                None => !(self@ is Atom),
            },
    {
        match self {
            Constant::Atom(name, _) => Some(defrock_brackets(name)),
            _ => None,
        }
    }

    /// The value of an integer.
    pub fn to_integer(self) -> (r: Option<Integer>)
        ensures
            match r {
                Some(n) => self@ == ConstantV::Number(NumberV::Integer(n@)),
                None => !(self@ matches ConstantV::Number(NumberV::Integer(_))),
            },
    {
        match self {
            Constant::Number(Number::Integer(n)) => Some(n),
            _ => None,
        }
    }
}

impl Term {
    /// The constant that a term is, if it is one.
    pub fn to_constant(self) -> (r: Option<Constant>)
        ensures
            match r {
                Some(c) => self@ == TermV::Constant(c@),
                None => !(self@ is Constant),
            },
    {
        broadcast use lemma_term_view;

        match self {
            Term::Constant(c) => Some(c),
            _ => None,
        }
    }

    /// The name of a clause head.
    pub fn name(&self) -> (r: Option<&String>)
        ensures
            match r {
                Some(name) => self@.name() == Some(name@),
                None => self@.name() is None,
            },
    {
        broadcast use lemma_term_view;

        match self {
            Term::Clause(name, _, _) => Some(name),
            Term::Constant(Constant::Atom(name, _)) => Some(name),
            _ => None,
        }
    }

    /// The number of arguments.
    pub fn arity(&self) -> (r: usize)
        ensures
            r == self@.args().len(),
    {
        broadcast use {lemma_terms_view, lemma_term_view};

        match self {
            Term::Clause(_, args, _) => args.len(),
            _ => 0,
        }
    }
}

} // verus!
