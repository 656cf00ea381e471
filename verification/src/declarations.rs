//! Directives: operators, modules and their exports.
use vstd::prelude::*;

use crate::ast::{
    lemma_term_view, lemma_terms_view, name_is, outcome, terms_view, Constant, ConstantV, Fixity,
    Number, NumberV, ParserError, Specifier, Term, TermV, FX, FY, XF, XFX, XFY, YF, YFX,
};
use crate::code::PredicateKey;
use crate::program::{keys_view, Declaration, DeclarationV, ModuleDecl, OpDecl, OpDeclV};
use crate::reader::{integer_is_negative, integer_to_usize};

verus! {

broadcast use {lemma_terms_view, lemma_term_view};

/// The kind that an operator specifier names.
pub open spec fn specifier(name: Seq<char>) -> Option<Specifier> {
    if name == "xfx"@ {
        Some(XFX)
    } else if name == "xfy"@ {
        Some(XFY)
    } else if name == "yfx"@ {
        Some(YFX)
    } else if name == "fx"@ {
        Some(FX)
    } else if name == "fy"@ {
        Some(FY)
    } else if name == "xf"@ {
        Some(XF)
    } else if name == "yf"@ {
        Some(YF)
    } else {
        None
    }
}

/// What `op(Precedence, Kind, Name)` declares.
pub open spec fn op_decl(args: Seq<TermV>) -> Result<OpDeclV, ParserError> {
    match (args[0], args[1], args[2]) {
        (
            TermV::Constant(ConstantV::Number(NumberV::Integer(precedence))),
            TermV::Constant(ConstantV::Atom(kind, _)),
            TermV::Constant(ConstantV::Atom(name, _)),
        ) => if 0 <= precedence <= 1200 && specifier(kind) is Some {
            Ok(OpDeclV { precedence, specifier: specifier(kind)->0, name })
        } else {
            Err(ParserError::InconsistentEntry)
        },
        _ => Err(ParserError::InconsistentEntry),
    }
}

/// The predicate that `Name/Arity` indicates.
pub open spec fn predicate_export(term: TermV) -> Result<(Seq<char>, nat), ParserError> {
    match term {
        TermV::Clause(slash, args, Some(Fixity::In)) => if slash == "/"@ && args.len() == 2 {
            match (args[0].to_atom(), args[1]) {
                (
                    Some(name),
                    TermV::Constant(ConstantV::Number(NumberV::Integer(arity))),
                ) => if 0 <= arity <= usize::MAX {
                    Ok((name, arity as nat))
                } else {
                    Err(ParserError::InvalidModuleExport)
                },
                _ => Err(ParserError::InvalidModuleExport),
            }
        } else {
            Err(ParserError::InvalidModuleExport)
        },
        _ => Err(ParserError::InvalidModuleExport),
    }
}

/// The predicates that a list of indicators indicates, in order. The first element that is no
/// indicator decides; a list that does not end in `[]` is none.
pub open spec fn export_list(list: TermV) -> Result<Seq<(Seq<char>, nat)>, ParserError>
    decreases list,
{
    match list {
        TermV::Cons(head, tail) => match predicate_export(*head) {
            Ok(key) => match export_list(*tail) {
                Ok(keys) => Ok(seq![key] + keys),
                Err(e) => Err(e),
            },
            Err(e) => Err(e),
        },
        TermV::Constant(ConstantV::EmptyList) => Ok(Seq::empty()),
        _ => Err(ParserError::InvalidModuleDecl),
    }
}

/// What `module(Name, Exports)` declares.
pub open spec fn module_decl(args: Seq<TermV>) -> Result<
    (Seq<char>, Seq<(Seq<char>, nat)>),
    ParserError,
> {
    match args[0].to_atom() {
        Some(name) => match export_list(args[1]) {
            Ok(exports) => Ok((name, exports)),
            Err(e) => Err(e),
        },
        None => Err(ParserError::InvalidModuleDecl),
    }
}

/// The module that `library(Name)` names.
pub open spec fn library_name(term: TermV) -> Result<Seq<char>, ParserError> {
    match term {
        TermV::Clause(library, args, None) => if library == "library"@ && args.len() == 1
            && args[0].to_atom() is Some {
            Ok(args[0].to_atom()->0)
        } else {
            Err(ParserError::InvalidUseModuleDecl)
        },
        _ => Err(ParserError::InvalidUseModuleDecl),
    }
}

/// What `use_module(library(Name), Imports)` imports.
pub open spec fn qualified_import(args: Seq<TermV>) -> Result<
    (Seq<char>, Seq<(Seq<char>, nat)>),
    ParserError,
> {
    match library_name(args[0]) {
        Ok(name) => match export_list(args[1]) {
            Ok(exports) => Ok((name, exports)),
            Err(e) => Err(e),
        },
        Err(e) => Err(e),
    }
}

/// The declaration that a directive makes.
pub open spec fn declaration(term: TermV) -> Result<DeclarationV, ParserError> {
    if term.is_compound("op"@, 3) {
        match op_decl(term.args()) {
            Ok(decl) => Ok(DeclarationV::Op(decl)),
            Err(e) => Err(e),
        }
    } else if term.is_compound("module"@, 2) {
        match module_decl(term.args()) {
            Ok((name, exports)) => Ok(DeclarationV::Module(name, exports)),
            Err(e) => Err(e),
        }
    } else if term.is_compound("use_module"@, 1) {
        match library_name(term.args()[0]) {
            Ok(name) => Ok(DeclarationV::UseModule(name)),
            Err(e) => Err(e),
        }
    } else if term.is_compound("use_module"@, 2) {
        match qualified_import(term.args()) {
            Ok((name, exports)) => Ok(DeclarationV::UseQualifiedModule(name, exports)),
            Err(e) => Err(e),
        }
    } else if term.is_compound("non_counted_backtracking"@, 1) {
        match predicate_export(term.args()[0]) {
            Ok((name, arity)) => Ok(DeclarationV::NonCountedBacktracking(name, arity)),
            Err(e) => Err(e),
        }
    } else {
        Err(ParserError::InconsistentEntry)
    }
}

/// Reads an operator specifier.
pub fn read_specifier(name: &String) -> (r: Option<Specifier>)
    ensures
        r == specifier(name@),
{
    if name_is(name, "xfx") {
        Some(XFX)
    } else if name_is(name, "xfy") {
        Some(XFY)
    } else if name_is(name, "yfx") {
        Some(YFX)
    } else if name_is(name, "fx") {
        Some(FX)
    } else if name_is(name, "fy") {
        Some(FY)
    } else if name_is(name, "xf") {
        Some(XF)
    } else if name_is(name, "yf") {
        Some(YF)
    } else {
        None
    }
}

/// The last `count` terms.
pub open spec fn last_terms(terms: Seq<TermV>, count: int) -> Seq<TermV> {
    terms.skip(terms.len() - count)
}

/// Reads the arguments of `op/3`, which are the last three terms.
pub fn setup_op_decl(terms: Vec<Term>) -> (r: Result<OpDecl, ParserError>)
    requires
        terms@.len() >= 3,
    ensures
        outcome(r) == op_decl(last_terms(terms_view(terms@), 3)),
{
    let mut terms = terms;
    let name = match terms.pop().unwrap() {
        Term::Constant(Constant::Atom(name, _)) => name,
        _ => return Err(ParserError::InconsistentEntry),
    };

    let spec = match terms.pop().unwrap() {
        Term::Constant(Constant::Atom(name, _)) => name,
        _ => return Err(ParserError::InconsistentEntry),
    };

    let prec: usize = match terms.pop().unwrap() {
        Term::Constant(Constant::Number(Number::Integer(n))) => match integer_to_usize(&n) {
            Some(n) => {
                if n <= 1200 {
                    n
                } else {
                    return Err(ParserError::InconsistentEntry);
                }
            },
            None => return Err(ParserError::InconsistentEntry),
        },
        _ => return Err(ParserError::InconsistentEntry),
    };

    match read_specifier(&spec) {
        Some(specifier) => Ok(OpDecl(prec, specifier, name)),
        None => Err(ParserError::InconsistentEntry),
    }
}

/// Reads a predicate indicator.
pub fn setup_predicate_export(term: Term) -> (r: Result<PredicateKey, ParserError>)
    ensures
        match (r, predicate_export(term@)) {
            (Ok(key), Ok(shown)) => shown == (key.0@, key.1 as nat),
            (Err(e), Err(shown)) => shown == e,
            _ => false,
        },
{
    match term {
        Term::Clause(name, terms, Some(Fixity::In)) => {
            if name_is(&name, "/") && terms.len() == 2 {
                let mut terms = terms;
                let arity = terms.pop().unwrap();
                let name = terms.pop().unwrap();

                let arity: usize = match arity.to_constant() {
                    Some(c) => match c.to_integer() {
                        Some(n) => {
                            if integer_is_negative(&n) {
                                return Err(ParserError::InvalidModuleExport);
                            }
                            match integer_to_usize(&n) {
                                Some(n) => n,
                                None => return Err(ParserError::InvalidModuleExport),
                            }
                        },
                        None => return Err(ParserError::InvalidModuleExport),
                    },
                    None => return Err(ParserError::InvalidModuleExport),
                };

                match name.to_constant() {
                    Some(c) => match c.to_atom() {
                        Some(name) => Ok((name, arity)),
                        None => Err(ParserError::InvalidModuleExport),
                    },
                    None => Err(ParserError::InvalidModuleExport),
                }
            } else {
                Err(ParserError::InvalidModuleExport)
            }
        },
        _ => Err(ParserError::InvalidModuleExport),
    }
}

/// `keys` in front of the predicates of a list.
pub open spec fn after_keys(
    keys: Seq<(Seq<char>, nat)>,
    rest: Result<Seq<(Seq<char>, nat)>, ParserError>,
) -> Result<Seq<(Seq<char>, nat)>, ParserError> {
    match rest {
        Ok(others) => Ok(keys + others),
        Err(e) => Err(e),
    }
}

/// Reads a list of predicate indicators.
pub fn setup_export_list(list: Term) -> (r: Result<Vec<PredicateKey>, ParserError>)
    ensures
        match (r, export_list(list@)) {
            (Ok(keys), Ok(shown)) => shown == keys_view(keys@),
            (Err(e), Err(shown)) => shown == e,
            _ => false,
        },
{
    let mut left = list;
    let mut exports: Vec<PredicateKey> = Vec::new();
    let ghost whole = export_list(list@);
    assert(after_keys(keys_view(exports@), export_list(left@)) == whole) by {
        if let Ok(keys) = whole {
            assert(keys_view(exports@) + keys =~= keys);
        }
    }

    loop
        invariant
            whole == export_list(list@),
            after_keys(keys_view(exports@), export_list(left@)) == whole,
        decreases left,
    {
        match left {
            Term::Cons(head, tail) => {
                let ghost before = keys_view(exports@);
                let ghost rest = export_list(tail@);
                match setup_predicate_export(*head) {
                    Ok(key) => {
                        exports.push(key);
                        proof {
                            let shown = (key.0@, key.1 as nat);
                            assert(keys_view(exports@) =~= before.push(shown));
                            if let Ok(others) = rest {
                                assert(before + (seq![shown] + others) =~= before.push(shown)
                                    + others);
                            }
                        }
                    },
                    Err(e) => return Err(e),
                }
                left = *tail;
            },
            Term::Constant(Constant::EmptyList) => {
                assert(keys_view(exports@) + Seq::<(Seq<char>, nat)>::empty() =~= keys_view(
                    exports@,
                ));
                return Ok(exports);
            },
            _ => return Err(ParserError::InvalidModuleDecl),
        }
    }
}

/// The view of a module's name and its exports.
pub open spec fn module_view(name: String, exports: Seq<PredicateKey>) -> (
    Seq<char>,
    Seq<(Seq<char>, nat)>,
) {
    (name@, keys_view(exports))
}

/// Reads the arguments of `module/2`, which are the last two terms.
pub fn setup_module_decl(terms: Vec<Term>) -> (r: Result<ModuleDecl, ParserError>)
    requires
        terms@.len() >= 2,
    ensures
        match (r, module_decl(last_terms(terms_view(terms@), 2))) {
            (Ok(decl), Ok(shown)) => shown == module_view(decl.name, decl.exports@),
            (Err(e), Err(shown)) => shown == e,
            _ => false,
        },
{
    let mut terms = terms;
    let export_list = terms.pop().unwrap();
    let name = match terms.pop().unwrap().to_constant() {
        Some(c) => match c.to_atom() {
            Some(name) => name,
            None => return Err(ParserError::InvalidModuleDecl),
        },
        None => return Err(ParserError::InvalidModuleDecl),
    };

    match setup_export_list(export_list) {
        Ok(exports) => Ok(ModuleDecl { name, exports }),
        Err(e) => Err(e),
    }
}

/// Reads `library(Name)`.
fn setup_library_name(term: Term) -> (r: Result<String, ParserError>)
    ensures
        outcome(r) == library_name(term@),
{
    match term {
        Term::Clause(name, terms, None) => {
            if name_is(&name, "library") && terms.len() == 1 {
                let mut terms = terms;
                match terms.pop().unwrap().to_constant() {
                    Some(c) => match c.to_atom() {
                        Some(name) => Ok(name),
                        None => Err(ParserError::InvalidUseModuleDecl),
                    },
                    None => Err(ParserError::InvalidUseModuleDecl),
                }
            } else {
                Err(ParserError::InvalidUseModuleDecl)
            }
        },
        _ => Err(ParserError::InvalidUseModuleDecl),
    }
}

/// Reads the argument of `use_module/1`, which is the last term.
pub fn setup_use_module_decl(terms: Vec<Term>) -> (r: Result<String, ParserError>)
    requires
        terms@.len() >= 1,
    ensures
        outcome(r) == library_name(terms_view(terms@).last()),
{
    let mut terms = terms;
    setup_library_name(terms.pop().unwrap())
}

/// A module, and the predicates of it that are imported.
pub type UseModuleExport = (String, Vec<PredicateKey>);

/// Reads the arguments of `use_module/2`, which are the last two terms.
pub fn setup_qualified_import(terms: Vec<Term>) -> (r: Result<UseModuleExport, ParserError>)
    requires
        terms@.len() >= 2,
    ensures
        match (r, qualified_import(last_terms(terms_view(terms@), 2))) {
            (Ok(import), Ok(shown)) => shown == module_view(import.0, import.1@),
            (Err(e), Err(shown)) => shown == e,
            _ => false,
        },
{
    let mut terms = terms;
    let export_list = terms.pop().unwrap();
    let name = match setup_library_name(terms.pop().unwrap()) {
        Ok(name) => name,
        Err(e) => return Err(e),
    };

    match setup_export_list(export_list) {
        Ok(exports) => Ok((name, exports)),
        Err(e) => Err(e),
    }
}

/// Reads a directive.
pub fn setup_declaration(term: Term) -> (r: Result<Declaration, ParserError>)
    ensures
        outcome(r) == declaration(term@),
{
    match term {
        Term::Clause(name, terms, _) => {
            assert(terms_view(terms@).skip(0) =~= terms_view(terms@));
            if name_is(&name, "op") && terms.len() == 3 {
                match setup_op_decl(terms) {
                    Ok(decl) => Ok(Declaration::Op(decl)),
                    Err(e) => Err(e),
                }
            } else if name_is(&name, "module") && terms.len() == 2 {
                match setup_module_decl(terms) {
                    Ok(decl) => Ok(Declaration::Module(decl)),
                    Err(e) => Err(e),
                }
            } else if name_is(&name, "use_module") && terms.len() == 1 {
                match setup_use_module_decl(terms) {
                    Ok(name) => Ok(Declaration::UseModule(name)),
                    Err(e) => Err(e),
                }
            } else if name_is(&name, "use_module") && terms.len() == 2 {
                match setup_qualified_import(terms) {
                    Ok((name, exports)) => Ok(Declaration::UseQualifiedModule(name, exports)),
                    Err(e) => Err(e),
                }
            } else if name_is(&name, "non_counted_backtracking") && terms.len() == 1 {
                let mut terms = terms;
                match setup_predicate_export(terms.pop().unwrap()) {
                    Ok((name, arity)) => Ok(Declaration::NonCountedBacktracking(name, arity)),
                    Err(e) => Err(e),
                }
            } else {
                Err(ParserError::InconsistentEntry)
            }
        },
        _ => Err(ParserError::InconsistentEntry),
    }
}

} // verus!
