//! What holds of directives: what each declares, and that nothing else does.
use vstd::prelude::*;

use crate::ast::{
    ConstantV, Fixity, NumberV, ParserError, Specifier, TermV, FX, FY, XF, XFX, XFY, YF, YFX,
};
use crate::declarations::{
    declaration, export_list, last_terms, library_name, module_decl, op_decl, predicate_export,
    qualified_import, specifier,
};
use crate::program::{DeclarationV, OpDeclV};
use crate::reader::{defrocked, is_operator, OpEntryV};

verus! {

/// An integer as a term.
pub open spec fn integer(n: int) -> TermV {
    TermV::Constant(ConstantV::Number(NumberV::Integer(n)))
}

/// An atom as a term.
pub open spec fn atom(name: Seq<char>, fixity: Option<Fixity>) -> TermV {
    TermV::Constant(ConstantV::Atom(name, fixity))
}

/// The kinds of operators differ, each is one bit, and each has its name.
pub proof fn law_kinds()
    ensures
        specifier("xfx"@) == Some(XFX),
        specifier("xfy"@) == Some(XFY),
        specifier("yfx"@) == Some(YFX),
        specifier("fx"@) == Some(FX),
        specifier("fy"@) == Some(FY),
        specifier("xf"@) == Some(XF),
        specifier("yf"@) == Some(YF),
        forall|name: Seq<char>| #[trigger]
            specifier(name) is Some ==> name == "xfx"@ || name == "xfy"@ || name == "yfx"@ || name
                == "fx"@ || name == "fy"@ || name == "xf"@ || name == "yf"@,
        XFX == 0x01 && XFY == 0x02 && YFX == 0x04 && XF == 0x10 && YF == 0x20 && FX == 0x40 && FY
            == 0x80,
{
    reveal_strlit("xfx");
    reveal_strlit("xfy");
    reveal_strlit("yfx");
    reveal_strlit("fx");
    reveal_strlit("fy");
    reveal_strlit("xf");
    reveal_strlit("yf");
    assert("xfx"@.len() == 3 && "xfy"@.len() == 3 && "yfx"@.len() == 3);
    assert("fx"@.len() == 2 && "fy"@.len() == 2 && "xf"@.len() == 2 && "yf"@.len() == 2);
    assert("xfx"@[0] == 'x' && "xfx"@[2] == 'x' && "xfy"@[0] == 'x' && "xfy"@[2] == 'y' && "yfx"@[0]
        == 'y');
    assert("fx"@[0] == 'f' && "fx"@[1] == 'x' && "fy"@[0] == 'f' && "fy"@[1] == 'y');
    assert("xf"@[0] == 'x' && "xf"@[1] == 'f' && "yf"@[0] == 'y');
}

/// The parser works with operators of the seven kinds up to the precedence 1200.
pub proof fn law_operators(op: OpEntryV)
    ensures
        is_operator(op) <==> op.precedence <= 1200 && (op.specifier == 0x01 || op.specifier == 0x02
            || op.specifier == 0x04 || op.specifier == 0x10 || op.specifier == 0x20 || op.specifier
            == 0x40 || op.specifier == 0x80),
{
}

/// `op(Precedence, Kind, Name)` declares just that precedence, that name and the kind that is
/// named, one of the seven; the precedence is from 0 to 1200. Nothing else declares an operator.
pub proof fn law_op(
    precedence: int,
    kind: Seq<char>,
    name: Seq<char>,
    kind_fixity: Option<Fixity>,
    name_fixity: Option<Fixity>,
    fixity: Option<Fixity>,
)
    ensures
        ({
            let args = seq![integer(precedence), atom(kind, kind_fixity), atom(name, name_fixity)];
            let declared = declaration(TermV::Clause("op"@, args, fixity));
            let of_kind = |k: Specifier|
                declared == Ok::<DeclarationV, ParserError>(
                    DeclarationV::Op(OpDeclV { precedence, specifier: k, name }),
                );
            if 0 <= precedence <= 1200 {
                &&& kind == "xfx"@ ==> of_kind(XFX)
                &&& kind == "xfy"@ ==> of_kind(XFY)
                &&& kind == "yfx"@ ==> of_kind(YFX)
                &&& kind == "fx"@ ==> of_kind(FX)
                &&& kind == "fy"@ ==> of_kind(FY)
                &&& kind == "xf"@ ==> of_kind(XF)
                &&& kind == "yf"@ ==> of_kind(YF)
                &&& specifier(kind) is None ==> declared == Err::<DeclarationV, ParserError>(
                    ParserError::InconsistentEntry,
                )
            } else {
                declared == Err::<DeclarationV, ParserError>(ParserError::InconsistentEntry)
            }
        }),
{
    law_kinds();
    let args = seq![integer(precedence), atom(kind, kind_fixity), atom(name, name_fixity)];
    assert(args[0] == integer(precedence) && args[1] == atom(kind, kind_fixity) && args[2] == atom(
        name,
        name_fixity,
    ));
    assert(TermV::Clause("op"@, args, fixity).is_compound("op"@, 3));
}

/// An operator is declared only with an integer, an atom and an atom.
pub proof fn law_op_shape(args: Seq<TermV>, fixity: Option<Fixity>)
    requires
        args.len() == 3,
    ensures
        declaration(TermV::Clause("op"@, args, fixity)) is Ok ==> {
            &&& args[0] matches TermV::Constant(ConstantV::Number(NumberV::Integer(_)))
            &&& args[1] matches TermV::Constant(ConstantV::Atom(_, _))
            &&& args[2] matches TermV::Constant(ConstantV::Atom(_, _))
        },
        declaration(TermV::Clause("op"@, args, fixity)) matches Err(e) ==> e
            == ParserError::InconsistentEntry,
{
}

/// `Name/Arity` indicates the predicate of that name, without the brackets around it, and of that
/// arity, which is not negative and fits. It is written with the operator `/`, and nothing else
/// indicates a predicate.
pub proof fn law_indicator(
    name: Seq<char>,
    fixity: Option<Fixity>,
    arity: int,
    term: TermV,
)
    ensures
        predicate_export(
            TermV::Clause("/"@, seq![atom(name, fixity), integer(arity)], Some(Fixity::In)),
        ) == if 0 <= arity <= usize::MAX {
            Ok::<(Seq<char>, nat), ParserError>((defrocked(name), arity as nat))
        } else {
            Err(ParserError::InvalidModuleExport)
        },
        predicate_export(term) is Ok ==> (term matches TermV::Clause(slash, args, Some(Fixity::In))
            && slash == "/"@ && args.len() == 2 && (args[0] matches TermV::Constant(
            ConstantV::Atom(_, _),
        )) && (args[1] matches TermV::Constant(ConstantV::Number(NumberV::Integer(_))))),
        predicate_export(term) matches Err(e) ==> e == ParserError::InvalidModuleExport,
{
    let args = seq![atom(name, fixity), integer(arity)];
    assert(args[0] == atom(name, fixity) && args[1] == integer(arity));
}

/// A list of terms.
pub open spec fn list(items: Seq<TermV>) -> TermV
    decreases items.len(),
{
    if items.len() == 0 {
        TermV::Constant(ConstantV::EmptyList)
    } else {
        TermV::Cons(Box::new(items[0]), Box::new(list(items.skip(1))))
    }
}

/// A list of indicators indicates their predicates: as many, in the same places.
pub proof fn law_exports(items: Seq<TermV>)
    ensures
        (forall|i: int| 0 <= i < items.len() ==> predicate_export(#[trigger] items[i]) is Ok)
            ==> export_list(list(items)) is Ok,
        export_list(list(items)) matches Ok(keys) ==> {
            &&& keys.len() == items.len()
            &&& forall|i: int|
                0 <= i < items.len() ==> predicate_export(#[trigger] items[i]) == Ok::<
                    (Seq<char>, nat),
                    ParserError,
                >(keys[i])
        },
        export_list(list(items)) matches Err(e) ==> e == ParserError::InvalidModuleExport,
    decreases items.len(),
{
    if items.len() > 0 {
        let rest = items.skip(1);
        law_exports(rest);
        law_indicator(Seq::empty(), None, 0, items[0]);
        if forall|i: int| 0 <= i < items.len() ==> predicate_export(#[trigger] items[i]) is Ok {
            assert forall|i: int| 0 <= i < rest.len() implies predicate_export(
                #[trigger] rest[i],
            ) is Ok by {
                assert(rest[i] == items[i + 1]);
            }
        }
        if let Ok(keys) = export_list(list(items)) {
            assert forall|i: int| 0 <= i < items.len() implies predicate_export(#[trigger] items[i])
                == Ok::<(Seq<char>, nat), ParserError>(keys[i]) by {
                if i > 0 {
                    assert(rest[i - 1] == items[i]);
                }
            }
        }
    }
}

/// Only a list indicates predicates.
pub proof fn law_exports_are_lists(term: TermV) -> (items: Seq<TermV>)
    requires
        export_list(term) is Ok,
    ensures
        term == list(items),
    decreases term,
{
    match term {
        TermV::Cons(head, tail) => {
            let rest = law_exports_are_lists(*tail);
            let items = seq![*head] + rest;
            assert(items.skip(1) =~= rest);
            items
        },
        _ => Seq::empty(),
    }
}

/// What is wrong with a list of indicators: the first element that indicates nothing, or else how
/// the list ends.
pub proof fn law_exports_refused(head: TermV, tail: TermV, term: TermV)
    ensures
        export_list(TermV::Cons(Box::new(head), Box::new(tail))) matches Err(e) ==> e == match (
            predicate_export(head),
            export_list(tail),
        ) {
            (Err(_), _) => ParserError::InvalidModuleExport,
            (Ok(_), Err(e)) => e,
            _ => e,
        },
        !(term is Cons) && !(term matches TermV::Constant(ConstantV::EmptyList)) ==> export_list(
            term,
        ) == Err::<Seq<(Seq<char>, nat)>, ParserError>(ParserError::InvalidModuleDecl),
{
    law_indicator(Seq::empty(), None, 0, head);
}

/// `module(Name, Exports)` declares the module of that name, without the brackets around it, with
/// these exports. What is wrong with the name comes first.
pub proof fn law_module(name: TermV, exports: TermV, fixity: Option<Fixity>)
    ensures
        declaration(TermV::Clause("module"@, seq![name, exports], fixity)) == match (
            name,
            export_list(exports),
        ) {
            (TermV::Constant(ConstantV::Atom(name, _)), Ok(keys)) => Ok::<
                DeclarationV,
                ParserError,
            >(DeclarationV::Module(defrocked(name), keys)),
            (TermV::Constant(ConstantV::Atom(_, _)), Err(e)) => Err(e),
            _ => Err(ParserError::InvalidModuleDecl),
        },
{
    lemma_directive_names();
    let args = seq![name, exports];
    assert(args[0] == name && args[1] == exports);
    assert(!TermV::Clause("module"@, args, fixity).is_compound("op"@, 3));
}

/// `library(Name)`, not written as an operator, names a module, without the brackets around it; and
/// nothing else does.
pub proof fn law_library(name: Seq<char>, fixity: Option<Fixity>, term: TermV)
    ensures
        library_name(TermV::Clause("library"@, seq![atom(name, fixity)], None)) == Ok::<
            Seq<char>,
            ParserError,
        >(defrocked(name)),
        library_name(term) is Ok ==> (term matches TermV::Clause(library, args, None) && library
            == "library"@ && args.len() == 1 && (args[0] matches TermV::Constant(
            ConstantV::Atom(_, _),
        ))),
        library_name(term) matches Err(e) ==> e == ParserError::InvalidUseModuleDecl,
{
    assert(seq![atom(name, fixity)][0] == atom(name, fixity));
}

/// `use_module(library(Name))` uses the whole module; `use_module(library(Name), Imports)` uses the
/// predicates that it lists. What is wrong with the module comes first.
pub proof fn law_use_module(library: TermV, imports: TermV, fixity: Option<Fixity>)
    ensures
        declaration(TermV::Clause("use_module"@, seq![library], fixity)) == match library_name(
            library,
        ) {
            Ok(name) => Ok::<DeclarationV, ParserError>(DeclarationV::UseModule(name)),
            Err(e) => Err(e),
        },
        declaration(TermV::Clause("use_module"@, seq![library, imports], fixity)) == match (
            library_name(library),
            export_list(imports),
        ) {
            (Err(e), _) => Err::<DeclarationV, ParserError>(e),
            (Ok(_), Err(e)) => Err(e),
            (Ok(name), Ok(keys)) => Ok(DeclarationV::UseQualifiedModule(name, keys)),
        },
{
    lemma_directive_names();
    assert(seq![library][0] == library);
    assert(seq![library, imports][0] == library && seq![library, imports][1] == imports);
}

/// `non_counted_backtracking(Name/Arity)` declares it of the predicate that is indicated.
pub proof fn law_non_counted(term: TermV, fixity: Option<Fixity>)
    ensures
        declaration(TermV::Clause("non_counted_backtracking"@, seq![term], fixity))
            == match predicate_export(term) {
            Ok((name, arity)) => Ok::<DeclarationV, ParserError>(
                DeclarationV::NonCountedBacktracking(name, arity),
            ),
            Err(e) => Err(e),
        },
{
    lemma_directive_names();
    assert(seq![term][0] == term);
}

/// Nothing else is a directive.
pub proof fn law_no_directive(term: TermV)
    requires
        !(term matches TermV::Clause(name, args, _) && {
            ||| name == "op"@ && args.len() == 3
            ||| name == "module"@ && args.len() == 2
            ||| name == "use_module"@ && (args.len() == 1 || args.len() == 2)
            ||| name == "non_counted_backtracking"@ && args.len() == 1
        }),
    ensures
        declaration(term) == Err::<DeclarationV, ParserError>(ParserError::InconsistentEntry),
{
}

/// The last terms are those at the end, in order.
pub proof fn law_last_terms(front: Seq<TermV>, back: Seq<TermV>)
    ensures
        last_terms(front + back, back.len() as int) == back,
{
    assert((front + back).skip(front.len() as int) =~= back);
}

/// The arguments of a directive mean what the directive with these arguments declares.
pub proof fn law_directive_arguments(
    fst: TermV,
    snd: TermV,
    thd: TermV,
    fixity: Option<Fixity>,
)
    ensures
        match (
            op_decl(seq![fst, snd, thd]),
            declaration(TermV::Clause("op"@, seq![fst, snd, thd], fixity)),
        ) {
            (Ok(decl), Ok(DeclarationV::Op(declared))) => decl == declared,
            (Err(e), Err(other)) => e == other,
            _ => false,
        },
        match (
            module_decl(seq![fst, snd]),
            declaration(TermV::Clause("module"@, seq![fst, snd], fixity)),
        ) {
            (Ok((name, keys)), Ok(DeclarationV::Module(declared, exported))) => name == declared
                && keys == exported,
            (Err(e), Err(other)) => e == other,
            _ => false,
        },
        match (
            qualified_import(seq![fst, snd]),
            declaration(TermV::Clause("use_module"@, seq![fst, snd], fixity)),
        ) {
            (Ok((name, keys)), Ok(DeclarationV::UseQualifiedModule(declared, imported))) => name
                == declared && keys == imported,
            (Err(e), Err(other)) => e == other,
            _ => false,
        },
{
    lemma_directive_names();
}

proof fn lemma_directive_names()
    ensures
        "op"@ != "module"@,
        "use_module"@ != "module"@,
        "use_module"@ != "op"@,
        "non_counted_backtracking"@ != "use_module"@,
        "non_counted_backtracking"@ != "module"@,
        "non_counted_backtracking"@ != "op"@,
{
    reveal_strlit("op");
    reveal_strlit("module");
    reveal_strlit("use_module");
    reveal_strlit("non_counted_backtracking");
    assert("op"@.len() == 2 && "module"@.len() == 6 && "use_module"@.len() == 10
        && "non_counted_backtracking"@.len() == 24);
}

} // verus!
