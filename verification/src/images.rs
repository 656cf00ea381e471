//! What a view shows: every part of a value, in its place.
use vstd::prelude::*;

use std::collections::VecDeque;

use crate::ast::{
    lemma_term_view, lemma_terms_view, outcome, signed_value, terms_view, Constant, ConstantV,
    Fixity, Integer, Number, NumberV, ParserError, Term, TermV,
};
use crate::batch::{
    indices_view, item_view, progress_outcome, results_view, Progress, ProgressV, SessionError,
    TopLevelBatchWorker,
};
use crate::clauses::{hook_outcome, queue_outcome, CompileTimeHookCompileInfo};
use crate::code::{
    BuiltInClauseType, ClauseType, ClauseTypeV, CodeCells, CodeIndex, CompositeIndices, IndexStore,
    PredicateKey,
};
use crate::declarations::module_view;
use crate::goals::names_view;
use crate::program::{
    clauses_view, goals_view, keys_view, lemma_hook_view, lemma_top_level_view, top_levels_view,
    CompileTimeHook, Declaration, DeclarationV, ModuleDecl, OpDecl, Predicate, PredicateClause,
    PredicateClauseV, QueryTerm, QueryTermV, Rule, TopLevel, TopLevelPacket, TopLevelPacketV,
    TopLevelV,
};
use crate::reader::{decoded, error_coded, ops_view, reading, OpEntry, ReadError, ReadErrorV};
use crate::relation::goals_outcome;

verus! {

broadcast use {lemma_terms_view, lemma_term_view, lemma_top_level_view};

/// A term shows its name, its arguments in their places, and its fixity.
pub proof fn law_term_image(
    name: String,
    args: Vec<Term>,
    fixity: Option<Fixity>,
    head: Term,
    tail: Term,
    constant: Constant,
)
    ensures
        Term::Clause(name, args, fixity)@ == TermV::Clause(name@, terms_view(args@), fixity),
        Term::Cons(Box::new(head), Box::new(tail))@ == TermV::Cons(
            Box::new(head@),
            Box::new(tail@),
        ),
        Term::Constant(constant)@ == TermV::Constant(constant@),
        Term::Var(name)@ == TermV::Var(name@),
        Term::AnonVar@ == TermV::AnonVar,
{
}

/// A constant shows what it holds.
pub proof fn law_constant_image(
    name: String,
    fixity: Option<Fixity>,
    c: char,
    n: usize,
    bits: u64,
    i: Integer,
    d: Integer,
)
    ensures
        Constant::Atom(name, fixity)@ == ConstantV::Atom(name@, fixity),
        Constant::Char(c)@ == ConstantV::Char(c),
        Constant::Number(Number::Integer(i))@ == ConstantV::Number(NumberV::Integer(i@)),
        Constant::Number(Number::Float(bits))@ == ConstantV::Number(NumberV::Float(bits)),
        Constant::Number(Number::Rational(i, d))@ == ConstantV::Number(NumberV::Rational(i@, d@)),
        Constant::String(name)@ == ConstantV::String(name@),
        Constant::Usize(n)@ == ConstantV::Usize(n),
        Constant::EmptyList@ == ConstantV::EmptyList,
        i@ == signed_value(i.bytes@),
{
}

/// An integer in two's complement: one byte is from -128 to 127; a byte in front of others is the
/// lowest, and they count for 256 times as much.
pub proof fn law_integer_image(low: u8, high: Seq<u8>)
    ensures
        signed_value(Seq::empty()) == 0,
        signed_value(seq![low]) == if low < 0x80 {
            low as int
        } else {
            low - 0x100
        },
        high.len() > 0 ==> signed_value(seq![low] + high) == low + 0x100 * signed_value(high),
{
    assert((seq![low] + high).drop_first() =~= high);
}

/// Lists show their elements, each in its place.
pub proof fn law_list_images(
    terms: Seq<Term>,
    goals: Seq<QueryTerm>,
    clauses: Seq<PredicateClause>,
    tls: Seq<TopLevel>,
    keys: Seq<PredicateKey>,
    names: Seq<String>,
    ops: Seq<OpEntry>,
    results: Seq<(Predicate, VecDeque<TopLevel>)>,
    i: int,
)
    ensures
        terms_view(terms).len() == terms.len(),
        0 <= i < terms.len() ==> terms_view(terms)[i] == terms[i]@,
        goals_view(goals).len() == goals.len(),
        0 <= i < goals.len() ==> goals_view(goals)[i] == goals[i]@,
        clauses_view(clauses).len() == clauses.len(),
        0 <= i < clauses.len() ==> clauses_view(clauses)[i] == clauses[i]@,
        top_levels_view(tls).len() == tls.len(),
        0 <= i < tls.len() ==> top_levels_view(tls)[i] == tls[i]@,
        keys_view(keys).len() == keys.len(),
        0 <= i < keys.len() ==> keys_view(keys)[i] == (keys[i].0@, keys[i].1 as nat),
        names_view(names).len() == names.len(),
        0 <= i < names.len() ==> names_view(names)[i] == names[i]@,
        ops_view(ops).len() == ops.len(),
        0 <= i < ops.len() ==> ops_view(ops)[i] == ops[i]@,
        results_view(results).len() == results.len(),
        0 <= i < results.len() ==> results_view(results)[i] == (
            clauses_view(results[i].0.0@),
            top_levels_view(results[i].1@),
        ),
{
}

/// A goal shows what it calls, with the arguments and the policy, or what else it does.
pub proof fn law_goal_image(
    ct: ClauseType,
    terms: Vec<Term>,
    default_policy: bool,
    name: String,
)
    ensures
        QueryTerm::Clause(ct, terms, default_policy)@ == QueryTermV::Clause(
            ct@,
            terms_view(terms@),
            default_policy,
        ),
        QueryTerm::BlockedCut@ == QueryTermV::BlockedCut,
        QueryTerm::UnblockedCut@ == QueryTermV::UnblockedCut,
        QueryTerm::GetLevelAndUnify(name)@ == QueryTermV::GetLevelAndUnify(name@),
        QueryTerm::Jump(terms)@ == QueryTermV::Jump(terms_view(terms@)),
{
}

/// What is called shows its name, its fixity and its index.
pub proof fn law_call_image(
    name: String,
    fixity: Fixity,
    index: CodeIndex,
    built_in: BuiltInClauseType,
)
    ensures
        ClauseType::Named(name, index)@ == ClauseTypeV::Named(name@, index),
        ClauseType::Op(name, fixity, index)@ == ClauseTypeV::Op(name@, fixity, index),
        ClauseType::BuiltIn(built_in)@ == ClauseTypeV::BuiltIn(built_in),
        ClauseType::CallN@ == ClauseTypeV::CallN,
{
}

/// A rule shows its name, its arguments, and its goals in order: the one in the head first.
pub proof fn law_rule_image(rule: Rule, i: int)
    ensures
        rule@.name == rule.head.0@,
        rule@.args == terms_view(rule.head.1@),
        rule@.body.len() == 1 + rule.clauses@.len(),
        rule@.body[0] == rule.head.2@,
        0 <= i < rule.clauses@.len() ==> rule@.body[1 + i] == rule.clauses@[i]@,
{
}

/// A clause, and what a term is, show what they hold.
pub proof fn law_entry_image(
    term: Term,
    rule: Rule,
    pred: Predicate,
    decl: Declaration,
    goals: Vec<QueryTerm>,
)
    ensures
        PredicateClause::Fact(term)@ == PredicateClauseV::Fact(term@),
        PredicateClause::Rule(rule)@ == PredicateClauseV::Rule(rule@),
        pred@ == clauses_view(pred.0@),
        TopLevel::Fact(term)@ == TopLevelV::Fact(term@),
        TopLevel::Rule(rule)@ == TopLevelV::Rule(rule@),
        TopLevel::Predicate(pred)@ == TopLevelV::Predicate(clauses_view(pred.0@)),
        TopLevel::Declaration(decl)@ == TopLevelV::Declaration(decl@),
        TopLevel::Query(goals)@ == TopLevelV::Query(goals_view(goals@)),
{
}

/// A declaration shows what it declares.
pub proof fn law_declaration_image(
    hook: CompileTimeHook,
    clause: PredicateClause,
    queue: VecDeque<TopLevel>,
    module: ModuleDecl,
    name: String,
    arity: usize,
    op: OpDecl,
    keys: Vec<PredicateKey>,
)
    ensures
        Declaration::Hook(hook, clause, queue)@ == DeclarationV::Hook(
            hook,
            clause@,
            top_levels_view(queue@),
        ),
        Declaration::Module(module)@ == DeclarationV::Module(
            module.name@,
            keys_view(module.exports@),
        ),
        Declaration::NonCountedBacktracking(name, arity)@ == DeclarationV::NonCountedBacktracking(
            name@,
            arity as nat,
        ),
        Declaration::Op(op)@ == DeclarationV::Op(op@),
        Declaration::UseModule(name)@ == DeclarationV::UseModule(name@),
        Declaration::UseQualifiedModule(name, keys)@ == DeclarationV::UseQualifiedModule(
            name@,
            keys_view(keys@),
        ),
        op@.precedence == op.0,
        op@.specifier == op.1,
        op@.name == op.2@,
        module_view(name, keys@) == (name@, keys_view(keys@)),
{
    lemma_hook_view(hook, clause, queue);
}

/// A packet shows what stands in front and what was split off it.
pub proof fn law_packet_image(goals: Vec<QueryTerm>, tl: TopLevel, queue: VecDeque<TopLevel>)
    ensures
        TopLevelPacket::Query(goals, queue)@ == TopLevelPacketV::Query(
            goals_view(goals@),
            top_levels_view(queue@),
        ),
        TopLevelPacket::Decl(tl, queue)@ == TopLevelPacketV::Decl(
            tl@,
            top_levels_view(queue@),
        ),
{
}

/// Directories show their entries and cells; where there is no directory behind, it is empty.
pub proof fn law_directories_image(
    local: IndexStore,
    behind: Map<(Seq<char>, nat), CodeIndex>,
    cells: CodeCells,
)
    ensures
        forall|indices: CompositeIndices|
            (#[trigger] indices@).code_dir == indices.local.code_dir@ && indices@.forms
                == indices.local.forms@ && indices@.cells == indices.cells@,
        forall|indices: CompositeIndices|
            indices.static_code_dir is None ==> (#[trigger] indices@).static_code_dir == Map::<
                (Seq<char>, nat),
                CodeIndex,
            >::empty(),
        forall|indices: CompositeIndices|
            indices.static_code_dir is Some ==> (#[trigger] indices@).static_code_dir
                == indices.static_code_dir->0@,
        indices_view(local, behind, cells).code_dir == local.code_dir@,
        indices_view(local, behind, cells).static_code_dir == behind,
        indices_view(local, behind, cells).forms == local.forms@,
        indices_view(local, behind, cells).cells == cells@,
{
}

/// A file that is taken in shows what waits, what is complete, and what is being read.
pub proof fn law_file_image(worker: TopLevelBatchWorker)
    ensures
        worker@.queue == worker.rel_worker@,
        worker@.results == results_view(worker.results@),
        worker@.preds == clauses_view(worker.preds@),
        worker@.in_module == worker.in_module,
{
}

/// A result shows its value, or the error itself.
pub proof fn law_outcomes(
    term: Term,
    goals: Vec<QueryTerm>,
    queue: VecDeque<TopLevel>,
    info: CompileTimeHookCompileInfo,
    decl: Declaration,
    e: ParserError,
    error: SessionError,
)
    ensures
        outcome(Ok::<Term, ParserError>(term)) == Ok::<TermV, ParserError>(term@),
        outcome(Err::<Term, ParserError>(e)) == Err::<TermV, ParserError>(e),
        goals_outcome(Ok(goals)) == Ok::<Seq<QueryTermV>, ParserError>(goals_view(goals@)),
        goals_outcome(Err(e)) == Err::<Seq<QueryTermV>, ParserError>(e),
        queue_outcome(Ok(queue)) == Ok::<Seq<TopLevelV>, ParserError>(top_levels_view(queue@)),
        queue_outcome(Err(e)) == Err::<Seq<TopLevelV>, ParserError>(e),
        hook_outcome(Ok(info)) == Ok::<DeclarationV, ParserError>(
            DeclarationV::Hook(info.0, info.1@, top_levels_view(info.2@)),
        ),
        hook_outcome(Err(e)) == Err::<DeclarationV, ParserError>(e),
        progress_outcome(Ok(Progress::More)) == Ok::<ProgressV, SessionError>(ProgressV::More),
        progress_outcome(Ok(Progress::Finished)) == Ok::<ProgressV, SessionError>(
            ProgressV::Finished,
        ),
        progress_outcome(Ok(Progress::Declaration(decl))) == Ok::<ProgressV, SessionError>(
            ProgressV::Declaration(decl@),
        ),
        progress_outcome(Err(error)) == Err::<ProgressV, SessionError>(error),
        item_view(Ok(Some(term))) == Ok::<Option<TermV>, ParserError>(Some(term@)),
        item_view(Ok(None)) == Ok::<Option<TermV>, ParserError>(None),
        item_view(Err(e)) == Err::<Option<TermV>, ParserError>(e),
{
}

/// An error that the parser hands over by its code is the one of that code; no other code has one.
pub proof fn law_error_codes(code: Seq<char>)
    ensures
        code == "back_quoted_string"@ ==> error_coded(code) == Some(ParserError::BackQuotedString),
        code == "unexpected_end_of_file"@ ==> error_coded(code) == Some(ParserError::UnexpectedEOF),
        code == "expected_relation"@ ==> error_coded(code) == Some(ParserError::ExpectedRel),
        code == "expected_atom_or_cons_or_clause"@ ==> error_coded(code) == Some(
            ParserError::ExpectedTopLevelTerm,
        ),
        code == "inadmissible_fact"@ ==> error_coded(code) == Some(ParserError::InadmissibleFact),
        code == "inadmissible_query_term"@ ==> error_coded(code) == Some(
            ParserError::InadmissibleQueryTerm,
        ),
        code == "incomplete_reduction"@ ==> error_coded(code) == Some(
            ParserError::IncompleteReduction,
        ),
        code == "inconsistent_entry"@ ==> error_coded(code) == Some(ParserError::InconsistentEntry),
        code == "invalid_hook"@ ==> error_coded(code) == Some(ParserError::InvalidHook),
        code == "invalid_module_declaration"@ ==> error_coded(code) == Some(
            ParserError::InvalidModuleDecl,
        ),
        code == "invalid_module_export"@ ==> error_coded(code) == Some(
            ParserError::InvalidModuleExport,
        ),
        code == "invalid_module_resolution"@ ==> error_coded(code) == Some(
            ParserError::InvalidModuleResolution,
        ),
        code == "invalid_head_of_rule"@ ==> error_coded(code) == Some(ParserError::InvalidRuleHead),
        code == "invalid_use_module_declaration"@ ==> error_coded(code) == Some(
            ParserError::InvalidUseModuleDecl,
        ),
        code == "missing_quote"@ ==> error_coded(code) == Some(ParserError::MissingQuote),
        code == "non_prolog_character"@ ==> error_coded(code) == Some(ParserError::NonPrologChar),
        code == "cannot_parse_big_int"@ ==> error_coded(code) == Some(ParserError::ParseBigInt),
        code == "cannot_parse_float"@ ==> error_coded(code) == Some(ParserError::ParseFloat),
        code == "cannot_parse_cyclic_term"@ ==> error_coded(code) == Some(
            ParserError::CannotParseCyclicTerm,
        ),
        error_coded(code) is None <==> code != "back_quoted_string"@
            && code != "unexpected_end_of_file"@
            && code != "expected_relation"@
            && code != "expected_atom_or_cons_or_clause"@
            && code != "inadmissible_fact"@
            && code != "inadmissible_query_term"@
            && code != "incomplete_reduction"@
            && code != "inconsistent_entry"@
            && code != "invalid_hook"@
            && code != "invalid_module_declaration"@
            && code != "invalid_module_export"@
            && code != "invalid_module_resolution"@
            && code != "invalid_head_of_rule"@
            && code != "invalid_use_module_declaration"@
            && code != "missing_quote"@
            && code != "non_prolog_character"@
            && code != "cannot_parse_big_int"@
            && code != "cannot_parse_float"@
            && code != "cannot_parse_cyclic_term"@,
{
    reveal_strlit("back_quoted_string");
    reveal_strlit("unexpected_end_of_file");
    reveal_strlit("expected_relation");
    reveal_strlit("expected_atom_or_cons_or_clause");
    reveal_strlit("inadmissible_fact");
    reveal_strlit("inadmissible_query_term");
    reveal_strlit("incomplete_reduction");
    reveal_strlit("inconsistent_entry");
    reveal_strlit("invalid_hook");
    reveal_strlit("invalid_module_declaration");
    reveal_strlit("invalid_module_export");
    reveal_strlit("invalid_module_resolution");
    reveal_strlit("invalid_head_of_rule");
    reveal_strlit("invalid_use_module_declaration");
    reveal_strlit("missing_quote");
    reveal_strlit("non_prolog_character");
    reveal_strlit("cannot_parse_big_int");
    reveal_strlit("cannot_parse_float");
    reveal_strlit("cannot_parse_cyclic_term");
    assert("back_quoted_string"@.len() == 18);
    assert("unexpected_end_of_file"@.len() == 22);
    assert("expected_relation"@.len() == 17);
    assert("expected_atom_or_cons_or_clause"@.len() == 31);
    assert("inadmissible_fact"@.len() == 17);
    assert("inadmissible_query_term"@.len() == 23);
    assert("incomplete_reduction"@.len() == 20);
    assert("inconsistent_entry"@.len() == 18);
    assert("invalid_hook"@.len() == 12);
    assert("invalid_module_declaration"@.len() == 26);
    assert("invalid_module_export"@.len() == 21);
    assert("invalid_module_resolution"@.len() == 25);
    assert("invalid_head_of_rule"@.len() == 20);
    assert("invalid_use_module_declaration"@.len() == 30);
    assert("missing_quote"@.len() == 13);
    assert("non_prolog_character"@.len() == 20);
    assert("cannot_parse_big_int"@.len() == 20);
    assert("cannot_parse_float"@.len() == 18);
    assert("cannot_parse_cyclic_term"@.len() == 24);
    assert("back_quoted_string"@[0] != "inconsistent_entry"@[0]);
    assert("back_quoted_string"@[0] != "cannot_parse_float"@[0]);
    assert("inconsistent_entry"@[0] != "cannot_parse_float"@[0]);
    assert("expected_relation"@[0] != "inadmissible_fact"@[0]);
    assert("incomplete_reduction"@[2] != "invalid_head_of_rule"@[2]);
    assert("incomplete_reduction"@[0] != "non_prolog_character"@[0]);
    assert("incomplete_reduction"@[0] != "cannot_parse_big_int"@[0]);
    assert("invalid_head_of_rule"@[0] != "non_prolog_character"@[0]);
    assert("invalid_head_of_rule"@[0] != "cannot_parse_big_int"@[0]);
    assert("non_prolog_character"@[0] != "cannot_parse_big_int"@[0]);
}

/// What the parser reads shows the term, or the error with what it carries.
pub proof fn law_reading_image(
    op: OpEntry,
    term: Term,
    shown: TermV,
    c: char,
    valid: usize,
    len: Option<usize>,
    os_code: Option<i32>,
    e: ReadError,
)
    ensures
        op@.name == op.name@ && op@.fixity == op.fixity && op@.specifier == op.specifier
            && op@.precedence == op.precedence,
        reading(Ok(term)) == Ok::<TermV, ReadErrorV>(term@),
        reading(Err(e)) == Err::<TermV, ReadErrorV>(e@),
        decoded(Ok(shown)) == Ok::<TermV, ParserError>(shown),
        decoded(Err(ReadError::UnexpectedChar(c)@)) == Err::<TermV, ParserError>(
            ParserError::UnexpectedChar(c),
        ),
        decoded(Err(ReadError::Utf8Conversion(valid, len)@)) == Err::<TermV, ParserError>(
            ParserError::Utf8Conversion(valid, len),
        ),
        decoded(Err(ReadError::IO(os_code)@)) == Err::<TermV, ParserError>(
            ParserError::IO(os_code),
        ),
{
}

} // verus!
