//! What clauses, goals and directives mean, as functions of terms.
//!
//! A body that holds a disjunction or an if-then is split: the control construct becomes a
//! predicate without a name, whose clauses wait in a queue, and the body jumps to it.
use vstd::prelude::*;

use crate::ast::{ConstantV, ParserError, TermV};
use crate::code::{BuiltInClauseType, ClauseTypeV, CodeIndex, IndexPtr, IndicesV};
use crate::declarations::declaration;
use crate::goals::{cut_var, fold, head_vars, is_cut, mark_cuts, rename_cuts, unfold};
use crate::program::{
    CompileTimeHook, DeclarationV, PredicateClauseV, QueryTermV, RuleV, TopLevelPacketV, TopLevelV,
};
use crate::weight::{lemma_queue_weight_first, lemma_split_clauses_weight, queue_weight};

verus! {

/// The clauses that wait to be translated, each group a predicate of its own, and what goals are
/// resolved against.
pub struct WorkV {
    pub queue: Seq<Seq<TermV>>,
    pub indices: IndicesV,
}

/// The state of a translation.
pub open spec fn work(queue: Seq<Seq<TermV>>, indices: IndicesV) -> WorkV {
    WorkV { queue, indices }
}

impl WorkV {
    /// A group of clauses more at the end of the queue.
    pub open spec fn with_group(self, group: Seq<TermV>) -> WorkV {
        WorkV { queue: self.queue.push(group), ..self }
    }
}

/// A clause of a predicate split off a body: a rule without a name, whose arguments are the
/// variables that it shares with the body.
pub open spec fn split_rule(vars: Seq<TermV>, body: TermV) -> TermV {
    TermV::Clause(":-"@, seq![TermV::Clause(""@, vars, None), body], None)
}

/// Goals as one conjunction.
pub open spec fn conjunction(goals: Seq<TermV>) -> TermV {
    fold(goals.drop_last(), goals.last(), ","@)
}

/// One alternative of a disjunction, its cuts marked.
pub open spec fn alternative(term: TermV) -> TermV {
    conjunction(mark_cuts(unfold(term, ","@)))
}

/// Whether the last goal of the last alternative is a cut.
pub open spec fn ends_in_cut(term: TermV) -> bool {
    is_cut(unfold(unfold(term, ";"@).last(), ","@).last())
}

/// The variables that a disjunction shares with the predicate split off it. The cut variable
/// stands once more at the end where the disjunction ends in a cut.
pub open spec fn disjunct_vars(term: TermV) -> Seq<TermV> {
    if ends_in_cut(term) {
        head_vars(term).push(cut_var())
    } else {
        head_vars(term)
    }
}

/// The predicate split off a disjunction: one clause for each alternative.
pub open spec fn disjunct_clauses(term: TermV) -> Seq<TermV> {
    unfold(term, ";"@).map_values(
        |alt: TermV| split_rule(disjunct_vars(term), alternative(alt)),
    )
}

/// The body of the clause split off an if-then: the condition, whose cuts stay inside it, a cut
/// that commits to it, and the consequent, whose cuts are marked.
pub open spec fn if_then_body(prec: TermV, conq: TermV) -> TermV {
    let condition = unfold(prec, ","@).push(TermV::Constant(ConstantV::Atom("!"@, None)));
    conjunction(rename_cuts(condition, "blocked_!"@) + mark_cuts(unfold(conq, ","@)))
}

/// A goal of another module: a call through a cell that names the module.
pub open spec fn module_goal(module: TermV, callee: TermV, index: CodeIndex) -> Result<
    QueryTermV,
    ParserError,
> {
    match (module, callee) {
        (TermV::Constant(ConstantV::Atom(_, _)), TermV::Clause(name, args, _)) => Ok(
            QueryTermV::Clause(ClauseTypeV::Named(name, index), args, false),
        ),
        _ => Err(ParserError::InvalidModuleResolution),
    }
}

/// A goal of another module, with its cell made.
pub open spec fn module_call(state: WorkV, module: TermV, callee: TermV) -> (
    WorkV,
    Result<QueryTermV, ParserError>,
) {
    let r = module_goal(module, callee, CodeIndex(state.indices.cells.len() as usize));
    if r is Ok {
        (
            WorkV { indices: state.indices.with_cell(IndexPtr::Module, module.name()->0), ..state },
            r,
        )
    } else {
        (state, r)
    }
}

/// A goal that is looked up.
pub open spec fn plain_call(
    state: WorkV,
    name: Seq<char>,
    args: Seq<TermV>,
    fixity: Option<crate::ast::Fixity>,
) -> (WorkV, Result<QueryTermV, ParserError>) {
    let key = (name, args.len());
    (
        WorkV { indices: state.indices.with_clause_type(key), ..state },
        Ok(QueryTermV::Clause(state.indices.clause_type(key, fixity), args, false)),
    )
}

/// A goal under the call policy of the clause.
pub open spec fn query_term(state: WorkV, term: TermV) -> (WorkV, Result<QueryTermV, ParserError>) {
    match term {
        TermV::Constant(ConstantV::Atom(name, fixity)) => if name == "!"@ || name == "blocked_!"@ {
            (state, Ok(QueryTermV::BlockedCut))
        } else {
            plain_call(state, name, Seq::empty(), fixity)
        },
        TermV::Var(name) => if name == "!"@ {
            (state, Ok(QueryTermV::UnblockedCut))
        } else {
            (state, Ok(QueryTermV::Clause(ClauseTypeV::CallN, seq![term], false)))
        },
        TermV::Clause(name, args, fixity) => if name == ";"@ && args.len() == 2 {
            (
                state.with_group(disjunct_clauses(term)),
                Ok(QueryTermV::Jump(disjunct_vars(term))),
            )
        } else if name == ":"@ && args.len() == 2 {
            module_call(state, args[0], args[1])
        } else if name == "->"@ && args.len() == 2 {
            let body = if_then_body(args[0], args[1]);
            (
                state.with_group(seq![split_rule(head_vars(body), body)]),
                Ok(QueryTermV::Jump(head_vars(body))),
            )
        } else if name == "$get_level"@ && args.len() == 1 {
            match args[0] {
                TermV::Var(var) => (state, Ok(QueryTermV::GetLevelAndUnify(var))),
                _ => (state, Err(ParserError::InadmissibleQueryTerm)),
            }
        } else if name == "partial_string"@ && args.len() == 2 {
            match (args[0], args[1]) {
                (TermV::Constant(ConstantV::String(_)), TermV::Var(_)) => (
                    state,
                    Ok(
                        QueryTermV::Clause(
                            ClauseTypeV::BuiltIn(BuiltInClauseType::PartialString),
                            args,
                            false,
                        ),
                    ),
                ),
                _ => (state, Err(ParserError::InadmissibleQueryTerm)),
            }
        } else {
            plain_call(state, name, args, fixity)
        },
        _ => (state, Err(ParserError::InadmissibleQueryTerm)),
    }
}

/// A goal, under the default call policy where it asks for it.
pub open spec fn goal(state: WorkV, term: TermV) -> (WorkV, Result<QueryTermV, ParserError>) {
    if term.is_compound("$call_with_default_policy"@, 1) {
        let (after, r) = query_term(state, term.args()[0]);
        (
            after,
            match r {
                Ok(query_term) => Ok(query_term.with_default_caller()),
                Err(e) => Err(e),
            },
        )
    } else {
        query_term(state, term)
    }
}

/// The goals of a conjunction, their cuts marked unless cuts stay inside the clause.
pub open spec fn conjuncts(term: TermV, blocks_cuts: bool) -> Seq<TermV> {
    if blocks_cuts {
        unfold(term, ","@)
    } else {
        mark_cuts(unfold(term, ","@))
    }
}

/// The goals of several conjunctions, in order.
pub open spec fn all_conjuncts(terms: Seq<TermV>, blocks_cuts: bool) -> Seq<TermV>
    decreases terms.len(),
{
    if terms.len() == 0 {
        Seq::empty()
    } else {
        all_conjuncts(terms.drop_last(), blocks_cuts) + conjuncts(terms.last(), blocks_cuts)
    }
}

/// An if-then that stands in its clause: the condition, a cut that commits to it, the consequent.
pub open spec fn inlined_if_then(prec: TermV, conq: TermV, blocks_cuts: bool) -> Seq<TermV> {
    unfold(prec, ","@).push(TermV::Constant(ConstantV::Atom("blocked_!"@, None))) + conjuncts(
        conq,
        blocks_cuts,
    )
}

/// The goals of a body. An if-then that makes up the whole body stays in it.
pub open spec fn body_goals(terms: Seq<TermV>, blocks_cuts: bool) -> Seq<TermV> {
    if terms.len() == 1 && terms[0].is_compound("->"@, 2) {
        all_conjuncts(
            inlined_if_then(terms[0].args()[0], terms[0].args()[1], blocks_cuts),
            blocks_cuts,
        )
    } else {
        all_conjuncts(terms, blocks_cuts)
    }
}

/// Goals in order, up to the first that is none.
pub open spec fn goals(state: WorkV, terms: Seq<TermV>) -> (
    WorkV,
    Result<Seq<QueryTermV>, ParserError>,
)
    decreases terms.len(),
{
    if terms.len() == 0 {
        (state, Ok(Seq::empty()))
    } else {
        let (before, done) = goals(state, terms.drop_last());
        match done {
            Ok(done) => {
                let (after, last) = goal(before, terms.last());
                match last {
                    Ok(last) => (after, Ok(done.push(last))),
                    Err(e) => (after, Err(e)),
                }
            },
            Err(e) => (before, Err(e)),
        }
    }
}

/// A query.
pub open spec fn query(state: WorkV, terms: Seq<TermV>, blocks_cuts: bool) -> (
    WorkV,
    Result<Seq<QueryTermV>, ParserError>,
) {
    goals(state, body_goals(terms, blocks_cuts))
}

/// The parts of a body, which follow the head.
pub open spec fn body_parts(terms: Seq<TermV>) -> Seq<TermV> {
    if terms.len() > 0 {
        terms.skip(1)
    } else {
        terms
    }
}

/// A rule, from its head and the parts of its body.
pub open spec fn rule(state: WorkV, terms: Seq<TermV>, blocks_cuts: bool) -> (
    WorkV,
    Result<RuleV, ParserError>,
) {
    let (after, body) = query(state, body_parts(terms), blocks_cuts);
    (
        after,
        match (body, terms[0]) {
            (Err(e), _) => Err(e),
            (Ok(body), TermV::Clause(name, args, _)) => Ok(RuleV { name, args, body }),
            (Ok(body), TermV::Constant(ConstantV::Atom(name, _))) => Ok(
                RuleV { name, args: Seq::empty(), body },
            ),
            _ => Err(ParserError::InvalidRuleHead),
        },
    )
}

/// The clauses of a predicate that was split off, in order, up to the first that is none.
pub open spec fn split_clauses(state: WorkV, group: Seq<TermV>) -> (
    WorkV,
    Result<Seq<PredicateClauseV>, ParserError>,
)
    decreases group.len(),
{
    if group.len() == 0 {
        (state, Ok(Seq::empty()))
    } else {
        let (before, done) = split_clauses(state, group.drop_last());
        match done {
            Ok(done) => {
                let (after, last) = rule(before, group.last().args(), false);
                match last {
                    Ok(last) => (after, Ok(done.push(PredicateClauseV::Rule(last)))),
                    Err(e) => (after, Err(e)),
                }
            },
            Err(e) => (before, Err(e)),
        }
    }
}

/// The predicates that were split off: one for each group in the queue, in order, and for those
/// that join the queue on the way. The first clause that is none ends it.
pub open spec fn split_predicates(state: WorkV) -> (WorkV, Result<Seq<TopLevelV>, ParserError>)
    decreases queue_weight(state.queue),
{
    if state.queue.len() == 0 {
        (state, Ok(Seq::empty()))
    } else {
        let rest = WorkV { queue: state.queue.drop_first(), ..state };
        let (after, clauses) = split_clauses(rest, state.queue[0]);
        proof {
            lemma_split_clauses_weight(rest, state.queue[0]);
            lemma_queue_weight_first(state.queue);
        }
        match clauses {
            Ok(clauses) => {
                let (last, others) = split_predicates(after);
                match others {
                    Ok(others) => (last, Ok(seq![TopLevelV::Predicate(clauses)] + others)),
                    Err(e) => (last, Err(e)),
                }
            },
            Err(e) => (after, Err(e)),
        }
    }
}

/// A clause of `term_expansion/2`, a fact or a rule.
pub open spec fn is_term_expansion(term: TermV) -> bool {
    match term {
        TermV::Clause(name, args, _) => if name == ":-"@ {
            args.len() > 0 && (args[0] matches TermV::Clause(head, head_args, None) && head
                == "term_expansion"@ && head_args.len() == 2)
        } else {
            name == "term_expansion"@ && args.len() == 2
        },
        _ => false,
    }
}

/// A directive whose goal is `term_expansion/2`: it has the look of a clause of the hook and is
/// none.
pub open spec fn is_bodiless_hook(term: TermV) -> bool {
    is_term_expansion(term) && term.is_compound(":-"@, 1)
}

/// A fact: a compound term or an atom.
pub open spec fn fact(term: TermV) -> Result<TermV, ParserError> {
    match term {
        TermV::Clause(_, _, _) => Ok(term),
        TermV::Constant(ConstantV::Atom(_, _)) => Ok(term),
        _ => Err(ParserError::InadmissibleFact),
    }
}

/// A hook, with the predicates that were split off its body.
pub open spec fn hook(state: WorkV, term: TermV) -> (WorkV, Result<DeclarationV, ParserError>) {
    if term.is_compound("term_expansion"@, 2) {
        let plain = TermV::Clause("term_expansion"@, term.args(), None);
        (
            state,
            Ok(
                DeclarationV::Hook(
                    CompileTimeHook::TermExpansion,
                    PredicateClauseV::Fact(plain),
                    Seq::empty(),
                ),
            ),
        )
    } else if term matches TermV::Clause(name, args, _) && name == ":-"@ {
        let (translated, clause) = rule(state, term.args(), true);
        match clause {
            Ok(clause) => {
                let (after, queue) = split_predicates(translated);
                match queue {
                    Ok(queue) => (
                        after,
                        Ok(
                            DeclarationV::Hook(
                                CompileTimeHook::TermExpansion,
                                PredicateClauseV::Rule(clause),
                                queue,
                            ),
                        ),
                    ),
                    Err(e) => (after, Err(e)),
                }
            },
            Err(e) => (translated, Err(e)),
        }
    } else {
        (state, Err(ParserError::InvalidHook))
    }
}

/// What a read term is.
#[verifier::opaque]
pub open spec fn top_level(state: WorkV, term: TermV, blocks_cuts: bool) -> (
    WorkV,
    Result<TopLevelV, ParserError>,
) {
    if is_term_expansion(term) {
        let (after, r) = hook(state, term);
        (
            after,
            match r {
                Ok(decl) => Ok(TopLevelV::Declaration(decl)),
                Err(e) => Err(e),
            },
        )
    } else if term matches TermV::Clause(name, _, _) && name == "?-"@ {
        let (after, r) = query(state, term.args(), blocks_cuts);
        (
            after,
            match r {
                Ok(goals) => Ok(TopLevelV::Query(goals)),
                Err(e) => Err(e),
            },
        )
    } else if term matches TermV::Clause(name, args, _) && name == ":-"@ && args.len() > 1 {
        let (after, r) = rule(state, term.args(), blocks_cuts);
        (
            after,
            match r {
                Ok(rule) => Ok(TopLevelV::Rule(rule)),
                Err(e) => Err(e),
            },
        )
    } else if term.is_compound(":-"@, 1) {
        (
            state,
            match declaration(term.args()[0]) {
                Ok(decl) => Ok(TopLevelV::Declaration(decl)),
                Err(e) => Err(e),
            },
        )
    } else {
        (
            state,
            match fact(term) {
                Ok(term) => Ok(TopLevelV::Fact(term)),
                Err(e) => Err(e),
            },
        )
    }
}

/// Whether clauses belong to the predicate that was begun.
pub open spec fn consistent(tl: TopLevelV, clauses: Seq<PredicateClauseV>) -> bool {
    clauses.len() > 0 ==> tl.name() == clauses[0].name() && tl.arity() == clauses[0].arity()
}

/// The clauses that a term adds to a predicate; none for a query or a declaration.
pub open spec fn clauses_of(tl: TopLevelV) -> Seq<PredicateClauseV> {
    match tl {
        TopLevelV::Fact(term) => seq![PredicateClauseV::Fact(term)],
        TopLevelV::Rule(rule) => seq![PredicateClauseV::Rule(rule)],
        TopLevelV::Predicate(clauses) => clauses,
        _ => Seq::empty(),
    }
}

/// What terms are, in order, up to the first that is nothing.
pub open spec fn top_levels(state: WorkV, terms: Seq<TermV>, blocks_cuts: bool) -> (
    WorkV,
    Result<Seq<TopLevelV>, ParserError>,
)
    decreases terms.len(),
{
    if terms.len() == 0 {
        (state, Ok(Seq::empty()))
    } else {
        let (before, done) = top_levels(state, terms.drop_last(), blocks_cuts);
        match done {
            Ok(done) => {
                let (after, last) = top_level(before, terms.last(), blocks_cuts);
                match last {
                    Ok(last) => (after, Ok(done.push(last))),
                    Err(e) => (after, Err(e)),
                }
            },
            Err(e) => (before, Err(e)),
        }
    }
}

/// The predicate that clauses make up; none without a clause.
pub open spec fn predicate(clauses: Seq<PredicateClauseV>) -> Result<TopLevelV, ParserError> {
    if clauses.len() > 0 {
        Ok(TopLevelV::Predicate(clauses))
    } else {
        Err(ParserError::InconsistentEntry)
    }
}

/// What is made of terms that follow `clauses`, and which of them are left: the clauses of one
/// predicate, as far as they go, or a declaration or a query by itself.
pub open spec fn merge(clauses: Seq<PredicateClauseV>, tls: Seq<TopLevelV>) -> (
    Seq<TopLevelV>,
    Result<TopLevelV, ParserError>,
)
    decreases tls.len(),
{
    if tls.len() == 0 {
        (tls, predicate(clauses))
    } else {
        let rest = tls.drop_first();
        match tls[0] {
            TopLevelV::Query(_) => if clauses.len() == 0 && rest.len() == 0 {
                (rest, Ok(tls[0]))
            } else {
                (rest, Err(ParserError::InconsistentEntry))
            },
            TopLevelV::Declaration(_) => if clauses.len() == 0 {
                (rest, Ok(tls[0]))
            } else {
                (tls, predicate(clauses))
            },
            _ => if consistent(tls[0], clauses) {
                merge(clauses + clauses_of(tls[0]), rest)
            } else {
                (tls, predicate(clauses))
            },
        }
    }
}

/// A query or a declaration, with the predicates that were split off it.
pub open spec fn packet(head: TopLevelV, queue: Seq<TopLevelV>) -> TopLevelPacketV {
    match head {
        TopLevelV::Query(goals) => TopLevelPacketV::Query(goals, queue),
        _ => TopLevelPacketV::Decl(head, queue),
    }
}

} // verus!
