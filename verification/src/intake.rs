//! What holds of a file that is taken in: what each term adds to it, and when a predicate is
//! complete.
use vstd::prelude::*;

use crate::ast::{ConstantV, Fixity, ParserError, TermV};
use crate::batch::{flush, take, BatchV, ProgressV, SessionError};

use crate::code::{CodeIndex, IndicesV};
use crate::entries::{is_expansion_head, law_fact, law_rule_entry};
use crate::laws::{complete_clauses, law_take_keeps_clauses, read_clauses};
use crate::program::{DeclarationV, PredicateClauseV, QueryTermV, RuleV, TopLevelV};
use crate::translation::{body_goals, goals, split_predicates, top_level, WorkV};

verus! {

/// The translation of a term with nothing waiting.
pub open spec fn alone(indices: IndicesV, term: TermV) -> (WorkV, Result<TopLevelV, ParserError>) {
    top_level(WorkV { queue: Seq::empty(), indices }, term, true)
}

/// A file in which the predicate that was being read is complete: it stands last among the results,
/// with what was split off it; or else nothing is kept of it, for the error that `None` stands for.
pub open spec fn completed(
    state: BatchV,
    emptied: WorkV,
    queue: Option<Seq<TopLevelV>>,
) -> BatchV {
    BatchV {
        queue: emptied.queue,
        results: match queue {
            Some(queue) => state.results.push((state.preds, queue)),
            None => state.results,
        },
        preds: Seq::empty(),
        in_module: state.in_module,
    }
}

/// To complete a predicate is to translate what waits and to put the clauses of the predicate and
/// the predicates that came of it behind the results.
pub proof fn law_flush(state: BatchV, indices: IndicesV)
    ensures
        ({
            let (emptied, queue) = split_predicates(WorkV { queue: state.queue, indices });
            flush(state, indices) == match queue {
                Ok(queue) => (
                    completed(state, emptied, Some(queue)),
                    emptied.indices,
                    Ok::<(), ParserError>(()),
                ),
                Err(e) => (completed(state, emptied, None), emptied.indices, Err(e)),
            }
        }),
{
}

/// A term that is a fact or a rule adds that very fact or rule, as one clause, behind those of the
/// predicate that is being read, if name and arity are the same or none is being read; what was
/// split off it waits last. Otherwise that predicate is complete, and the clause is the first of
/// the next.
pub proof fn law_take_clause(
    state: BatchV,
    indices: IndicesV,
    term: TermV,
    clause: PredicateClauseV,
)
    requires
        alone(indices, term).1 == Ok::<TopLevelV, ParserError>(
            match clause {
                PredicateClauseV::Fact(fact) => TopLevelV::Fact(fact),
                PredicateClauseV::Rule(rule) => TopLevelV::Rule(rule),
            },
        ),
    ensures
        ({
            let translated = alone(indices, term).0;
            let (after, grown, r) = take(state, indices, Ok(Some(term)));
            if state.preds.len() == 0 || (clause.name() == state.preds[0].name() && clause.arity()
                == state.preds[0].arity()) {
                &&& r == Ok::<ProgressV, SessionError>(ProgressV::More)
                &&& grown == translated.indices
                &&& after == BatchV {
                    queue: state.queue + translated.queue,
                    results: state.results,
                    preds: state.preds + seq![clause],
                    in_module: state.in_module,
                }
            } else {
                let (emptied, queue) = split_predicates(
                    WorkV { queue: state.queue, indices: translated.indices },
                );
                &&& grown == emptied.indices
                &&& match queue {
                    Ok(queue) => {
                        &&& r == Ok::<ProgressV, SessionError>(ProgressV::More)
                        &&& after == BatchV {
                            queue: emptied.queue + translated.queue,
                            results: state.results.push((state.preds, queue)),
                            preds: seq![clause],
                            in_module: state.in_module,
                        }
                    },
                    Err(e) => {
                        &&& r == Err::<ProgressV, SessionError>(SessionError::ParserError(e))
                        &&& after == completed(state, emptied, None)
                    },
                }
            }
        }),
{
    let none: Seq<PredicateClauseV> = Seq::empty();
    assert(none + seq![clause] =~= seq![clause]);
}

/// An atom, or a compound term that is neither a rule, a directive, a query nor a clause of the
/// hook, adds one clause to what was read, at the end: the fact that is that very term.
pub proof fn law_fact_is_kept(state: BatchV, indices: IndicesV, term: TermV)
    requires
        state.wf(),
        match term {
            TermV::Constant(ConstantV::Atom(_, _)) => true,
            TermV::Clause(name, args, _) => {
                &&& !(name == ":-"@ && args.len() > 0)
                &&& name != "?-"@
                &&& !(name == "term_expansion"@ && args.len() == 2)
            },
            _ => false,
        },
        take(state, indices, Ok(Some(term))).2 is Ok,
    ensures
        ({
            let after = take(state, indices, Ok(Some(term))).0;
            &&& after.preds.len() > 0
            &&& after.preds.last() == PredicateClauseV::Fact(term)
            &&& read_clauses(after) == read_clauses(state).push(PredicateClauseV::Fact(term))
        }),
{
    law_fact(WorkV { queue: Seq::empty(), indices }, term, true);
    law_take_clause(state, indices, term, PredicateClauseV::Fact(term));
    law_take_keeps_clauses(state, indices, Ok(Some(term)));
    let fact = PredicateClauseV::Fact(term);
    assert(read_clauses(state) + seq![fact] =~= read_clauses(state).push(fact));
}

/// A rule adds one clause to what was read, at the end: with the name and the arguments of its head
/// and the goals of its body.
pub proof fn law_rule_is_kept(
    state: BatchV,
    indices: IndicesV,
    name: Seq<char>,
    args: Seq<TermV>,
    head_fixity: Option<Fixity>,
    body: TermV,
    fixity: Option<Fixity>,
)
    requires
        state.wf(),
        !is_expansion_head(TermV::Clause(name, args, head_fixity)),
        take(
            state,
            indices,
            Ok(
                Some(
                    TermV::Clause(
                        ":-"@,
                        seq![TermV::Clause(name, args, head_fixity), body],
                        fixity,
                    ),
                ),
            ),
        ).2 is Ok,
    ensures
        ({
            let term = TermV::Clause(
                ":-"@,
                seq![TermV::Clause(name, args, head_fixity), body],
                fixity,
            );
            let after = take(state, indices, Ok(Some(term))).0;
            let translated = goals(
                WorkV { queue: Seq::empty(), indices },
                body_goals(seq![body], true),
            ).1;
            &&& translated is Ok
            &&& read_clauses(after) == read_clauses(state).push(
                PredicateClauseV::Rule(RuleV { name, args, body: translated->Ok_0 }),
            )
        }),
{
    let head = TermV::Clause(name, args, head_fixity);
    let term = TermV::Clause(":-"@, seq![head, body], fixity);
    let start = WorkV { queue: Seq::empty(), indices };
    assert(seq![head, body] =~= seq![head] + seq![body]);
    law_rule_entry(start, head, seq![body], fixity, true);
    let translated = goals(start, body_goals(seq![body], true)).1;
    law_take_keeps_clauses(state, indices, Ok(Some(term)));
    if let Ok(goals) = translated {
        let clause = PredicateClauseV::Rule(RuleV { name, args, body: goals });
        assert(read_clauses(state) + seq![clause] =~= read_clauses(state).push(clause));
    }
}

/// A declaration is handed over as it is. What was being read is complete by then.
pub proof fn law_take_declaration(
    state: BatchV,
    indices: IndicesV,
    term: TermV,
    decl: DeclarationV,
)
    requires
        state.wf(),
        alone(indices, term).1 == Ok::<TopLevelV, ParserError>(TopLevelV::Declaration(decl)),
    ensures
        ({
            let translated = alone(indices, term).0;
            let (after, grown, r) = take(state, indices, Ok(Some(term)));
            let (emptied, queue) = split_predicates(
                WorkV { queue: state.queue, indices: translated.indices },
            );
            if state.preds.len() == 0 {
                &&& r == Ok::<ProgressV, SessionError>(ProgressV::Declaration(decl))
                &&& grown == translated.indices
                &&& after == BatchV { queue: state.queue + translated.queue, ..state }
            } else {
                &&& grown == emptied.indices
                &&& match queue {
                    Ok(queue) => {
                        let done = completed(state, emptied, Some(queue));
                        &&& r == Ok::<ProgressV, SessionError>(ProgressV::Declaration(decl))
                        &&& after == BatchV { queue: emptied.queue + translated.queue, ..done }
                    },
                    Err(e) => {
                        &&& r == Err::<ProgressV, SessionError>(SessionError::ParserError(e))
                        &&& after == completed(state, emptied, None)
                    },
                }
            }
        }),
{
    assert(state.preds.len() > 0 ==> state.preds[0].name() is Some);
    if state.preds.len() == 0 {
        assert(state.preds =~= Seq::empty());
    }
}

/// A query is refused: it defines nothing. What was being read is complete by then.
pub proof fn law_take_query(
    state: BatchV,
    indices: IndicesV,
    term: TermV,
    goals: Seq<QueryTermV>,
)
    requires
        state.wf(),
        alone(indices, term).1 == Ok::<TopLevelV, ParserError>(TopLevelV::Query(goals)),
    ensures
        ({
            let translated = alone(indices, term).0;
            let (after, grown, r) = take(state, indices, Ok(Some(term)));
            let (emptied, queue) = split_predicates(
                WorkV { queue: state.queue, indices: translated.indices },
            );
            if state.preds.len() == 0 {
                &&& r == Err::<ProgressV, SessionError>(SessionError::NamelessEntry)
                &&& grown == translated.indices
                &&& after == BatchV { queue: state.queue + translated.queue, ..state }
            } else {
                &&& grown == emptied.indices
                &&& match queue {
                    Ok(queue) => {
                        let done = completed(state, emptied, Some(queue));
                        &&& r == Err::<ProgressV, SessionError>(SessionError::NamelessEntry)
                        &&& after == BatchV { queue: emptied.queue + translated.queue, ..done }
                    },
                    Err(e) => {
                        &&& r == Err::<ProgressV, SessionError>(SessionError::ParserError(e))
                        &&& after == completed(state, emptied, None)
                    },
                }
            }
        }),
{
    assert(state.preds.len() > 0 ==> state.preds[0].name() is Some);
    if state.preds.len() == 0 {
        assert(state.preds =~= Seq::empty());
    }
}

/// A term that is nothing, or an error in place of a term, is handed on, and the clauses of the
/// predicate that was being read are dropped. Nothing else of the file changes.
pub proof fn law_take_error(state: BatchV, indices: IndicesV, term: TermV, e: ParserError)
    ensures
        take(state, indices, Err(e)) == (
            BatchV { preds: Seq::empty(), ..state },
            indices,
            Err::<ProgressV, SessionError>(SessionError::ParserError(e)),
        ),
        alone(indices, term).1 == Err::<TopLevelV, ParserError>(e) ==> take(
            state,
            indices,
            Ok(Some(term)),
        ) == (
            BatchV { preds: Seq::empty(), ..state },
            alone(indices, term).0.indices,
            Err::<ProgressV, SessionError>(SessionError::ParserError(e)),
        ),
{
}

/// The end of a file completes the predicate that is being read, if there is one.
pub proof fn law_take_end(state: BatchV, indices: IndicesV)
    ensures
        ({
            let (emptied, queue) = split_predicates(WorkV { queue: state.queue, indices });
            take(state, indices, Ok(None)) == if state.preds.len() == 0 {
                (state, indices, Ok::<ProgressV, SessionError>(ProgressV::Finished))
            } else {
                match queue {
                    Ok(queue) => (
                        completed(state, emptied, Some(queue)),
                        emptied.indices,
                        Ok(ProgressV::Finished),
                    ),
                    Err(e) => (
                        completed(state, emptied, None),
                        emptied.indices,
                        Err(SessionError::ParserError(e)),
                    ),
                }
            }
        }),
{
}

/// A module that is being read has no directory behind its own.
pub proof fn law_behind(state: BatchV, dir: Map<(Seq<char>, nat), CodeIndex>)
    ensures
        state.in_module ==> state.behind(dir) == Map::<(Seq<char>, nat), CodeIndex>::empty(),
        !state.in_module ==> state.behind(dir) == dir,
{
}

/// What was read of a file: the clauses of its complete predicates, one predicate after another,
/// and then those of the predicate that is being read.
pub proof fn law_read_clauses(
    results: Seq<(Seq<PredicateClauseV>, Seq<TopLevelV>)>,
    result: (Seq<PredicateClauseV>, Seq<TopLevelV>),
    state: BatchV,
)
    ensures
        complete_clauses(Seq::empty()) == Seq::<PredicateClauseV>::empty(),
        complete_clauses(results.push(result)) == complete_clauses(results) + result.0,
        read_clauses(state) == complete_clauses(state.results) + state.preds,
{
    assert(results.push(result).drop_last() =~= results);
}

} // verus!
