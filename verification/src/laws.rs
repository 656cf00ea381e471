//! What holds of the translation as a whole.
use vstd::prelude::*;

use crate::ast::{ParserError, TermV};
use crate::batch::{flush, take, BatchV, ProgressV, SessionError};
use crate::code::{IndexPtr, IndicesV};
use crate::declarations::declaration;
use crate::goals::{fold, is_cut, mark_cut, mark_cuts, unfold};
use crate::program::{DeclarationV, PredicateClauseV, QueryTermV, TopLevelV};
use crate::reader::{is_operator, OpEntryV};
use crate::translation::{
    all_conjuncts, body_goals, clauses_of, conjunction, conjuncts, consistent, goal,
    inlined_if_then, merge, top_level, work, WorkV,
};

verus! {

/// Operands that were put together come apart again: to unfold a folded term gives back the terms
/// in front and what the last one unfolds to.
pub proof fn law_unfold_fold(terms: Seq<TermV>, term: TermV, op: Seq<char>)
    ensures
        unfold(fold(terms, term, op), op) == terms + unfold(term, op),
    decreases terms.len(),
{
    if terms.len() == 0 {
        assert(terms + unfold(term, op) =~= unfold(term, op));
    } else {
        let rest = fold(terms.skip(1), term, op);
        let args = seq![terms[0], rest];
        law_unfold_fold(terms.skip(1), term, op);
        assert(args[1] == rest);
        assert(seq![terms[0]] + (terms.skip(1) + unfold(term, op)) =~= terms + unfold(term, op));
    }
}

/// The goals of a conjunction, put together anew, are the same goals.
pub proof fn law_conjunction_keeps_goals(term: TermV)
    ensures
        unfold(conjunction(unfold(term, ","@)), ","@) == unfold(term, ","@),
{
    let goals = unfold(term, ","@);
    crate::goals::lemma_unfold_nonempty(term, ","@);
    law_unfold_last(term, ","@);
    law_unfold_fold(goals.drop_last(), goals.last(), ","@);
    assert(goals.drop_last() + seq![goals.last()] =~= goals);
}

/// The last operand is no such infix term itself.
pub proof fn law_unfold_last(term: TermV, op: Seq<char>)
    ensures
        unfold(term, op).len() > 0,
        !unfold(term, op).last().is_compound(op, 2),
        unfold(unfold(term, op).last(), op) == seq![unfold(term, op).last()],
    decreases term,
{
    if term.is_compound(op, 2) {
        law_unfold_last(term.args()[1], op);
    }
}

/// Once cuts are marked, none is left to be marked, and what was no cut is as it was.
pub proof fn law_mark_cuts(terms: Seq<TermV>)
    ensures
        mark_cuts(terms).len() == terms.len(),
        forall|i: int| 0 <= i < terms.len() ==> !is_cut(#[trigger] mark_cuts(terms)[i]),
        forall|i: int|
            0 <= i < terms.len() && !is_cut(terms[i]) ==> #[trigger] mark_cuts(terms)[i]
                == terms[i],
        mark_cuts(mark_cuts(terms)) == mark_cuts(terms),
{
    assert(mark_cuts(mark_cuts(terms)) =~= mark_cuts(terms));
}

/// A cut stays inside its clause; once it is marked, it goes through the cut variable.
pub proof fn law_cuts(state: WorkV, term: TermV)
    requires
        is_cut(term),
    ensures
        goal(state, term) == (state, Ok::<QueryTermV, ParserError>(QueryTermV::BlockedCut)),
        goal(state, mark_cut(term)) == (
            state,
            Ok::<QueryTermV, ParserError>(QueryTermV::UnblockedCut),
        ),
{
}

/// No body that marks its cuts has an unmarked cut among its goals: not in a condition, and not in
/// a consequent.
pub proof fn law_no_unmarked_cut(terms: Seq<TermV>)
    ensures
        forall|i: int|
            0 <= i < body_goals(terms, false).len() ==> !is_cut(
                #[trigger] body_goals(terms, false)[i],
            ),
{
    lemma_all_conjuncts_marked(terms);
    if terms.len() == 1 && terms[0].is_compound("->"@, 2) {
        lemma_all_conjuncts_marked(
            inlined_if_then(terms[0].args()[0], terms[0].args()[1], false),
        );
    }
}

proof fn lemma_all_conjuncts_marked(terms: Seq<TermV>)
    ensures
        forall|i: int|
            0 <= i < all_conjuncts(terms, false).len() ==> !is_cut(
                #[trigger] all_conjuncts(terms, false)[i],
            ),
    decreases terms.len(),
{
    if terms.len() > 0 {
        let front = all_conjuncts(terms.drop_last(), false);
        let back = conjuncts(terms.last(), false);
        lemma_all_conjuncts_marked(terms.drop_last());
        law_mark_cuts(unfold(terms.last(), ","@));
        assert forall|i: int| 0 <= i < (front + back).len() implies !is_cut(
            #[trigger] (front + back)[i],
        ) by {
            if i < front.len() {
                assert((front + back)[i] == front[i]);
            } else {
                assert((front + back)[i] == back[i - front.len()]);
            }
        }
    }
}

/// To ask for the index of a predicate twice gives the same index, and the second time changes
/// nothing.
pub proof fn law_code_index_stays(indices: IndicesV, key: (Seq<char>, nat))
    ensures
        indices.with_code_index(key).code_index(key) == indices.code_index(key),
        indices.with_code_index(key).with_code_index(key) == indices.with_code_index(key),
{
    let after = indices.with_code_index(key);
    assert(after.code_dir.insert(key, after.code_index(key)) =~= after.code_dir);
}

/// The index of a predicate is the one in the module's own directory; or else the one in the
/// directory behind it; or else that of a new cell, which is undefined.
pub proof fn law_code_index_found(indices: IndicesV, key: (Seq<char>, nat))
    ensures
        indices.code_dir.contains_key(key) ==> {
            &&& indices.code_index(key) == indices.code_dir[key]
            &&& indices.with_code_index(key) == indices
        },
        !indices.code_dir.contains_key(key) && indices.static_code_dir.contains_key(key) ==> {
            &&& indices.code_index(key) == indices.static_code_dir[key]
            &&& indices.with_code_index(key).cells == indices.cells
        },
        !indices.code_dir.contains_key(key) && !indices.static_code_dir.contains_key(key)
            && indices.cells.len() <= usize::MAX ==> {
            &&& indices.code_index(key).0 == indices.cells.len()
            &&& indices.with_code_index(key).cells == indices.cells.push(
                (IndexPtr::Undefined, Seq::<char>::empty()),
            )
        },
{
    if indices.code_dir.contains_key(key) {
        assert(indices.code_dir.insert(key, indices.code_dir[key]) =~= indices.code_dir);
    }
}

/// An index that is asked for is entered into the module's own directory. No other entry changes,
/// nor do the directory behind and the forms.
pub proof fn law_code_index_entered(indices: IndicesV, key: (Seq<char>, nat))
    ensures
        indices.with_code_index(key).code_dir == indices.code_dir.insert(
            key,
            indices.code_index(key),
        ),
        indices.with_code_index(key).static_code_dir == indices.static_code_dir,
        indices.with_code_index(key).forms == indices.forms,
{
}

/// Predicates that have no index yet do not share one, and to ask for one index does not change
/// another that is known.
pub proof fn law_code_indices_apart(
    indices: IndicesV,
    key: (Seq<char>, nat),
    other: (Seq<char>, nat),
)
    requires
        key != other,
    ensures
        indices.known(other) is Some ==> indices.with_code_index(key).code_index(other)
            == indices.code_index(other),
        indices.known(key) is None && indices.known(other) is None && indices.cells.len()
            < usize::MAX ==> indices.with_code_index(key).code_index(other) != indices.code_index(
            key,
        ),
{
}

/// An operator that a directive declares is one that the parser can work with.
pub proof fn law_declared_operators(term: TermV, op: OpEntryV)
    requires
        declaration(term) matches Ok(DeclarationV::Op(decl)) && op.precedence == decl.precedence
            && op.specifier == decl.specifier,
    ensures
        is_operator(op),
{
}

/// What a term is not consistent with is never nothing.
pub proof fn law_inconsistent_clauses(tl: TopLevelV, clauses: Seq<PredicateClauseV>)
    requires
        !consistent(tl, clauses),
    ensures
        clauses.len() > 0,
{
}

/// The clauses of several terms, in order.
pub open spec fn all_clauses_of(tls: Seq<TopLevelV>) -> Seq<PredicateClauseV>
    decreases tls.len(),
{
    if tls.len() == 0 {
        Seq::empty()
    } else {
        clauses_of(tls[0]) + all_clauses_of(tls.drop_first())
    }
}

/// A predicate that is merged from terms has all the clauses of the terms that were taken, in
/// order, and the terms that are left follow those.
pub proof fn law_merge_keeps_clauses(tls: Seq<TopLevelV>)
    ensures
        merge(Seq::empty(), tls).1 matches Ok(TopLevelV::Predicate(clauses)) ==> {
            let taken = tls.len() - merge(Seq::empty(), tls).0.len();
            &&& 0 <= taken <= tls.len()
            &&& merge(Seq::empty(), tls).0 == tls.skip(taken)
            &&& clauses == all_clauses_of(tls.take(taken))
            &&& clauses.len() > 0
        },
{
    lemma_merge_keeps_clauses(Seq::empty(), tls);
    if let Ok(TopLevelV::Predicate(clauses)) = merge(Seq::empty(), tls).1 {
        let taken = tls.len() - merge(Seq::empty(), tls).0.len();
        assert(Seq::empty() + all_clauses_of(tls.take(taken)) =~= all_clauses_of(tls.take(taken)));
    }
}

proof fn lemma_merge_keeps_clauses(done: Seq<PredicateClauseV>, tls: Seq<TopLevelV>)
    ensures
        merge(done, tls).1 matches Ok(TopLevelV::Predicate(clauses)) ==> {
            let taken = tls.len() - merge(done, tls).0.len();
            &&& 0 <= taken <= tls.len()
            &&& merge(done, tls).0 == tls.skip(taken)
            &&& clauses == done + all_clauses_of(tls.take(taken))
            &&& clauses.len() > 0
        },
    decreases tls.len(),
{
    assert(tls.skip(0) =~= tls);
    assert(tls.take(0) =~= Seq::empty());
    assert(done + Seq::<PredicateClauseV>::empty() =~= done);
    if tls.len() > 0 {
        let rest = tls.drop_first();
        let more = done + clauses_of(tls[0]);
        lemma_merge_keeps_clauses(more, rest);
        let left = merge(more, rest).0;
        let taken = rest.len() - left.len();
        if 0 <= taken <= rest.len() {
            assert(tls.take(taken + 1).drop_first() =~= rest.take(taken));
            assert(tls.skip(taken + 1) =~= rest.skip(taken));
            assert(done + (clauses_of(tls[0]) + all_clauses_of(rest.take(taken))) =~= more
                + all_clauses_of(rest.take(taken)));
        }
    }
}

/// Clauses with one name and one arity.
pub open spec fn agree(clauses: Seq<PredicateClauseV>) -> bool {
    forall|i: int|
        0 <= i < clauses.len() ==> (#[trigger] clauses[i]).name() == clauses[0].name()
            && clauses[i].arity() == clauses[0].arity()
}

/// The clauses of a predicate that is merged from terms have one name and one arity, where every
/// predicate among the terms does.
pub proof fn law_merged_clauses_agree(tls: Seq<TopLevelV>)
    requires
        forall|i: int| 0 <= i < tls.len() ==> agree(clauses_of(#[trigger] tls[i])),
    ensures
        merge(Seq::empty(), tls).1 matches Ok(TopLevelV::Predicate(clauses)) ==> agree(clauses),
{
    lemma_merged_clauses_agree(Seq::empty(), tls);
}

proof fn lemma_merged_clauses_agree(done: Seq<PredicateClauseV>, tls: Seq<TopLevelV>)
    requires
        agree(done),
        forall|i: int| 0 <= i < tls.len() ==> agree(clauses_of(#[trigger] tls[i])),
    ensures
        merge(done, tls).1 matches Ok(TopLevelV::Predicate(clauses)) ==> agree(clauses),
    decreases tls.len(),
{
    if tls.len() > 0 && !(tls[0] is Query) && !(tls[0] is Declaration) && consistent(tls[0], done) {
        let more = clauses_of(tls[0]);
        let all = done + more;
        assert(agree(more));
        assert forall|i: int| 0 <= i < all.len() implies (#[trigger] all[i]).name()
            == all[0].name() && all[i].arity() == all[0].arity() by {
            if i >= done.len() {
                assert(all[i] == more[i - done.len()]);
                assert(more[0].name() == tls[0].name() && more[0].arity() == tls[0].arity());
            }
        }
        let rest = tls.drop_first();
        assert forall|i: int| 0 <= i < rest.len() implies agree(clauses_of(#[trigger] rest[i])) by {
            assert(rest[i] == tls[i + 1]);
        }
        lemma_merged_clauses_agree(all, rest);
    }
}

/// A term is a query if and only if it is written as one, whatever else it may be.
pub proof fn law_query_is_written(state: WorkV, term: TermV, blocks_cuts: bool)
    ensures
        top_level(state, term, blocks_cuts).1 matches Ok(tl) ==> (tl is Query <==> (
        term matches TermV::Clause(name, _, _) && name == "?-"@)),
{
    reveal(top_level);
    reveal_strlit("?-");
    reveal_strlit(":-");
    reveal_strlit("term_expansion");
    assert("?-"@[0] == '?' && ":-"@[0] == ':' && "term_expansion"@[0] == 't');
}

/// A fact leaves the queue and the directories as they were.
pub proof fn law_fact_changes_nothing(state: WorkV, term: TermV, blocks_cuts: bool)
    ensures
        top_level(state, term, blocks_cuts).1 matches Ok(TopLevelV::Fact(fact)) ==> fact == term
            && top_level(state, term, blocks_cuts).0 == state,
{
    reveal(top_level);
}

/// The clauses that were read so far: those of the complete predicates and those of the predicate
/// that is being read.
pub open spec fn read_clauses(state: BatchV) -> Seq<PredicateClauseV> {
    complete_clauses(state.results) + state.preds
}

/// The clauses of complete predicates, in order.
pub open spec fn complete_clauses(
    results: Seq<(Seq<PredicateClauseV>, Seq<TopLevelV>)>,
) -> Seq<PredicateClauseV>
    decreases results.len(),
{
    if results.len() == 0 {
        Seq::empty()
    } else {
        complete_clauses(results.drop_last()) + results.last().0
    }
}

proof fn lemma_flush_keeps_clauses(state: BatchV, indices: IndicesV)
    ensures
        flush(state, indices).2 is Ok ==> read_clauses(flush(state, indices).0) == read_clauses(
            state,
        ),
{
    let after = flush(state, indices).0;
    if flush(state, indices).2 is Ok {
        assert(after.results.drop_last() =~= state.results);
        assert(read_clauses(after) =~= complete_clauses(after.results));
    }
}

/// No clause is lost and none changes its place: a term that is taken in adds its clauses at the
/// end, and a declaration, a query and the end of the file add none.
pub proof fn law_take_keeps_clauses(
    state: BatchV,
    indices: IndicesV,
    item: Result<Option<TermV>, ParserError>,
)
    requires
        state.wf(),
    ensures
        match item {
            Ok(Some(term)) => {
                let tl = top_level(work(Seq::empty(), indices), term, true).1;
                match take(state, indices, item).2 {
                    Err(SessionError::ParserError(_)) => true,
                    _ => read_clauses(take(state, indices, item).0) == read_clauses(state)
                        + clauses_of(tl->Ok_0),
                }
            },
            Ok(None) => take(state, indices, item).2 is Ok ==> {
                &&& read_clauses(take(state, indices, item).0) == read_clauses(state)
                &&& take(state, indices, item).0.preds.len() == 0
            },
            Err(_) => true,
        },
{
    match item {
        Ok(Some(term)) => {
            let (translated, tl) = top_level(work(Seq::empty(), indices), term, true);
            if let Ok(tl) = tl {
                assert(state.preds.len() > 0 ==> state.preds[0].name() is Some);
                lemma_flush_keeps_clauses(state, translated.indices);
                let ready = if consistent(tl, state.preds) {
                    state
                } else {
                    flush(state, translated.indices).0
                };
                assert(complete_clauses(ready.results) + (ready.preds + clauses_of(tl))
                    =~= read_clauses(ready) + clauses_of(tl));
                if tl is Declaration || tl is Query {
                    assert(ready.preds =~= Seq::empty());
                }
            }
        },
        Ok(None) => {
            lemma_flush_keeps_clauses(state, indices);
        },
        Err(_) => {},
    }
}

/// Complete predicates stay as they are, whatever comes after them.
pub proof fn law_results_stay(
    state: BatchV,
    indices: IndicesV,
    item: Result<Option<TermV>, ParserError>,
)
    ensures
        state.results.is_prefix_of(take(state, indices, item).0.results),
        take(state, indices, item).0.in_module == state.in_module,
{
    let after = take(state, indices, item).0;
    assert(state.results =~= after.results.subrange(0, state.results.len() as int));
}

/// A predicate is complete only when something else follows it: a clause goes on with the
/// predicate that is being read as long as name and arity are the same.
pub proof fn law_predicate_goes_on(state: BatchV, indices: IndicesV, term: TermV)
    requires
        take(state, indices, Ok(Some(term))).2 == Ok::<ProgressV, SessionError>(ProgressV::More),
    ensures
        ({
            let tl = top_level(work(Seq::empty(), indices), term, true).1->Ok_0;
            let after = take(state, indices, Ok(Some(term))).0;
            if consistent(tl, state.preds) {
                after.results == state.results && after.preds == state.preds + clauses_of(tl)
            } else {
                after.results.len() == state.results.len() + 1 && after.results.last().0
                    == state.preds && after.preds == clauses_of(tl)
            }
        }),
{
    let tl = top_level(work(Seq::empty(), indices), term, true).1->Ok_0;
    assert(Seq::empty() + clauses_of(tl) =~= clauses_of(tl));
}

} // verus!
