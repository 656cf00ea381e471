//! What holds of a whole file of terms.
use vstd::prelude::*;

use crate::ast::{ParserError, TermV};
use crate::batch::{
    flush, is_one_predicate, law_take_keeps, take, take_term, BatchV, ProgressV, SessionError,
};
use crate::code::IndicesV;
use crate::growth::{keeps, lemma_keeps_refl, lemma_keeps_trans};
use crate::jumps::{is_linked, law_take_links, queue_vars};
use crate::laws::{
    all_clauses_of, complete_clauses, law_predicate_goes_on, law_results_stay,
    law_take_keeps_clauses, read_clauses,
};
use crate::program::{PredicateClauseV, TopLevelV};
use crate::translation::{clauses_of, consistent, top_level, work};

verus! {

/// Takes in terms, one after another, up to the first that cannot be taken in; and what each of
/// them is.
pub open spec fn take_all(state: BatchV, indices: IndicesV, terms: Seq<TermV>) -> (
    BatchV,
    IndicesV,
    Result<Seq<TopLevelV>, SessionError>,
)
    decreases terms.len(),
{
    if terms.len() == 0 {
        (state, indices, Ok(Seq::empty()))
    } else {
        let (before, known, done) = take_all(state, indices, terms.drop_last());
        match done {
            Ok(tls) => {
                let (after, grown, progress) = take_term(before, known, terms.last());
                let tl = top_level(work(Seq::empty(), known), terms.last(), true).1;
                match progress {
                    Ok(_) => (after, grown, Ok(tls.push(tl->Ok_0))),
                    Err(e) => (after, grown, Err(e)),
                }
            },
            Err(e) => (before, known, Err(e)),
        }
    }
}

proof fn lemma_flush_wf(state: BatchV, indices: IndicesV)
    requires
        state.wf(),
        state.preds.len() > 0,
    ensures
        flush(state, indices).0.wf(),
{
    let after = flush(state, indices).0;
    assert forall|i: int| 0 <= i < after.results.len() implies (
    #[trigger] after.results[i]).0.len() > 0 && is_one_predicate(after.results[i].0) by {
        if i < state.results.len() {
            assert(after.results[i] == state.results[i]);
        }
    }
}

/// Whatever is taken in, the clauses of each predicate belong together, and every complete
/// predicate has a clause.
pub proof fn law_take_wf(
    state: BatchV,
    indices: IndicesV,
    item: Result<Option<TermV>, ParserError>,
)
    requires
        state.wf(),
    ensures
        take(state, indices, item).0.wf(),
{
    match item {
        Ok(Some(term)) => {
            let (translated, tl) = top_level(work(Seq::empty(), indices), term, true);
            reveal(top_level);
            if let Ok(tl) = tl {
                if !consistent(tl, state.preds) {
                    lemma_flush_wf(state, translated.indices);
                }
            }
        },
        Ok(None) => {
            if state.preds.len() > 0 {
                lemma_flush_wf(state, indices);
            }
        },
        Err(_) => {},
    }
}

proof fn lemma_all_clauses_push(tls: Seq<TopLevelV>, tl: TopLevelV)
    ensures
        all_clauses_of(tls.push(tl)) == all_clauses_of(tls) + clauses_of(tl),
    decreases tls.len(),
{
    if tls.len() == 0 {
        let none: Seq<TopLevelV> = Seq::empty();
        assert(tls.push(tl).drop_first() =~= none);
        assert(all_clauses_of(none) =~= Seq::empty());
        assert(tls.push(tl)[0] == tl);
        assert(all_clauses_of(tls.push(tl)) =~= clauses_of(tl));
        assert(all_clauses_of(tls) + clauses_of(tl) =~= clauses_of(tl));
    } else {
        lemma_all_clauses_push(tls.drop_first(), tl);
        assert(tls.push(tl).drop_first() =~= tls.drop_first().push(tl));
        assert(all_clauses_of(tls.push(tl)) =~= all_clauses_of(tls) + clauses_of(tl));
    }
}

/// Terms that are taken in leave their clauses in the order in which they were read, the jumps of
/// the clauses linked, and every cell and entry that was there.
pub proof fn law_terms_taken_in(state: BatchV, indices: IndicesV, terms: Seq<TermV>)
    requires
        state.wf(),
    ensures
        take_all(state, indices, terms).0.wf(),
        keeps(indices, take_all(state, indices, terms).1),
        take_all(state, indices, terms).2 matches Ok(tls) ==> {
            &&& tls.len() == terms.len()
            &&& read_clauses(take_all(state, indices, terms).0) == read_clauses(state)
                + all_clauses_of(tls)
            &&& is_linked(state) ==> is_linked(take_all(state, indices, terms).0)
        },
    decreases terms.len(),
{
    if terms.len() == 0 {
        lemma_keeps_refl(indices);
        assert(read_clauses(state) + all_clauses_of(Seq::empty()) =~= read_clauses(state));
    } else {
        law_terms_taken_in(state, indices, terms.drop_last());
        let (before, known, done) = take_all(state, indices, terms.drop_last());
        if let Ok(tls) = done {
            let item: Result<Option<TermV>, ParserError> = Ok(Some(terms.last()));
            let (after, grown, progress) = take(before, known, item);
            law_take_wf(before, known, item);
            law_take_keeps(before, known, item);
            lemma_keeps_trans(indices, known, grown);
            if progress is Ok {
                let tl = top_level(work(Seq::empty(), known), terms.last(), true).1->Ok_0;
                law_take_keeps_clauses(before, known, item);
                lemma_all_clauses_push(tls, tl);
                assert(read_clauses(state) + all_clauses_of(tls) + clauses_of(tl) =~= read_clauses(
                    state,
                ) + (all_clauses_of(tls) + clauses_of(tl)));
                if is_linked(state) {
                    law_take_links(before, known, item);
                }
            }
        }
    }
}

/// Clauses of two predicates.
pub open spec fn are_apart(fst: Seq<PredicateClauseV>, snd: Seq<PredicateClauseV>) -> bool {
    fst[0].name() != snd[0].name() || fst[0].arity() != snd[0].arity()
}

/// What was read after the complete predicate `i`: the next one, or else the predicate that is
/// being read.
pub open spec fn successor(state: BatchV, i: int) -> Seq<PredicateClauseV> {
    if i + 1 < state.results.len() {
        state.results[i + 1].0
    } else {
        state.preds
    }
}

/// Terms without a declaration among them: each predicate that they complete differs in name or
/// arity from the one that follows it.
pub proof fn law_neighbours_differ(state: BatchV, indices: IndicesV, terms: Seq<TermV>)
    requires
        state.wf(),
        take_all(state, indices, terms).2 matches Ok(tls) && forall|i: int|
            0 <= i < tls.len() ==> !(#[trigger] tls[i] is Declaration),
    ensures
        ({
            let after = take_all(state, indices, terms).0;
            &&& state.results.is_prefix_of(after.results)
            &&& after.results.len() > state.results.len() ==> after.preds.len() > 0
            &&& forall|i: int|
                state.results.len() <= i < after.results.len() ==> are_apart(
                    (#[trigger] after.results[i]).0,
                    successor(after, i),
                )
        }),
    decreases terms.len(),
{
    if terms.len() == 0 {
        assert(state.results =~= state.results.subrange(0, state.results.len() as int));
    } else {
        let tls = take_all(state, indices, terms).2->Ok_0;
        let (before, known, done) = take_all(state, indices, terms.drop_last());
        let front = done->Ok_0;
        assert forall|i: int| 0 <= i < front.len() implies !(
        #[trigger] front[i] is Declaration) by {
            assert(tls[i] == front[i]);
        }
        law_terms_taken_in(state, indices, terms.drop_last());
        law_neighbours_differ(state, indices, terms.drop_last());
        let item: Result<Option<TermV>, ParserError> = Ok(Some(terms.last()));
        let after = take(before, known, item).0;
        let tl = top_level(work(Seq::empty(), known), terms.last(), true).1->Ok_0;
        assert(tls[tls.len() - 1] == tl);
        assert(tl is Fact || tl is Rule) by {
            reveal(top_level);
        }
        law_predicate_goes_on(before, known, terms.last());
        law_results_stay(before, known, item);
        assert(before.results =~= after.results.subrange(0, before.results.len() as int));
        assert forall|i: int| 0 <= i < state.results.len() implies state.results[i]
            == after.results[i] by {
            assert(state.results[i] == before.results.subrange(
                0,
                state.results.len() as int,
            )[i]);
            assert(before.results[i] == after.results.subrange(
                0,
                before.results.len() as int,
            )[i]);
        }
        assert(state.results =~= after.results.subrange(0, state.results.len() as int));
        assert forall|i: int| state.results.len() <= i < after.results.len() implies are_apart(
            (#[trigger] after.results[i]).0,
            successor(after, i),
        ) by {
            if i < before.results.len() {
                assert(after.results[i] == before.results[i]);
                assert(are_apart(before.results[i].0, successor(before, i)));
                if i + 1 < before.results.len() {
                    assert(after.results[i + 1] == before.results[i + 1]);
                }
            }
        }
    }
}

/// A file that is taken in to its end is complete: the predicates that came out of it have all of
/// its clauses, in order, and nothing waits. Where no declaration stands between them, neighbours
/// differ in name or arity.
pub proof fn law_file_taken_in(state: BatchV, indices: IndicesV, terms: Seq<TermV>)
    requires
        state.queue.len() == 0,
        state.results.len() == 0,
        state.preds.len() == 0,
    ensures
        ({
            let (before, known, done) = take_all(state, indices, terms);
            let (after, _, progress) = take(before, known, Ok(None));
            done is Ok && progress is Ok ==> {
                &&& progress == Ok::<ProgressV, SessionError>(ProgressV::Finished)
                &&& complete_clauses(after.results) == all_clauses_of(done->Ok_0)
                &&& after.preds.len() == 0
                &&& after.queue.len() == 0
                &&& after.wf()
                &&& is_linked(after)
                &&& (forall|i: int|
                    0 <= i < done->Ok_0.len() ==> !(#[trigger] done->Ok_0[i] is Declaration))
                    ==> forall|i: int|
                    0 <= i < after.results.len() - 1 ==> are_apart(
                        (#[trigger] after.results[i]).0,
                        after.results[i + 1].0,
                    )
            }
        }),
{
    assert(state.queue =~= Seq::empty());
    assert(queue_vars(state.queue) =~= Seq::empty());
    assert(is_linked(state));
    law_terms_taken_in(state, indices, terms);
    let (before, known, done) = take_all(state, indices, terms);
    let (after, _, progress) = take(before, known, Ok(None));
    if let Ok(tls) = done {
        if progress is Ok {
            law_take_keeps_clauses(before, known, Ok(None));
            law_take_wf(before, known, Ok(None));
            law_take_links(before, known, Ok(None));
            assert(read_clauses(after) =~= complete_clauses(after.results));
            assert(read_clauses(state) =~= Seq::empty());
            assert(Seq::empty() + all_clauses_of(tls) =~= all_clauses_of(tls));
            assert(queue_vars(after.queue).len() == after.queue.len());
            if forall|i: int| 0 <= i < tls.len() ==> !(#[trigger] tls[i] is Declaration) {
                law_neighbours_differ(state, indices, terms);
                assert forall|i: int| 0 <= i < after.results.len() - 1 implies are_apart(
                    (#[trigger] after.results[i]).0,
                    after.results[i + 1].0,
                ) by {
                    assert(after.results[i] == before.results[i]);
                    assert(are_apart(before.results[i].0, successor(before, i)));
                    if i + 1 < before.results.len() {
                        assert(after.results[i + 1] == before.results[i + 1]);
                    }
                }
            }
        }
    }
}

} // verus!
