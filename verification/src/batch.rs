//! Whole terms: one at a time, or a file of them.
use vstd::prelude::*;

use std::collections::VecDeque;

use crate::ast::{lemma_term_view, lemma_terms_view, outcome, ParserError, Term, TermV};
use crate::code::{CodeCells, CodeDir, CodeIndex, CompositeIndices, IndexStore, IndicesV};
use crate::growth::{
    keeps, law_translation_keeps, lemma_keeps_refl, lemma_keeps_trans, lemma_split_predicates_keep,
};
use crate::predicates::{append_preds, deque_to_packet, is_consistent};
use crate::program::{
    clauses_view, lemma_top_level_view, top_levels_view, Declaration, DeclarationV, Predicate,
    PredicateClause, PredicateClauseV, TopLevel, TopLevelPacket, TopLevelPacketV, TopLevelV,
};
use crate::relation::RelationWorker;
use crate::translation::{
    clauses_of, consistent, is_bodiless_hook, packet, split_predicates, top_level, work,
};

verus! {

broadcast use {lemma_terms_view, lemma_term_view, lemma_top_level_view};

/// What goals are resolved against in a module with the directory `behind` it.
pub open spec fn indices_view(
    local: IndexStore,
    behind: Map<(Seq<char>, nat), CodeIndex>,
    cells: CodeCells,
) -> IndicesV {
    IndicesV {
        code_dir: local.code_dir@,
        static_code_dir: behind,
        forms: local.forms@,
        cells: cells@,
    }
}

/// What one term is, with the predicates that are split off it.
pub open spec fn term_packet(indices: IndicesV, term: TermV) -> (
    IndicesV,
    Result<TopLevelPacketV, ParserError>,
) {
    let (translated, tl) = top_level(work(Seq::empty(), indices), term, true);
    match tl {
        Ok(tl) => {
            let (after, queue) = split_predicates(translated);
            (
                after.indices,
                match queue {
                    Ok(queue) => Ok(packet(tl, queue)),
                    Err(e) => Err(e),
                },
            )
        },
        Err(e) => (translated.indices, Err(e)),
    }
}

/// Translates one term by itself.
pub fn consume_term(term: Term, indices: &mut IndexStore, cells: &mut CodeCells) -> (r: Result<
    TopLevelPacket,
    ParserError,
>)
    requires
        !is_bodiless_hook(term@),
    ensures
        (indices_view(*final(indices), Map::empty(), *final(cells)), outcome(r)) == term_packet(
            indices_view(*old(indices), Map::empty(), *old(cells)),
            term@,
        ),
        final(indices).op_dir == old(indices).op_dir,
{
    let mut rel_worker = RelationWorker::new();
    let code_dir: CodeDir = CodeDir::new();
    let mut indices = CompositeIndices { local: indices, static_code_dir: Some(&code_dir), cells };

    proof {
        let start = work(rel_worker@, indices@);
        let translated = top_level(start, term@, true).0;
        law_translation_keeps(start, term@, true);
        lemma_split_predicates_keep(translated);
    }
    let tl = match rel_worker.try_term_to_tl(&mut indices, term, true) {
        Ok(tl) => tl,
        Err(e) => {
            return Err(e);
        },
    };
    match rel_worker.parse_queue(&mut indices) {
        Ok(results) => Ok(deque_to_packet(tl, results)),
        Err(e) => Err(e),
    }
}

/// Why a file cannot be taken in.
#[derive(Clone, Copy, Debug, PartialEq, Eq, Structural)]
pub enum SessionError {
    /// A query, which defines nothing.
    NamelessEntry,
    ParserError(ParserError),
}

/// How far a file has been taken in.
#[derive(Debug)]
pub enum Progress {
    /// The term was a clause; there may be more.
    More,
    /// The term was a declaration, which is for the caller to carry out.
    Declaration(Declaration),
    /// There are no more terms.
    Finished,
}

/// The view of a `Progress`.
pub enum ProgressV {
    More,
    Declaration(DeclarationV),
    Finished,
}

impl View for Progress {
    type V = ProgressV;

    open spec fn view(&self) -> ProgressV {
        match *self {
            Progress::More => ProgressV::More,
            Progress::Declaration(decl) => ProgressV::Declaration(decl@),
            Progress::Finished => ProgressV::Finished,
        }
    }
}

/// The view of how a term was taken in.
pub open spec fn progress_outcome(r: Result<Progress, SessionError>) -> Result<
    ProgressV,
    SessionError,
> {
    match r {
        Ok(progress) => Ok(progress@),
        Err(e) => Err(e),
    }
}

/// Takes in a file, term by term, and gathers the clauses of each predicate as long as they follow
/// one another.
#[derive(Debug)]
pub struct TopLevelBatchWorker {
    /// The predicates split off the clauses in `preds`, not translated yet.
    pub rel_worker: RelationWorker,
    /// The predicates that are complete, each with those that were split off it.
    pub results: Vec<(Predicate, VecDeque<TopLevel>)>,
    /// The clauses of the predicate that is being read.
    pub preds: Vec<PredicateClause>,
    /// Whether a module is being read: then no directory stands behind its own.
    pub in_module: bool,
}

/// The view of a `TopLevelBatchWorker`.
pub struct BatchV {
    pub queue: Seq<Seq<TermV>>,
    pub results: Seq<(Seq<PredicateClauseV>, Seq<TopLevelV>)>,
    pub preds: Seq<PredicateClauseV>,
    pub in_module: bool,
}

/// The views of complete predicates, one for one.
pub open spec fn results_view(results: Seq<(Predicate, VecDeque<TopLevel>)>) -> Seq<
    (Seq<PredicateClauseV>, Seq<TopLevelV>),
> {
    results.map_values(
        |result: (Predicate, VecDeque<TopLevel>)| (result.0@, top_levels_view(result.1@)),
    )
}

impl View for TopLevelBatchWorker {
    type V = BatchV;

    open spec fn view(&self) -> BatchV {
        BatchV {
            queue: self.rel_worker@,
            results: results_view(self.results@),
            preds: clauses_view(self.preds@),
            in_module: self.in_module,
        }
    }
}

/// Clauses of one predicate, which has a name.
pub open spec fn is_one_predicate(clauses: Seq<PredicateClauseV>) -> bool {
    forall|i: int|
        0 <= i < clauses.len() ==> (#[trigger] clauses[i]).name() is Some && clauses[i].name()
            == clauses[0].name() && clauses[i].arity() == clauses[0].arity()
}

impl BatchV {
    /// The clauses of each predicate belong together, and a complete predicate has a clause.
    pub open spec fn wf(self) -> bool {
        &&& is_one_predicate(self.preds)
        &&& forall|i: int|
            0 <= i < self.results.len() ==> (#[trigger] self.results[i]).0.len() > 0
                && is_one_predicate(self.results[i].0)
    }

    /// The directory behind the one of the module that is being read.
    pub open spec fn behind(self, static_code_dir: Map<(Seq<char>, nat), CodeIndex>) -> Map<
        (Seq<char>, nat),
        CodeIndex,
    > {
        if self.in_module {
            Map::empty()
        } else {
            static_code_dir
        }
    }

    /// Nothing is being read.
    pub open spec fn idle(self) -> BatchV {
        BatchV { preds: Seq::empty(), ..self }
    }
}

/// Completes the predicate that is being read: what was split off it is translated.
pub open spec fn flush(state: BatchV, indices: IndicesV) -> (
    BatchV,
    IndicesV,
    Result<(), ParserError>,
) {
    let (after, queue) = split_predicates(work(state.queue, indices));
    let idle = BatchV { queue: after.queue, ..state.idle() };
    match queue {
        Ok(queue) => (
            BatchV { results: state.results.push((state.preds, queue)), ..idle },
            after.indices,
            Ok(()),
        ),
        Err(e) => (idle, after.indices, Err(e)),
    }
}

/// Takes in one term. What it is decides whether the predicate that is being read goes on.
pub open spec fn take_term(state: BatchV, indices: IndicesV, term: TermV) -> (
    BatchV,
    IndicesV,
    Result<ProgressV, SessionError>,
) {
    let (translated, tl) = top_level(work(Seq::empty(), indices), term, true);
    match tl {
        Ok(tl) => {
            let (ready, indices, flushed) = if consistent(tl, state.preds) {
                (state, translated.indices, Ok(()))
            } else {
                flush(state, translated.indices)
            };
            let joined = BatchV { queue: ready.queue + translated.queue, ..ready };
            match (flushed, tl) {
                (Err(e), _) => (ready, indices, Err(SessionError::ParserError(e))),
                (Ok(_), TopLevelV::Declaration(decl)) => (
                    joined.idle(),
                    indices,
                    Ok(ProgressV::Declaration(decl)),
                ),
                (Ok(_), TopLevelV::Query(_)) => (
                    joined.idle(),
                    indices,
                    Err(SessionError::NamelessEntry),
                ),
                (Ok(_), _) => (
                    BatchV { preds: joined.preds + clauses_of(tl), ..joined },
                    indices,
                    Ok(ProgressV::More),
                ),
            }
        },
        Err(e) => (state.idle(), translated.indices, Err(SessionError::ParserError(e))),
    }
}

/// Takes in what was read next: a term, the end of the file, or an error in place of either.
pub open spec fn take(
    state: BatchV,
    indices: IndicesV,
    item: Result<Option<TermV>, ParserError>,
) -> (BatchV, IndicesV, Result<ProgressV, SessionError>) {
    match item {
        Ok(Some(term)) => take_term(state, indices, term),
        Ok(None) => if state.preds.len() > 0 {
            let (after, indices, flushed) = flush(state, indices);
            (
                after,
                indices,
                match flushed {
                    Ok(_) => Ok(ProgressV::Finished),
                    Err(e) => Err(SessionError::ParserError(e)),
                },
            )
        } else {
            (state, indices, Ok(ProgressV::Finished))
        },
        Err(e) => (state.idle(), indices, Err(SessionError::ParserError(e))),
    }
}

/// The view of what was read.
pub open spec fn item_view(item: Result<Option<Term>, ParserError>) -> Result<
    Option<TermV>,
    ParserError,
> {
    match item {
        Ok(Some(term)) => Ok(Some(term@)),
        Ok(None) => Ok(None),
        Err(e) => Err(e),
    }
}

proof fn lemma_flush_keeps(state: BatchV, indices: IndicesV)
    ensures
        keeps(indices, flush(state, indices).1),
{
    lemma_split_predicates_keep(work(state.queue, indices));
}

/// Taking in a term keeps every cell, every entry of the directory, the directory behind it and
/// the forms.
pub proof fn law_take_keeps(
    state: BatchV,
    indices: IndicesV,
    item: Result<Option<TermV>, ParserError>,
)
    ensures
        keeps(indices, take(state, indices, item).1),
{
    lemma_keeps_refl(indices);
    lemma_flush_keeps(state, indices);
    if let Ok(Some(term)) = item {
        let start = work(Seq::empty(), indices);
        law_translation_keeps(start, term, true);
        let translated = top_level(start, term, true).0.indices;
        lemma_flush_keeps(state, translated);
        lemma_keeps_trans(indices, translated, flush(state, translated).1);
    }
}

impl TopLevelBatchWorker {
    /// Only predicates that were split off wait; the clauses of each predicate belong together.
    pub open spec fn wf(self) -> bool {
        self.rel_worker.wf() && self@.wf()
    }

    /// Nothing was read yet, and no module is being read.
    pub fn new() -> (r: Self)
        ensures
            r.wf(),
            r@.queue == Seq::<Seq<TermV>>::empty(),
            r@.results == Seq::<(Seq<PredicateClauseV>, Seq<TopLevelV>)>::empty(),
            r@.preds == Seq::<PredicateClauseV>::empty(),
            !r@.in_module,
    {
        let r = TopLevelBatchWorker {
            rel_worker: RelationWorker::new(),
            results: Vec::new(),
            preds: Vec::new(),
            in_module: false,
        };
        assert(r@.results =~= Seq::empty());
        assert(r@.preds =~= Seq::empty());
        r
    }

    /// Completes the predicate that is being read.
    fn flush_preds(&mut self, indices: &mut CompositeIndices) -> (r: Result<(), ParserError>)
        requires
            old(self).wf(),
            old(self)@.preds.len() > 0,
        ensures
            (final(self)@, final(indices)@, r) == flush(old(self)@, old(indices)@),
            final(self).wf(),
            final(indices).local.op_dir == old(indices).local.op_dir,
            *final(final(indices).local) == *final(old(indices).local),
            *final(final(indices).cells) == *final(old(indices).cells),
    {
        let ghost before = self@;
        let pred = append_preds(&mut self.preds);
        assert(self@.preds =~= Seq::empty());
        match self.rel_worker.parse_queue(indices) {
            Ok(queue) => {
                self.results.push((pred, queue));
                assert(self@.results =~= before.results.push((pred@, top_levels_view(queue@))));
                assert forall|i: int| 0 <= i < self@.results.len() implies (
                #[trigger] self@.results[i]).0.len() > 0 && is_one_predicate(
                    self@.results[i].0,
                ) by {
                    if i < before.results.len() {
                        assert(before.results[i].0.len() > 0);
                    }
                }
                assert(self@.wf());
                Ok(())
            },
            Err(e) => {
                assert(self@.results =~= before.results);
                assert(self@.wf());
                Err(e)
            },
        }
    }

    /// Takes in one term.
    fn consume_clause(&mut self, term: Term, indices: &mut CompositeIndices) -> (r: Result<
        Progress,
        SessionError,
    >)
        requires
            old(self).wf(),
            !is_bodiless_hook(term@),
        ensures
            (final(self)@, final(indices)@, progress_outcome(r)) == take_term(
                old(self)@,
                old(indices)@,
                term@,
            ),
            final(self).wf(),
            final(indices).local.op_dir == old(indices).local.op_dir,
            *final(final(indices).local) == *final(old(indices).local),
            *final(final(indices).cells) == *final(old(indices).cells),
    {
        reveal(top_level);
        let mut new_rel_worker = RelationWorker::new();
        let tl = match new_rel_worker.try_term_to_tl(indices, term, true) {
            Ok(tl) => tl,
            Err(e) => {
                self.preds = Vec::new();
                assert(self@.preds =~= Seq::empty());
                return Err(SessionError::ParserError(e));
            },
        };

        if !is_consistent(&tl, &self.preds) {
            match self.flush_preds(indices) {
                Ok(_) => {},
                Err(e) => {
                    return Err(SessionError::ParserError(e));
                },
            }
        }
        self.rel_worker.absorb(new_rel_worker);

        let ghost ready = self@;
        match tl {
            TopLevel::Fact(fact) => self.preds.push(PredicateClause::Fact(fact)),
            TopLevel::Rule(rule) => self.preds.push(PredicateClause::Rule(rule)),
            TopLevel::Predicate(pred) => {
                let mut pred = pred;
                self.preds.append(&mut pred.0);
            },
            TopLevel::Declaration(decl) => {
                self.preds = Vec::new();
                assert(self@.preds =~= Seq::empty());
                return Ok(Progress::Declaration(decl));
            },
            TopLevel::Query(_) => {
                self.preds = Vec::new();
                assert(self@.preds =~= Seq::empty());
                return Err(SessionError::NamelessEntry);
            },
        }
        assert(self@.preds =~= ready.preds + clauses_of(tl@));
        Ok(Progress::More)
    }

    /// Takes in what was read next: a term, `None` at the end of the file, or the error that came
    /// in place of either. `static_code_dir` is the directory behind that of the file.
    pub fn consume(
        &mut self,
        item: Result<Option<Term>, ParserError>,
        indices: &mut IndexStore,
        static_code_dir: &CodeDir,
        cells: &mut CodeCells,
    ) -> (r: Result<Progress, SessionError>)
        requires
            old(self).wf(),
            item matches Ok(Some(term)) ==> !is_bodiless_hook(term@),
        ensures
            (
                final(self)@,
                indices_view(
                    *final(indices),
                    old(self)@.behind(static_code_dir@),
                    *final(cells),
                ),
                progress_outcome(r),
            ) == take(
                old(self)@,
                indices_view(*old(indices), old(self)@.behind(static_code_dir@), *old(cells)),
                item_view(item),
            ),
            final(self).wf(),
            final(indices).op_dir == old(indices).op_dir,
    {
        let mut indices = CompositeIndices {
            local: indices,
            static_code_dir: if self.in_module {
                None
            } else {
                Some(static_code_dir)
            },
            cells,
        };
        proof {
            law_take_keeps(self@, indices@, item_view(item));
        }
        match item {
            Ok(Some(term)) => {
                let r = self.consume_clause(term, &mut indices);
                r
            },
            Ok(None) => {
                if self.preds.len() > 0 {
                    match self.flush_preds(&mut indices) {
                        Ok(_) => {},
                        Err(e) => {
                            return Err(SessionError::ParserError(e));
                        },
                    }
                }
                Ok(Progress::Finished)
            },
            Err(e) => {
                self.preds = Vec::new();
                assert(self@.preds =~= Seq::empty());
                Err(SessionError::ParserError(e))
            },
        }
    }
}

} // verus!
