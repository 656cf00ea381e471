//! The translation of goals and of the bodies that they make up.
use vstd::prelude::*;

use std::collections::VecDeque;

use crate::ast::{
    lemma_term_view, lemma_terms_view, name_is, outcome, terms_view, Constant, ConstantV,
    ParserError, Term, TermV,
};
use crate::closure::{is_closed_rule, lemma_disjunct_closed, lemma_split_rule_closed};
use crate::code::{BuiltInClauseType, ClauseType, CodeCells, CodeIndex, CompositeIndices, IndexPtr};
use crate::goals::{
    fold_by_str, head_variables, head_vars, lemma_fold_push, lemma_unfold_nonempty, mark_cut,
    mark_cut_variable, mark_cut_variables, mark_cut_variables_as, mark_cuts, unfold, unfold_by_str,
    unfold_by_str_once,
};
use crate::program::{goals_view, QueryTerm, QueryTermV};
use crate::translation::{
    all_conjuncts, alternative, body_goals, conjuncts, disjunct_clauses, disjunct_vars, goal, goals,
    if_then_body, inlined_if_then, module_goal, query, query_term, split_rule, work, WorkV,
};

verus! {

broadcast use {lemma_terms_view, lemma_term_view};

/// The variables that a group of split-off clauses shares with the body it came from.
pub open spec fn group_vars(group: Seq<TermV>) -> Seq<TermV> {
    group[0].args()[0].args()
}

/// The clauses of one predicate that was split off a body. They share their head, and it has every
/// variable that they use.
pub open spec fn is_split_group(group: Seq<TermV>) -> bool {
    &&& group.len() > 0
    &&& forall|i: int|
        0 <= i < group.len() ==> #[trigger] group[i] == split_rule(
            group_vars(group),
            group[i].args()[1],
        )
    &&& forall|i: int| 0 <= i < group.len() ==> is_closed_rule(#[trigger] group[i])
}

/// A queue that holds nothing but predicates split off bodies.
pub open spec fn is_split_queue(queue: Seq<Seq<TermV>>) -> bool {
    forall|i: int| 0 <= i < queue.len() ==> is_split_group(#[trigger] queue[i])
}

/// Translates clauses; holds the predicates that are split off them until they are translated
/// too.
#[derive(Debug)]
pub struct RelationWorker {
    queue: VecDeque<VecDeque<Term>>,
}

impl View for RelationWorker {
    type V = Seq<Seq<TermV>>;

    closed spec fn view(&self) -> Seq<Seq<TermV>> {
        self.queue@.map_values(|group: VecDeque<Term>| terms_view(group@))
    }
}

/// A goal of another module. A cell is made for it.
pub fn module_resolution_call(mod_name: Term, body: Term, cells: &mut CodeCells) -> (r: Result<
    QueryTerm,
    ParserError,
>)
    ensures
        outcome(r) == module_goal(mod_name@, body@, CodeIndex(old(cells)@.len() as usize)),
        r is Ok ==> final(cells)@ == old(cells)@.push((IndexPtr::Module, mod_name@.name()->0)),
        r is Err ==> final(cells)@ == old(cells)@,
{
    if let Term::Constant(Constant::Atom(mod_name, _)) = mod_name {
        if let Term::Clause(name, terms, _) = body {
            let idx = cells.allocate(IndexPtr::Module, mod_name);
            return Ok(QueryTerm::Clause(ClauseType::Named(name, idx), terms, false));
        }
    }
    Err(ParserError::InvalidModuleResolution)
}

impl RelationWorker {
    /// Only predicates that were split off wait in the queue.
    pub open spec fn wf(self) -> bool {
        is_split_queue(self@)
    }

    /// Nothing waits.
    pub fn new() -> (r: Self)
        ensures
            r@ == Seq::<Seq<TermV>>::empty(),
            r.wf(),
    {
        let r = RelationWorker { queue: VecDeque::new() };
        assert(r@ =~= Seq::empty());
        r
    }

    /// The head arguments of a predicate split off a body.
    fn compute_head(&self, term: &Term) -> (r: Vec<Term>)
        ensures
            terms_view(r@) == head_vars(term@),
    {
        head_variables(term)
    }

    /// A clause of a predicate split off a body.
    fn fabricate_rule_body(&self, vars: &Vec<Term>, body_term: Term) -> (r: Term)
        ensures
            r@ == split_rule(terms_view(vars@), body_term@),
    {
        let mut vars_of_head: Vec<Term> = Vec::new();
        let mut i: usize = 0;
        while i < vars.len()
            invariant
                i <= vars@.len(),
                vars_of_head@.len() == i,
                forall|j: int| 0 <= j < i ==> vars_of_head@[j]@ == vars@[j]@,
            decreases vars@.len() - i,
        {
            vars_of_head.push(vars[i].clone());
            i += 1;
        }
        assert(terms_view(vars_of_head@) =~= terms_view(vars@));
        let head_term = Term::Clause("".to_owned(), vars_of_head, None);

        let mut rule: Vec<Term> = Vec::new();
        let ghost head = head_term@;
        rule.push(head_term);
        rule.push(body_term);
        assert(terms_view(rule@) =~= seq![head, body_term@]);
        Term::Clause(":-".to_owned(), rule, None)
    }

    /// The predicate split off a body: one clause, whose head gathers the variables of the body.
    fn fabricate_rule(&self, body_term: Term) -> (r: (Vec<Term>, VecDeque<Term>))
        ensures
            terms_view(r.0@) == head_vars(body_term@),
            terms_view(r.1@) == seq![split_rule(head_vars(body_term@), body_term@)],
    {
        let vars = self.compute_head(&body_term);
        let rule = self.fabricate_rule_body(&vars, body_term);
        let mut group: VecDeque<Term> = VecDeque::new();
        group.push_back(rule);
        assert(terms_view(group@) =~= seq![rule@]);
        (vars, group)
    }

    /// The predicate split off a disjunction.
    fn fabricate_disjunct(&self, body_term: Term) -> (r: (Vec<Term>, VecDeque<Term>))
        ensures
            terms_view(r.0@) == disjunct_vars(body_term@),
            terms_view(r.1@) == disjunct_clauses(body_term@),
    {
        let mut cut_var_found = false;
        let mut vars = self.compute_head(&body_term);
        let alternatives = unfold_by_str(body_term, ";");
        let ghost alts = terms_view(alternatives@);
        proof {
            lemma_unfold_nonempty(body_term@, ";"@);
        }

        let mut clauses: Vec<Term> = Vec::new();
        for term in iter: alternatives
            invariant
                iter.seq() == alternatives@,
                alts == terms_view(alternatives@),
                clauses@.len() == iter.index(),
                forall|j: int| 0 <= j < iter.index() ==> clauses@[j]@ == alternative(alts[j]),
                cut_var_found == (iter.index() > 0 && crate::goals::is_cut(
                    unfold(alts[iter.index() - 1], ","@).last(),
                )),
        {
            let ghost shown = term@;
            let mut subterms = unfold_by_str(term, ",");
            proof {
                lemma_unfold_nonempty(shown, ","@);
            }
            let ghost conjuncts = terms_view(subterms@);
            cut_var_found = mark_cut_variables(&mut subterms);
            let ghost marked = terms_view(subterms@);
            let last = subterms.pop().unwrap();
            assert(terms_view(subterms@) =~= marked.drop_last());
            clauses.push(fold_by_str(subterms, last, ","));
        }

        if cut_var_found {
            let ghost before = terms_view(vars@);
            vars.push(Term::Var("!".to_owned()));
            assert(terms_view(vars@) =~= before.push(crate::goals::cut_var()));
        }
        let ghost shared = terms_view(vars@);

        let mut results: VecDeque<Term> = VecDeque::new();
        for clause in iter: clauses
            invariant
                iter.seq() == clauses@,
                shared == terms_view(vars@),
                results@.len() == iter.index(),
                forall|j: int|
                    0 <= j < iter.index() ==> results@[j]@ == split_rule(shared, clauses@[j]@),
        {
            results.push_back(self.fabricate_rule_body(&vars, clause));
        }
        assert(terms_view(results@) =~= disjunct_clauses(body_term@));
        (vars, results)
    }

    /// The predicate split off an if-then.
    fn fabricate_if_then(&self, prec: Term, conq: Term) -> (r: (Vec<Term>, VecDeque<Term>))
        ensures
            terms_view(r.0@) == head_vars(if_then_body(prec@, conq@)),
            terms_view(r.1@) == seq![
                split_rule(head_vars(if_then_body(prec@, conq@)), if_then_body(prec@, conq@)),
            ],
    {
        let ghost condition = unfold(prec@, ","@).push(
            TermV::Constant(ConstantV::Atom("!"@, None)),
        );
        let ghost marked = mark_cuts(unfold(conq@, ","@));

        let mut prec_seq = unfold_by_str(prec, ",");
        prec_seq.push(Term::Constant(Constant::Atom("!".to_owned(), None)));
        assert(terms_view(prec_seq@) =~= condition);
        mark_cut_variables_as(&mut prec_seq, "blocked_!");
        let ghost renamed = terms_view(prec_seq@);

        let mut conq_seq = unfold_by_str(conq, ",");
        mark_cut_variables(&mut conq_seq);
        proof {
            lemma_unfold_nonempty(prec@, ","@);
            lemma_unfold_nonempty(conq@, ","@);
        }
        prec_seq.append(&mut conq_seq);
        let ghost all = renamed + marked;
        assert(terms_view(prec_seq@) =~= all);

        let back_term = prec_seq.pop().unwrap();
        let front_term = prec_seq.pop().unwrap();
        let ghost back = back_term@;
        let ghost front = front_term@;

        let mut pair: Vec<Term> = Vec::new();
        pair.push(front_term);
        pair.push(back_term);
        assert(terms_view(pair@) =~= seq![front, back]);
        let body_term = Term::Clause(",".to_owned(), pair, None);
        proof {
            lemma_fold_push(terms_view(prec_seq@), front, back, ","@);
            assert(terms_view(prec_seq@).push(front) =~= all.drop_last());
            assert(all.last() == back);
        }
        self.fabricate_rule(fold_by_str(prec_seq, body_term, ","))
    }

    /// Adds a predicate to the queue.
    fn enqueue(&mut self, group: VecDeque<Term>)
        requires
            old(self).wf(),
            is_split_group(terms_view(group@)),
        ensures
            final(self)@ == old(self)@.push(terms_view(group@)),
            final(self).wf(),
    {
        let ghost before = self@;
        self.queue.push_back(group);
        assert(self@ =~= before.push(terms_view(group@)));
    }

    /// A goal under the call policy of the clause.
    pub fn to_query_term(&mut self, indices: &mut CompositeIndices, term: Term) -> (r: Result<
        QueryTerm,
        ParserError,
    >)
        requires
            old(self).wf(),
        ensures
            (work(final(self)@, final(indices)@), outcome(r)) == query_term(
                work(old(self)@, old(indices)@),
                term@,
            ),
            final(self).wf(),
            final(indices).local.op_dir == old(indices).local.op_dir,
            *final(final(indices).local) == *final(old(indices).local),
            *final(final(indices).cells) == *final(old(indices).cells),
    {
        match term {
            Term::Constant(Constant::Atom(name, fixity)) => {
                if name_is(&name, "!") || name_is(&name, "blocked_!") {
                    Ok(QueryTerm::BlockedCut)
                } else {
                    let ct = indices.get_clause_type(name, 0, fixity);
                    let none: Vec<Term> = Vec::new();
                    assert(terms_view(none@) =~= Seq::empty());
                    Ok(QueryTerm::Clause(ct, none, false))
                }
            },
            Term::Var(v) => {
                if name_is(&v, "!") {
                    Ok(QueryTerm::UnblockedCut)
                } else {
                    let mut args: Vec<Term> = Vec::new();
                    args.push(Term::Var(v));
                    assert(terms_view(args@) =~= seq![term@]);
                    Ok(QueryTerm::Clause(ClauseType::CallN, args, false))
                }
            },
            Term::Clause(name, terms, fixity) => {
                let mut terms = terms;
                if name_is(&name, ";") && terms.len() == 2 {
                    let term = Term::Clause(name, terms, fixity);
                    let (stub, clauses) = self.fabricate_disjunct(term);
                    proof {
                        lemma_disjunct_group(term@);
                    }
                    self.enqueue(clauses);
                    Ok(QueryTerm::Jump(stub))
                } else if name_is(&name, ":") && terms.len() == 2 {
                    let callee = terms.pop().unwrap();
                    let mod_name = terms.pop().unwrap();
                    module_resolution_call(mod_name, callee, indices.cells)
                } else if name_is(&name, "->") && terms.len() == 2 {
                    let conq = terms.pop().unwrap();
                    let prec = terms.pop().unwrap();
                    let (stub, clauses) = self.fabricate_if_then(prec, conq);
                    proof {
                        lemma_split_rule_closed(if_then_body(prec@, conq@));
                    }
                    self.enqueue(clauses);
                    Ok(QueryTerm::Jump(stub))
                } else if name_is(&name, "$get_level") && terms.len() == 1 {
                    match terms.pop().unwrap() {
                        Term::Var(var) => Ok(QueryTerm::GetLevelAndUnify(var)),
                        _ => Err(ParserError::InadmissibleQueryTerm),
                    }
                } else if name_is(&name, "partial_string") && terms.len() == 2 {
                    if let Term::Constant(Constant::String(_)) = &terms[0] {
                        if let Term::Var(_) = &terms[1] {
                            let ct = ClauseType::BuiltIn(BuiltInClauseType::PartialString);
                            return Ok(QueryTerm::Clause(ct, terms, false));
                        }
                    }
                    Err(ParserError::InadmissibleQueryTerm)
                } else {
                    let ct = indices.get_clause_type(name, terms.len(), fixity);
                    Ok(QueryTerm::Clause(ct, terms, false))
                }
            },
            _ => Err(ParserError::InadmissibleQueryTerm),
        }
    }

    /// Puts an if-then in front of goals. It never blocks a cut in the consequent.
    fn prepend_if_then(
        &self,
        prec: Term,
        conq: Term,
        queue: &mut VecDeque<Term>,
        blocks_cuts: bool,
    )
        ensures
            terms_view(final(queue)@) == inlined_if_then(prec@, conq@, blocks_cuts) + terms_view(
                old(queue)@,
            ),
    {
        let mut terms_seq = unfold_by_str(prec, ",");
        let ghost condition = terms_view(terms_seq@);
        terms_seq.push(Term::Constant(Constant::Atom("blocked_!".to_owned(), None)));
        assert(terms_view(terms_seq@) =~= condition.push(
            TermV::Constant(ConstantV::Atom("blocked_!"@, None)),
        ));

        let mut conq_seq = unfold_by_str(conq, ",");
        if !blocks_cuts {
            mark_cut_variables(&mut conq_seq);
        }
        terms_seq.append(&mut conq_seq);
        let ghost all = terms_view(terms_seq@);
        assert(all =~= inlined_if_then(prec@, conq@, blocks_cuts));
        let ghost before = terms_view(queue@);

        loop
            invariant
                terms_view(terms_seq@) + terms_view(queue@) == all + before,
            ensures
                terms_view(queue@) == all + before,
            decreases terms_seq@.len(),
        {
            let ghost left = terms_view(terms_seq@);
            let ghost right = terms_view(queue@);
            match terms_seq.pop() {
                Some(term) => {
                    queue.push_front(term);
                    assert(terms_view(terms_seq@) + terms_view(queue@) =~= left + right);
                },
                None => {
                    assert(left + right =~= right);
                    break;
                },
            }
        }
    }

    /// A goal, under the default call policy where it asks for it.
    pub fn pre_query_term(&mut self, indices: &mut CompositeIndices, term: Term) -> (r: Result<
        QueryTerm,
        ParserError,
    >)
        requires
            old(self).wf(),
        ensures
            (work(final(self)@, final(indices)@), outcome(r)) == goal(
                work(old(self)@, old(indices)@),
                term@,
            ),
            final(self).wf(),
            final(indices).local.op_dir == old(indices).local.op_dir,
            *final(final(indices).local) == *final(old(indices).local),
            *final(final(indices).cells) == *final(old(indices).cells),
    {
        match term {
            Term::Clause(name, subterms, fixity) => {
                if subterms.len() == 1 && name_is(&name, "$call_with_default_policy") {
                    let mut subterms = subterms;
                    match self.to_query_term(indices, subterms.pop().unwrap()) {
                        Ok(query_term) => {
                            let mut query_term = query_term;
                            query_term.set_default_caller();
                            Ok(query_term)
                        },
                        Err(e) => Err(e),
                    }
                } else {
                    self.to_query_term(indices, Term::Clause(name, subterms, fixity))
                }
            },
            _ => self.to_query_term(indices, term),
        }
    }

    /// The goals of a query or of a rule's body.
    pub fn setup_query(
        &mut self,
        indices: &mut CompositeIndices,
        terms: Vec<Term>,
        blocks_cuts: bool,
    ) -> (r: Result<Vec<QueryTerm>, ParserError>)
        requires
            old(self).wf(),
        ensures
            (work(final(self)@, final(indices)@), goals_outcome(r)) == query(
                work(old(self)@, old(indices)@),
                terms_view(terms@),
                blocks_cuts,
            ),
            final(self).wf(),
            final(indices).local.op_dir == old(indices).local.op_dir,
            *final(final(indices).local) == *final(old(indices).local),
            *final(final(indices).cells) == *final(old(indices).cells),
    {
        let ghost start = work(self@, indices@);
        let ghost whole = body_goals(terms_view(terms@), blocks_cuts);
        let ghost mut done: Seq<TermV> = Seq::empty();

        let mut query_terms: Vec<QueryTerm> = Vec::new();
        let mut work_queue: VecDeque<Term> = VecDeque::new();
        for term in iter: terms
            invariant
                iter.seq() == terms@,
                work_queue@ == terms@.take(iter.index()),
        {
            work_queue.push_back(term);
            assert(work_queue@ =~= terms@.take(iter.index() + 1));
        }
        assert(work_queue@ =~= terms@);
        assert(goals_view(query_terms@) =~= Seq::empty());
        assert(done + whole =~= whole);

        while work_queue.len() > 0
            invariant
                self.wf(),
                indices.local.op_dir == old(indices).local.op_dir,
                *final(indices.local) == *final(old(indices).local),
                *final(indices.cells) == *final(old(indices).cells),
                start == work(old(self)@, old(indices)@),
                whole == body_goals(terms_view(terms@), blocks_cuts),
                goals(start, done) == (
                    work(self@, indices@),
                    Ok::<Seq<QueryTermV>, ParserError>(goals_view(query_terms@)),
                ),
                whole == done + if query_terms@.len() == 0 {
                    body_goals(terms_view(work_queue@), blocks_cuts)
                } else {
                    all_conjuncts(terms_view(work_queue@), blocks_cuts)
                },
            decreases
                    (if query_terms@.len() == 0 && work_queue@.len() == 1 {
                        1int
                    } else {
                        0int
                    }),
                    work_queue@.len(),
        {
            let ghost waiting = terms_view(work_queue@);
            let term = work_queue.pop_front().unwrap();
            assert(terms_view(work_queue@) =~= waiting.drop_first());
            assert(waiting[0] == term@);
            let mut term = term;

            // An if-then makes up the whole body: it stays in it.
            if query_terms.len() == 0 && work_queue.len() == 0 {
                match unfold_by_str_once(&mut term, "->") {
                    Some((prec, conq)) => {
                        self.prepend_if_then(prec, conq, &mut work_queue, blocks_cuts);
                        proof {
                            let inlined = inlined_if_then(prec@, conq@, blocks_cuts);
                            lemma_unfold_nonempty(prec@, ","@);
                            lemma_unfold_nonempty(conq@, ","@);
                            assert(terms_view(work_queue@) =~= inlined);
                        }
                        continue ;
                    },
                    None => {},
                }
            }
            proof {
                lemma_all_conjuncts_first(waiting, blocks_cuts);
            }

            let ghost rest = all_conjuncts(waiting.drop_first(), blocks_cuts);
            let ghost before = done;
            let ghost parts = conjuncts(term@, blocks_cuts);
            assert(whole == before + (parts + rest));
            proof {
                lemma_unfold_nonempty(term@, ","@);
            }
            let subterms = unfold_by_str(term, ",");
            assert(parts.len() == subterms@.len());
            for subterm in iter: subterms
                invariant
                    self.wf(),
                    indices.local.op_dir == old(indices).local.op_dir,
                    *final(indices.local) == *final(old(indices).local),
                    *final(indices.cells) == *final(old(indices).cells),
                    start == work(old(self)@, old(indices)@),
                    whole == body_goals(terms_view(terms@), blocks_cuts),
                    whole == before + (parts + rest),
                    iter.seq() == subterms@,
                    parts.len() == subterms@.len(),
                    forall|j: int|
                        0 <= j < parts.len() ==> #[trigger] parts[j] == if blocks_cuts {
                            subterms@[j]@
                        } else {
                            mark_cut(subterms@[j]@)
                        },
                    done == before + parts.take(iter.index()),
                    query_terms@.len() >= iter.index(),
                    goals(start, done) == (
                        work(self@, indices@),
                        Ok::<Seq<QueryTermV>, ParserError>(goals_view(query_terms@)),
                    ),
            {
                let mut subterm = subterm;
                if !blocks_cuts {
                    mark_cut_variable(&mut subterm);
                }
                let ghost at = iter.index();
                assert(subterm@ == parts[at]);
                let ghost next = done.push(parts[at]);
                assert(next.drop_last() =~= done);
                assert(next =~= before + parts.take(at + 1));

                let ghost shown = goals_view(query_terms@);
                match self.pre_query_term(indices, subterm) {
                    Ok(query_term) => {
                        query_terms.push(query_term);
                        assert(goals_view(query_terms@) =~= shown.push(query_term@));
                    },
                    Err(e) => {
                        proof {
                            let left = parts.skip(at + 1) + rest;
                            assert(whole =~= next + left);
                            lemma_goals_error(start, next, left);
                        }
                        return Err(e);
                    },
                }
                proof {
                    done = next;
                }
            }
            assert(parts.take(parts.len() as int) =~= parts);
            assert(whole =~= done + rest);
        }

        assert(terms_view(work_queue@) =~= Seq::empty());
        assert(done =~= whole);
        Ok(query_terms)
    }

    /// Takes the first predicate that waits off the queue.
    pub(crate) fn dequeue(&mut self) -> (r: Option<VecDeque<Term>>)
        requires
            old(self).wf(),
        ensures
            match r {
                Some(group) => {
                    &&& old(self)@.len() > 0
                    &&& terms_view(group@) == old(self)@[0]
                    &&& is_split_group(old(self)@[0])
                    &&& final(self)@ == old(self)@.drop_first()
                },
                None => old(self)@.len() == 0 && final(self)@ == old(self)@,
            },
            final(self).wf(),
    {
        let ghost before = self@;
        let r = self.queue.pop_front();
        if r.is_some() {
            assert(self@ =~= before.drop_first());
            assert(is_split_group(before[0]));
            assert forall|i: int| 0 <= i < self@.len() implies is_split_group(
                #[trigger] self@[i],
            ) by {
                assert(is_split_group(before[i + 1]));
            }
        }
        r
    }

    /// What waits in another queue waits behind what waits here.
    pub fn absorb(&mut self, other: RelationWorker)
        requires
            old(self).wf(),
            other.wf(),
        ensures
            final(self)@ == old(self)@ + other@,
            final(self).wf(),
    {
        let ghost before = self@;
        let mut queue = other.queue;
        self.queue.append(&mut queue);
        assert(self@ =~= before + other@);
        assert forall|i: int| 0 <= i < self@.len() implies is_split_group(#[trigger] self@[i]) by {
            if i < before.len() {
                assert(is_split_group(before[i]));
            } else {
                assert(is_split_group(other@[i - before.len()]));
            }
        }
    }
}

/// The view of goals that were translated.
pub open spec fn goals_outcome(r: Result<Vec<QueryTerm>, ParserError>) -> Result<
    Seq<QueryTermV>,
    ParserError,
> {
    match r {
        Ok(goals) => Ok(goals_view(goals@)),
        Err(e) => Err(e),
    }
}

/// The goals of conjunctions, taken apart at the first.
proof fn lemma_all_conjuncts_first(terms: Seq<TermV>, blocks_cuts: bool)
    requires
        terms.len() > 0,
    ensures
        all_conjuncts(terms, blocks_cuts) == conjuncts(terms[0], blocks_cuts) + all_conjuncts(
            terms.drop_first(),
            blocks_cuts,
        ),
    decreases terms.len(),
{
    if terms.len() == 1 {
        assert(terms.drop_last() =~= Seq::empty());
        assert(terms.drop_first() =~= Seq::empty());
        assert(all_conjuncts(terms, blocks_cuts) =~= conjuncts(terms[0], blocks_cuts)
            + all_conjuncts(terms.drop_first(), blocks_cuts));
    } else {
        lemma_all_conjuncts_first(terms.drop_last(), blocks_cuts);
        assert(terms.drop_last().drop_first() =~= terms.drop_first().drop_last());
        assert(all_conjuncts(terms, blocks_cuts) =~= conjuncts(terms[0], blocks_cuts)
            + all_conjuncts(terms.drop_first(), blocks_cuts));
    }
}

/// Once a goal is none, those after it do not matter.
proof fn lemma_goals_error(state: WorkV, terms: Seq<TermV>, more: Seq<TermV>)
    requires
        goals(state, terms).1 is Err,
    ensures
        goals(state, terms + more) == goals(state, terms),
    decreases more.len(),
{
    if more.len() == 0 {
        assert(terms + more =~= terms);
    } else {
        lemma_goals_error(state, terms, more.drop_last());
        assert((terms + more).drop_last() =~= terms + more.drop_last());
    }
}

/// The predicate split off a disjunction is a group of its own.
pub proof fn lemma_disjunct_group(term: TermV)
    ensures
        is_split_group(disjunct_clauses(term)),
{
    let group = disjunct_clauses(term);
    lemma_unfold_nonempty(term, ";"@);
    lemma_disjunct_closed(term);
    assert(group[0] == split_rule(disjunct_vars(term), alternative(unfold(term, ";"@)[0])));
}

} // verus!
