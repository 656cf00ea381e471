//! The translation of clauses and directives, and of the predicates that are split off them.
use vstd::prelude::*;

use std::collections::VecDeque;

use crate::ast::{
    lemma_term_view, lemma_terms_view, name_is, outcome, terms_view, Constant, ParserError, Term,
    TermV,
};
use crate::code::CompositeIndices;
use crate::declarations::setup_declaration;
use crate::goals::lemma_unfold_nonempty;
use crate::predicates::{is_term_expansion, merge_clauses, setup_fact};
use crate::program::{
    goals_view, lemma_hook_view, lemma_top_level_view, top_levels_view, CompileTimeHook,
    Declaration, DeclarationV, PredicateClause, PredicateClauseV, Rule, TopLevel, TopLevelV,
};
use crate::relation::{group_vars, is_split_group, RelationWorker};
use crate::translation::{
    body_goals, body_parts, clauses_of, consistent, goals, hook, inlined_if_then, is_bodiless_hook,
    merge, rule, split_clauses, split_predicates, split_rule, top_level, top_levels, work, WorkV,
};
use crate::weight::{lemma_queue_weight_first, lemma_split_clauses_weight, queue_weight};

verus! {

broadcast use {lemma_terms_view, lemma_term_view, lemma_top_level_view};

/// The kind of a hook, the clause, and the predicates that were split off it.
pub type CompileTimeHookCompileInfo = (CompileTimeHook, PredicateClause, VecDeque<TopLevel>);

/// Every body has a goal.
proof fn lemma_body_goals_nonempty(terms: Seq<TermV>, blocks_cuts: bool)
    requires
        terms.len() > 0,
    ensures
        body_goals(terms, blocks_cuts).len() > 0,
{
    lemma_unfold_nonempty(terms.last(), ","@);
    if terms.len() == 1 && terms[0].is_compound("->"@, 2) {
        let inlined = inlined_if_then(terms[0].args()[0], terms[0].args()[1], blocks_cuts);
        lemma_unfold_nonempty(inlined.last(), ","@);
    }
}

/// There is one goal for each term.
proof fn lemma_goals_len(state: WorkV, terms: Seq<TermV>)
    ensures
        goals(state, terms).1 matches Ok(done) ==> done.len() == terms.len(),
    decreases terms.len(),
{
    if terms.len() > 0 {
        lemma_goals_len(state, terms.drop_last());
    }
}

impl RelationWorker {
    /// A rule, from its head and the parts of its body.
    pub fn setup_rule(
        &mut self,
        indices: &mut CompositeIndices,
        terms: Vec<Term>,
        blocks_cuts: bool,
    ) -> (r: Result<Rule, ParserError>)
        requires
            old(self).wf(),
            terms@.len() >= 2,
        ensures
            (work(final(self)@, final(indices)@), outcome(r)) == rule(
                work(old(self)@, old(indices)@),
                terms_view(terms@),
                blocks_cuts,
            ),
            final(self).wf(),
            final(indices).local.op_dir == old(indices).local.op_dir,
            *final(final(indices).local) == *final(old(indices).local),
            *final(final(indices).cells) == *final(old(indices).cells),
    {
        let ghost start = work(self@, indices@);
        let ghost parts = body_parts(terms_view(terms@));
        let ghost head = terms_view(terms@)[0];
        let mut terms = terms;
        let post_head_terms = terms.split_off(1);
        assert(terms_view(post_head_terms@) =~= parts);

        match self.setup_query(indices, post_head_terms, blocks_cuts) {
            Ok(query_terms) => {
                proof {
                    lemma_body_goals_nonempty(parts, blocks_cuts);
                    lemma_goals_len(start, body_goals(parts, blocks_cuts));
                }
                let ghost body = goals_view(query_terms@);
                let mut query_terms = query_terms;
                let clauses = query_terms.split_off(1);
                let qt = query_terms.pop().unwrap();
                assert(seq![qt@] + goals_view(clauses@) =~= body);

                let term = terms.pop().unwrap();
                assert(term@ == head);
                match term {
                    Term::Clause(name, args, _) => Ok(Rule { head: (name, args, qt), clauses }),
                    Term::Constant(Constant::Atom(name, _)) => {
                        let args: Vec<Term> = Vec::new();
                        assert(terms_view(args@) =~= Seq::empty());
                        Ok(Rule { head: (name, args, qt), clauses })
                    },
                    _ => Err(ParserError::InvalidRuleHead),
                }
            },
            Err(e) => Err(e),
        }
    }

    /// A hook. What is split off its body is translated with it.
    pub fn setup_hook(&mut self, indices: &mut CompositeIndices, term: Term) -> (r: Result<
        CompileTimeHookCompileInfo,
        ParserError,
    >)
        requires
            old(self).wf(),
            !is_short_rule(term@),
        ensures
            (work(final(self)@, final(indices)@), hook_outcome(r)) == hook(
                work(old(self)@, old(indices)@),
                term@,
            ),
            final(self).wf(),
            final(indices).local.op_dir == old(indices).local.op_dir,
            *final(final(indices).local) == *final(old(indices).local),
            *final(final(indices).cells) == *final(old(indices).cells),
        decreases 2int, 0int,
    {
        match term {
            Term::Clause(name, terms, _) => if name_is(&name, "term_expansion") && terms.len()
                == 2 {
                let queue: VecDeque<TopLevel> = VecDeque::new();
                assert(top_levels_view(queue@) =~= Seq::empty());
                match setup_fact(Term::Clause(name, terms, None)) {
                    Ok(term) => Ok(
                        (CompileTimeHook::TermExpansion, PredicateClause::Fact(term), queue),
                    ),
                    Err(e) => Err(e),
                }
            } else if name_is(&name, ":-") {
                match self.setup_rule(indices, terms, true) {
                    Ok(rule) => match self.parse_queue(indices) {
                        Ok(queue) => Ok(
                            (CompileTimeHook::TermExpansion, PredicateClause::Rule(rule), queue),
                        ),
                        Err(e) => Err(e),
                    },
                    Err(e) => Err(e),
                }
            } else {
                Err(ParserError::InvalidHook)
            },
            _ => Err(ParserError::InvalidHook),
        }
    }

    /// What a read term is.
    pub fn try_term_to_tl(
        &mut self,
        indices: &mut CompositeIndices,
        term: Term,
        blocks_cuts: bool,
    ) -> (r: Result<TopLevel, ParserError>)
        requires
            old(self).wf(),
            !is_bodiless_hook(term@),
        ensures
            (work(final(self)@, final(indices)@), outcome(r)) == top_level(
                work(old(self)@, old(indices)@),
                term@,
                blocks_cuts,
            ),
            final(self).wf(),
            final(indices).local.op_dir == old(indices).local.op_dir,
            *final(final(indices).local) == *final(old(indices).local),
            *final(final(indices).cells) == *final(old(indices).cells),
        decreases
                (if crate::translation::is_term_expansion(term@) {
                    3int
                } else {
                    0int
                }),
                0int,
    {
        reveal(top_level);
        match term {
            Term::Clause(name, terms, fixity) => if is_term_expansion(&name, &terms) {
                let term = Term::Clause(name, terms, fixity);
                match self.setup_hook(indices, term) {
                    Ok((hook, clause, queue)) => {
                        proof {
                            lemma_hook_view(hook, clause, queue);
                        }
                        Ok(TopLevel::Declaration(Declaration::Hook(hook, clause, queue)))
                    },
                    Err(e) => Err(e),
                }
            } else if name_is(&name, "?-") {
                match self.setup_query(indices, terms, blocks_cuts) {
                    Ok(query) => Ok(TopLevel::Query(query)),
                    Err(e) => Err(e),
                }
            } else if name_is(&name, ":-") && terms.len() > 1 {
                match self.setup_rule(indices, terms, blocks_cuts) {
                    Ok(rule) => Ok(TopLevel::Rule(rule)),
                    Err(e) => Err(e),
                }
            } else if name_is(&name, ":-") && terms.len() == 1 {
                let mut terms = terms;
                match setup_declaration(terms.pop().unwrap()) {
                    Ok(decl) => Ok(TopLevel::Declaration(decl)),
                    Err(e) => Err(e),
                }
            } else {
                match setup_fact(Term::Clause(name, terms, fixity)) {
                    Ok(term) => Ok(TopLevel::Fact(term)),
                    Err(e) => Err(e),
                }
            },
            _ => match setup_fact(term) {
                Ok(term) => Ok(TopLevel::Fact(term)),
                Err(e) => Err(e),
            },
        }
    }

    /// What terms are, in order.
    pub fn try_terms_to_tls(
        &mut self,
        indices: &mut CompositeIndices,
        terms: VecDeque<Term>,
        blocks_cuts: bool,
    ) -> (r: Result<VecDeque<TopLevel>, ParserError>)
        requires
            old(self).wf(),
            forall|i: int|
                0 <= i < terms@.len() ==> !is_bodiless_hook(#[trigger] terms_view(terms@)[i]),
        ensures
            (work(final(self)@, final(indices)@), queue_outcome(r)) == top_levels(
                work(old(self)@, old(indices)@),
                terms_view(terms@),
                blocks_cuts,
            ),
            final(self).wf(),
            final(indices).local.op_dir == old(indices).local.op_dir,
            *final(final(indices).local) == *final(old(indices).local),
            *final(final(indices).cells) == *final(old(indices).cells),
        decreases
                (if has_hook(terms_view(terms@)) {
                    4int
                } else {
                    0int
                }),
                1int,
    {
        let ghost start = work(self@, indices@);
        let ghost whole = terms_view(terms@);
        let ghost mut done: int = 0;
        let mut waiting = terms;
        let mut results: VecDeque<TopLevel> = VecDeque::new();
        assert(top_levels_view(results@) =~= Seq::empty());
        assert(whole.take(0) =~= Seq::empty());
        assert(whole.skip(0) =~= whole);

        loop
            invariant
                self.wf(),
                indices.local.op_dir == old(indices).local.op_dir,
                *final(indices.local) == *final(old(indices).local),
                *final(indices.cells) == *final(old(indices).cells),
                start == work(old(self)@, old(indices)@),
                whole == terms_view(terms@),
                forall|i: int| 0 <= i < whole.len() ==> !is_bodiless_hook(#[trigger] whole[i]),
                0 <= done <= whole.len(),
                terms_view(waiting@) == whole.skip(done),
                top_levels(start, whole.take(done), blocks_cuts) == (
                    work(self@, indices@),
                    Ok::<Seq<TopLevelV>, ParserError>(top_levels_view(results@)),
                ),
            ensures
                done == whole.len(),
            decreases whole.len() - done,
        {
            let ghost left = terms_view(waiting@);
            match waiting.pop_front() {
                Some(term) => {
                    assert(left[0] == term@);
                    assert(terms_view(waiting@) =~= left.drop_first());
                    assert(term@ == whole[done]);
                    assert(terms_view(waiting@) =~= whole.skip(done + 1));
                    assert(whole.take(done + 1).drop_last() =~= whole.take(done));
                    let ghost shown = top_levels_view(results@);
                    match self.try_term_to_tl(indices, term, blocks_cuts) {
                        Ok(tl) => {
                            results.push_back(tl);
                            assert(top_levels_view(results@) =~= shown.push(tl@));
                        },
                        Err(e) => {
                            proof {
                                lemma_top_levels_error(
                                    start,
                                    whole.take(done + 1),
                                    whole.skip(done + 1),
                                    blocks_cuts,
                                );
                                assert(whole.take(done + 1) + whole.skip(done + 1) =~= whole);
                            }
                            return Err(e);
                        },
                    }
                    proof {
                        done = done + 1;
                    }
                },
                None => {
                    break;
                },
            }
        }

        assert(whole.take(done) =~= whole);
        Ok(results)
    }

    /// The predicates that wait, and those that are split off them, in order. None waits any more,
    /// unless one of their clauses is none.
    pub fn parse_queue(&mut self, indices: &mut CompositeIndices) -> (r: Result<
        VecDeque<TopLevel>,
        ParserError,
    >)
        requires
            old(self).wf(),
        ensures
            (work(final(self)@, final(indices)@), queue_outcome(r)) == split_predicates(
                work(old(self)@, old(indices)@),
            ),
            final(self).wf(),
            final(indices).local.op_dir == old(indices).local.op_dir,
            *final(final(indices).local) == *final(old(indices).local),
            *final(final(indices).cells) == *final(old(indices).cells),
        decreases 1int, 0int,
    {
        let ghost start = work(self@, indices@);
        let mut queue: VecDeque<TopLevel> = VecDeque::new();
        assert(top_levels_view(queue@) =~= Seq::empty());
        proof {
            lemma_after_nothing(split_predicates(start));
        }

        loop
            invariant
                self.wf(),
                indices.local.op_dir == old(indices).local.op_dir,
                *final(indices.local) == *final(old(indices).local),
                *final(indices.cells) == *final(old(indices).cells),
                start == work(old(self)@, old(indices)@),
                split_predicates(start) == after(
                    top_levels_view(queue@),
                    split_predicates(work(self@, indices@)),
                ),
            ensures
                self@.len() == 0,
            decreases queue_weight(self@),
        {
            let ghost state = work(self@, indices@);
            let ghost shown = top_levels_view(queue@);
            match self.dequeue() {
                Some(terms) => {
                    let ghost group = state.queue[0];
                    let ghost rest = work(self@, indices@);
                    proof {
                        lemma_split_group(rest, group, group_vars(group));
                        lemma_split_clauses_weight(rest, group);
                        lemma_queue_weight_first(state.queue);
                        lemma_no_hook(group);
                    }
                    let mut tls = match self.try_terms_to_tls(indices, terms, false) {
                        Ok(tls) => tls,
                        Err(e) => {
                            return Err(e);
                        },
                    };
                    proof {
                        let clauses = split_clauses(rest, group).1->Ok_0;
                        lemma_merge_rules(
                            Seq::empty(),
                            top_levels_view(tls@),
                            clauses,
                            group_vars(group),
                        );
                        assert(Seq::<PredicateClauseV>::empty() + clauses =~= clauses);
                    }
                    match merge_clauses(&mut tls) {
                        Ok(clauses) => {
                            queue.push_back(clauses);
                            assert(top_levels_view(queue@) =~= shown.push(clauses@));
                            proof {
                                lemma_after_one(
                                    shown,
                                    clauses@,
                                    split_predicates(work(self@, indices@)),
                                );
                            }
                        },
                        Err(e) => {
                            return Err(e);
                        },
                    }
                },
                None => {
                    break;
                },
            }
        }

        assert(top_levels_view(queue@) + Seq::<TopLevelV>::empty() =~= top_levels_view(queue@));
        Ok(queue)
    }
}

/// A rule without a body.
pub open spec fn is_short_rule(term: TermV) -> bool {
    term matches TermV::Clause(name, args, _) && name == ":-"@ && args.len() < 2
}

/// Whether a clause of a hook is among the terms.
pub open spec fn has_hook(terms: Seq<TermV>) -> bool {
    exists|i: int|
        0 <= i < terms.len() && crate::translation::is_term_expansion(#[trigger] terms[i])
}

/// The view of a hook that was translated.
pub open spec fn hook_outcome(r: Result<CompileTimeHookCompileInfo, ParserError>) -> Result<
    DeclarationV,
    ParserError,
> {
    match r {
        Ok((hook, clause, queue)) => Ok(
            DeclarationV::Hook(hook, clause@, top_levels_view(queue@)),
        ),
        Err(e) => Err(e),
    }
}

/// The view of what terms are.
pub open spec fn queue_outcome(r: Result<VecDeque<TopLevel>, ParserError>) -> Result<
    Seq<TopLevelV>,
    ParserError,
> {
    match r {
        Ok(queue) => Ok(top_levels_view(queue@)),
        Err(e) => Err(e),
    }
}

/// A result whose predicates come after others.
spec fn after(done: Seq<TopLevelV>, r: (WorkV, Result<Seq<TopLevelV>, ParserError>)) -> (
    WorkV,
    Result<Seq<TopLevelV>, ParserError>,
) {
    match r.1 {
        Ok(queue) => (r.0, Ok(done + queue)),
        Err(e) => r,
    }
}

proof fn lemma_after_nothing(r: (WorkV, Result<Seq<TopLevelV>, ParserError>))
    ensures
        after(Seq::empty(), r) == r,
{
    if r.1 is Ok {
        assert(Seq::empty() + r.1->Ok_0 =~= r.1->Ok_0);
    }
}

proof fn lemma_after_one(
    done: Seq<TopLevelV>,
    tl: TopLevelV,
    r: (WorkV, Result<Seq<TopLevelV>, ParserError>),
)
    ensures
        after(done, after(seq![tl], r)) == after(done.push(tl), r),
{
    if r.1 is Ok {
        assert(done + (seq![tl] + r.1->Ok_0) =~= done.push(tl) + r.1->Ok_0);
    }
}

/// Once a term is nothing, those after it do not matter.
proof fn lemma_top_levels_error(
    state: WorkV,
    terms: Seq<TermV>,
    more: Seq<TermV>,
    blocks_cuts: bool,
)
    requires
        top_levels(state, terms, blocks_cuts).1 is Err,
    ensures
        top_levels(state, terms + more, blocks_cuts) == top_levels(state, terms, blocks_cuts),
    decreases more.len(),
{
    if more.len() == 0 {
        assert(terms + more =~= terms);
    } else {
        lemma_top_levels_error(state, terms, more.drop_last(), blocks_cuts);
        assert((terms + more).drop_last() =~= terms + more.drop_last());
    }
}

/// A clause that was split off is a rule and nothing else.
proof fn lemma_split_rule_plain(vars: Seq<TermV>, body: TermV)
    ensures
        !crate::translation::is_term_expansion(split_rule(vars, body)),
        forall|state: WorkV|
            #[trigger] top_level(state, split_rule(vars, body), false) == ({
                let (after, r) = rule(state, split_rule(vars, body).args(), false);
                (
                    after,
                    match r {
                        Ok(rule) => Ok::<TopLevelV, ParserError>(TopLevelV::Rule(rule)),
                        Err(e) => Err(e),
                    },
                )
            }),
{
    reveal(top_level);
    reveal_strlit("");
    reveal_strlit(":-");
    reveal_strlit("?-");
    reveal_strlit("term_expansion");
    assert(""@.len() == 0);
    assert("term_expansion"@.len() == 14);
    assert(":-"@[0] == ':');
    assert("?-"@[0] == '?');
}

/// No clause that was split off is one of a hook.
proof fn lemma_no_hook(group: Seq<TermV>)
    requires
        is_split_group(group),
    ensures
        !has_hook(group),
        forall|i: int| 0 <= i < group.len() ==> !is_bodiless_hook(#[trigger] group[i]),
{
    assert forall|i: int| 0 <= i < group.len() implies !crate::translation::is_term_expansion(
        #[trigger] group[i],
    ) by {
        lemma_split_rule_plain(group_vars(group), group[i].args()[1]);
    }
}

/// The clauses of a predicate that was split off, read one by one.
proof fn lemma_split_group(state: WorkV, group: Seq<TermV>, vars: Seq<TermV>)
    requires
        forall|i: int|
            0 <= i < group.len() ==> #[trigger] group[i] == split_rule(vars, group[i].args()[1]),
    ensures
        top_levels(state, group, false).0 == split_clauses(state, group).0,
        match (top_levels(state, group, false).1, split_clauses(state, group).1) {
            (Ok(tls), Ok(clauses)) => {
                &&& tls.len() == group.len()
                &&& are_rules(tls, clauses, vars)
            },
            (Err(e), Err(other)) => e == other,
            _ => false,
        },
    decreases group.len(),
{
    if group.len() > 0 {
        let front = group.drop_last();
        assert forall|i: int| 0 <= i < front.len() implies #[trigger] front[i] == split_rule(
            vars,
            front[i].args()[1],
        ) by {
            assert(group[i] == split_rule(vars, group[i].args()[1]));
        }
        lemma_split_group(state, front, vars);
        lemma_split_rule_plain(vars, group.last().args()[1]);
        let before = split_clauses(state, front).0;
        assert(top_level(before, group.last(), false).0 == rule(
            before,
            group.last().args(),
            false,
        ).0);
    }
}

/// Rules without a name that have the same arguments, as terms and as clauses.
spec fn are_rules(
    tls: Seq<TopLevelV>,
    clauses: Seq<PredicateClauseV>,
    vars: Seq<TermV>,
) -> bool {
    &&& tls.len() == clauses.len()
    &&& forall|i: int|
        0 <= i < tls.len() ==> (#[trigger] tls[i] matches TopLevelV::Rule(rule) && clauses[i]
            == PredicateClauseV::Rule(rule) && rule.name == ""@ && rule.args == vars)
}

/// Rules of one predicate are merged into it, one and all.
proof fn lemma_merge_rules(
    done: Seq<PredicateClauseV>,
    tls: Seq<TopLevelV>,
    clauses: Seq<PredicateClauseV>,
    vars: Seq<TermV>,
)
    requires
        are_rules(tls, clauses, vars),
        done.len() > 0 ==> done[0].name() == Some(""@) && done[0].arity() == vars.len(),
        done.len() + tls.len() > 0,
    ensures
        merge(done, tls) == (
            Seq::<TopLevelV>::empty(),
            Ok::<TopLevelV, ParserError>(TopLevelV::Predicate(done + clauses)),
        ),
    decreases tls.len(),
{
    if tls.len() == 0 {
        assert(done + clauses =~= done);
        assert(tls =~= Seq::empty());
    } else {
        let first = tls[0];
        assert(consistent(first, done));
        assert(clauses_of(first) =~= seq![clauses[0]]);
        let rest = tls.drop_first();
        assert(are_rules(rest, clauses.drop_first(), vars)) by {
            assert forall|i: int| 0 <= i < rest.len() implies (
            #[trigger] rest[i] matches TopLevelV::Rule(rule) && clauses.drop_first()[i]
                == PredicateClauseV::Rule(rule) && rule.name == ""@ && rule.args == vars) by {
                assert(tls[i + 1] is Rule);
            }
        }
        lemma_merge_rules(done + clauses_of(first), rest, clauses.drop_first(), vars);
        assert(done + clauses_of(first) + clauses.drop_first() =~= done + clauses);
    }
}

} // verus!
