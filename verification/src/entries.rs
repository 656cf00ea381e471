//! What holds of whole terms: what each is, what is split off it, and how clauses are gathered.
use vstd::prelude::*;

use crate::ast::{ConstantV, Fixity, ParserError, TermV};
use crate::batch::term_packet;
use crate::bodies::nameless_rule;
use crate::code::IndicesV;
use crate::declarations::declaration;
use crate::goals::{mark_cuts, unfold};
use crate::program::{
    CompileTimeHook, DeclarationV, PredicateClauseV, QueryTermV, RuleV, TopLevelPacketV, TopLevelV,
};
use crate::translation::{
    all_conjuncts, alternative, body_goals, clauses_of, consistent, disjunct_clauses, fact, goals,
    hook, is_bodiless_hook, is_term_expansion, merge, packet, rule, split_clauses, split_predicates,
    top_level, top_levels, work, WorkV,
};

verus! {

proof fn lemma_names()
    ensures
        ":-"@ != "?-"@,
        ":-"@ != "term_expansion"@,
        "?-"@ != "term_expansion"@,
        ""@ != "term_expansion"@,
        ""@ != ":-"@,
{
    reveal_strlit(":-");
    reveal_strlit("?-");
    reveal_strlit("term_expansion");
    reveal_strlit("");
    assert(":-"@[0] == ':' && "?-"@[0] == '?' && "term_expansion"@[0] == 't');
    assert(":-"@.len() == 2 && "?-"@.len() == 2 && "term_expansion"@.len() == 14 && ""@.len() == 0);
}

/// A head `term_expansion(_, _)` that was not written as an operator.
pub open spec fn is_expansion_head(term: TermV) -> bool {
    term matches TermV::Clause(name, args, None) && name == "term_expansion"@ && args.len() == 2
}

/// An atom is a fact, and so is a compound term that is neither a rule, a directive, a query nor a
/// clause of the hook: that very term. Nothing changes on its account.
pub proof fn law_fact(state: WorkV, term: TermV, blocks_cuts: bool)
    requires
        match term {
            TermV::Constant(ConstantV::Atom(_, _)) => true,
            TermV::Clause(name, args, _) => {
                &&& !(name == ":-"@ && args.len() > 0)
                &&& name != "?-"@
                &&& !(name == "term_expansion"@ && args.len() == 2)
            },
            _ => false,
        },
    ensures
        top_level(state, term, blocks_cuts) == (
            state,
            Ok::<TopLevelV, ParserError>(TopLevelV::Fact(term)),
        ),
        fact(term) == Ok::<TermV, ParserError>(term),
{
    reveal(top_level);
    lemma_names();
}

/// What is neither an atom nor a compound term is nothing.
pub proof fn law_no_fact(state: WorkV, term: TermV, blocks_cuts: bool)
    requires
        !(term is Clause),
        !(term matches TermV::Constant(ConstantV::Atom(_, _))),
    ensures
        top_level(state, term, blocks_cuts) == (
            state,
            Err::<TopLevelV, ParserError>(ParserError::InadmissibleFact),
        ),
        fact(term) == Err::<TermV, ParserError>(ParserError::InadmissibleFact),
{
    reveal(top_level);
}

/// A head with a body, in one part or in several, is a rule, unless the head is that of the hook:
/// with the name and the arguments of its head, and the goals of its body.
pub proof fn law_rule_entry(
    state: WorkV,
    head: TermV,
    parts: Seq<TermV>,
    fixity: Option<Fixity>,
    blocks_cuts: bool,
)
    requires
        parts.len() > 0,
        !is_expansion_head(head),
    ensures
        ({
            let (after, r) = top_level(
                state,
                TermV::Clause(":-"@, seq![head] + parts, fixity),
                blocks_cuts,
            );
            let (translated, goals) = goals(state, body_goals(parts, blocks_cuts));
            &&& after == translated
            &&& r == match goals {
                Err(e) => Err::<TopLevelV, ParserError>(e),
                Ok(goals) => match head {
                    TermV::Clause(name, args, _) => Ok(
                        TopLevelV::Rule(RuleV { name, args, body: goals }),
                    ),
                    TermV::Constant(ConstantV::Atom(name, _)) => Ok(
                        TopLevelV::Rule(RuleV { name, args: Seq::empty(), body: goals }),
                    ),
                    _ => Err(ParserError::InvalidRuleHead),
                },
            }
        }),
{
    reveal(top_level);
    lemma_names();
    crate::bodies::law_rule(state, head, parts, blocks_cuts);
    assert((seq![head] + parts)[0] == head && (seq![head] + parts).len() > 1);
}

/// `?- Goals` is a query, with the goals in order.
pub proof fn law_query_entry(
    state: WorkV,
    parts: Seq<TermV>,
    fixity: Option<Fixity>,
    blocks_cuts: bool,
)
    ensures
        ({
            let (after, r) = top_level(state, TermV::Clause("?-"@, parts, fixity), blocks_cuts);
            let (translated, goals) = goals(state, body_goals(parts, blocks_cuts));
            &&& after == translated
            &&& r == match goals {
                Ok(goals) => Ok::<TopLevelV, ParserError>(TopLevelV::Query(goals)),
                Err(e) => Err(e),
            }
        }),
{
    reveal(top_level);
    lemma_names();
}

/// `:- Directive` declares what the directive says, unless it has the look of the hook. Nothing
/// changes on its account.
pub proof fn law_directive_entry(
    state: WorkV,
    directive: TermV,
    fixity: Option<Fixity>,
    blocks_cuts: bool,
)
    requires
        !is_expansion_head(directive),
    ensures
        ({
            let (after, r) = top_level(
                state,
                TermV::Clause(":-"@, seq![directive], fixity),
                blocks_cuts,
            );
            &&& after == state
            &&& r == match declaration(directive) {
                Ok(decl) => Ok::<TopLevelV, ParserError>(TopLevelV::Declaration(decl)),
                Err(e) => Err(e),
            }
        }),
{
    reveal(top_level);
    lemma_names();
    assert(seq![directive][0] == directive);
}

/// `term_expansion(A, B)` by itself is a clause of the hook: the fact with these arguments, and
/// nothing is split off it.
pub proof fn law_hook_fact(
    state: WorkV,
    fst: TermV,
    snd: TermV,
    fixity: Option<Fixity>,
    blocks_cuts: bool,
)
    ensures
        top_level(
            state,
            TermV::Clause("term_expansion"@, seq![fst, snd], fixity),
            blocks_cuts,
        ) == (
            state,
            Ok::<TopLevelV, ParserError>(
                TopLevelV::Declaration(
                    DeclarationV::Hook(
                        CompileTimeHook::TermExpansion,
                        PredicateClauseV::Fact(
                            TermV::Clause("term_expansion"@, seq![fst, snd], None),
                        ),
                        Seq::empty(),
                    ),
                ),
            ),
        ),
{
    reveal(top_level);
    lemma_names();
}

/// `term_expansion(A, B)` with a body is a clause of the hook: the rule, whose cuts stay inside it,
/// with the predicates that wait by then.
pub proof fn law_hook_rule(
    state: WorkV,
    head: TermV,
    parts: Seq<TermV>,
    fixity: Option<Fixity>,
    blocks_cuts: bool,
)
    requires
        parts.len() > 0,
        is_expansion_head(head),
    ensures
        ({
            let (after, r) = top_level(
                state,
                TermV::Clause(":-"@, seq![head] + parts, fixity),
                blocks_cuts,
            );
            let (translated, goals) = goals(state, body_goals(parts, true));
            match goals {
                Err(e) => after == translated && r == Err::<TopLevelV, ParserError>(e),
                Ok(goals) => {
                    let (emptied, queue) = split_predicates(translated);
                    &&& after == emptied
                    &&& r == match queue {
                        Err(e) => Err::<TopLevelV, ParserError>(e),
                        Ok(queue) => Ok(
                            TopLevelV::Declaration(
                                DeclarationV::Hook(
                                    CompileTimeHook::TermExpansion,
                                    PredicateClauseV::Rule(
                                        RuleV {
                                            name: "term_expansion"@,
                                            args: head->Clause_1,
                                            body: goals,
                                        },
                                    ),
                                    queue,
                                ),
                            ),
                        ),
                    }
                },
            }
        }),
{
    reveal(top_level);
    lemma_names();
    crate::bodies::law_rule(state, head, parts, true);
    assert((seq![head] + parts)[0] == head && (seq![head] + parts).len() > 1);
}

/// A clause of the hook is one wherever it is asked for; what does not have its look is none.
pub proof fn law_hook(state: WorkV, term: TermV, blocks_cuts: bool)
    ensures
        is_term_expansion(term) ==> {
            &&& top_level(state, term, blocks_cuts).0 == hook(state, term).0
            &&& top_level(state, term, blocks_cuts).1 == match hook(state, term).1 {
                Ok(decl) => Ok::<TopLevelV, ParserError>(TopLevelV::Declaration(decl)),
                Err(e) => Err(e),
            }
        },
        !is_term_expansion(term) && !(term matches TermV::Clause(name, _, _) && name == ":-"@)
            ==> hook(state, term) == (
            state,
            Err::<DeclarationV, ParserError>(ParserError::InvalidHook),
        ),
{
    reveal(top_level);
}

/// A rule that is taken for one of the hook: its cuts stay inside it, and what waits by then is
/// translated with it.
pub proof fn law_rule_as_hook(state: WorkV, parts: Seq<TermV>, fixity: Option<Fixity>)
    ensures
        hook(state, TermV::Clause(":-"@, parts, fixity)) == ({
            let (translated, clause) = rule(state, parts, true);
            let (emptied, queue) = split_predicates(translated);
            match (clause, queue) {
                (Err(e), _) => (translated, Err::<DeclarationV, ParserError>(e)),
                (Ok(_), Err(e)) => (emptied, Err(e)),
                (Ok(clause), Ok(queue)) => (
                    emptied,
                    Ok(
                        DeclarationV::Hook(
                            CompileTimeHook::TermExpansion,
                            PredicateClauseV::Rule(clause),
                            queue,
                        ),
                    ),
                ),
            }
        }),
{
    lemma_names();
}

/// The terms that have the look of the hook, and the one among them that is none.
pub proof fn law_expansions(term: TermV)
    ensures
        is_term_expansion(term) <==> match term {
            TermV::Clause(name, args, _) => {
                ||| name == "term_expansion"@ && args.len() == 2
                ||| name == ":-"@ && args.len() > 0 && is_expansion_head(args[0])
            },
            _ => false,
        },
        is_bodiless_hook(term) <==> (term matches TermV::Clause(name, args, _) && name == ":-"@
            && args.len() == 1 && is_expansion_head(args[0])),
{
    lemma_names();
}

/// What a translated goal leaves, a queue and directories, are those that the next one begins with.
pub proof fn law_work(queue: Seq<Seq<TermV>>, indices: IndicesV)
    ensures
        work(queue, indices).queue == queue,
        work(queue, indices).indices == indices,
{
}

/// The clauses of a group are translated in order, each after those in front of it: each is a rule
/// without a name, with the arguments of its head and the goals of its body.
pub proof fn law_split_clauses(
    state: WorkV,
    group: Seq<TermV>,
    vars: Seq<TermV>,
    body: TermV,
)
    ensures
        split_clauses(state, Seq::empty()) == (
            state,
            Ok::<Seq<PredicateClauseV>, ParserError>(Seq::empty()),
        ),
        split_clauses(state, group.push(nameless_rule(vars, body))) == match split_clauses(
            state,
            group,
        ).1 {
            Err(_) => split_clauses(state, group),
            Ok(done) => {
                let (after, goals) = goals(
                    split_clauses(state, group).0,
                    body_goals(seq![body], false),
                );
                (
                    after,
                    match goals {
                        Ok(goals) => Ok::<Seq<PredicateClauseV>, ParserError>(
                            done + seq![
                                PredicateClauseV::Rule(
                                    RuleV { name: ""@, args: vars, body: goals },
                                ),
                            ],
                        ),
                        Err(e) => Err(e),
                    },
                )
            },
        },
{
    let all = group.push(nameless_rule(vars, body));
    assert(all.drop_last() =~= group);
    let head = TermV::Clause(""@, vars, None);
    if let Ok(done) = split_clauses(state, group).1 {
        let before = split_clauses(state, group).0;
        crate::bodies::law_rule(before, head, seq![body], false);
        assert(seq![head, body] =~= seq![head] + seq![body]);
        if let Ok(last) = rule(before, seq![head, body], false).1 {
            let clause = PredicateClauseV::Rule(last);
            assert(done.push(clause) =~= done + seq![clause]);
        }
    }
}

/// The groups that wait are translated first come, first served: one predicate for each, with its
/// clauses in order.
pub proof fn law_split_predicates(indices: IndicesV, group: Seq<TermV>, rest: Seq<Seq<TermV>>)
    ensures
        split_predicates(WorkV { queue: Seq::empty(), indices }) == (
            WorkV { queue: Seq::empty(), indices },
            Ok::<Seq<TopLevelV>, ParserError>(Seq::empty()),
        ),
        split_predicates(WorkV { queue: seq![group] + rest, indices }) == ({
            let (after, clauses) = split_clauses(WorkV { queue: rest, indices }, group);
            match clauses {
                Err(e) => (after, Err::<Seq<TopLevelV>, ParserError>(e)),
                Ok(clauses) => {
                    let (emptied, others) = split_predicates(after);
                    (
                        emptied,
                        match others {
                            Ok(others) => Ok(seq![TopLevelV::Predicate(clauses)] + others),
                            Err(e) => Err(e),
                        },
                    )
                },
            }
        }),
{
    assert((seq![group] + rest).drop_first() =~= rest);
    assert((seq![group] + rest)[0] == group);
}

/// The goals that the clause split off an alternative runs: those of the alternative, in order,
/// with its cuts marked. An alternative that is an if-then is not joined by `,` and is left out
/// here.
pub proof fn law_alternative_translated(term: TermV, i: int)
    requires
        0 <= i < unfold(term, ";"@).len(),
        !(unfold(term, ";"@)[i] matches TermV::Clause(name, args, _) && name == "->"@ && args.len()
            == 2),
    ensures
        body_goals(seq![disjunct_clauses(term)[i].args()[1]], false) == mark_cuts(
            unfold(unfold(term, ";"@)[i], ","@),
        ),
{
    let alt = unfold(term, ";"@)[i];
    let body = alternative(alt);
    crate::laws::law_mark_cuts(unfold(alt, ","@));
    crate::bodies::law_alternative_goals(alt);
    reveal_strlit(",");
    reveal_strlit("->");
    assert(","@.len() == 1 && "->"@.len() == 2);
    assert(seq![body].drop_last() =~= Seq::empty());
    assert(all_conjuncts(Seq::empty(), false) =~= Seq::empty());
    assert(all_conjuncts(seq![body], false) =~= mark_cuts(unfold(body, ","@)));
    lemma_alternative_whole(alt);
}

/// An alternative is an if-then only where it was written as one.
proof fn lemma_alternative_whole(alt: TermV)
    requires
        !alt.is_compound("->"@, 2),
    ensures
        !alternative(alt).is_compound("->"@, 2),
{
    let goals = mark_cuts(unfold(alt, ","@));
    reveal_strlit(",");
    reveal_strlit("->");
    assert(","@.len() == 1 && "->"@.len() == 2);
    if goals.len() == 1 {
        crate::goals::lemma_unfold_nonempty(alt, ","@);
        if alt.is_compound(","@, 2) {
            crate::goals::lemma_unfold_nonempty(alt.args()[1], ","@);
        }
        assert(unfold(alt, ","@) =~= seq![alt]);
        assert(goals.drop_last() =~= Seq::empty());
    } else {
        crate::goals::lemma_unfold_nonempty(alt, ","@);
    }
}

/// Terms are told apart in order, each after those in front of it; the first that is nothing ends
/// it.
pub proof fn law_entries(state: WorkV, terms: Seq<TermV>, term: TermV, blocks_cuts: bool)
    ensures
        top_levels(state, Seq::empty(), blocks_cuts) == (
            state,
            Ok::<Seq<TopLevelV>, ParserError>(Seq::empty()),
        ),
        top_levels(state, terms.push(term), blocks_cuts) == match top_levels(
            state,
            terms,
            blocks_cuts,
        ).1 {
            Err(_) => top_levels(state, terms, blocks_cuts),
            Ok(done) => {
                let (after, last) = top_level(
                    top_levels(state, terms, blocks_cuts).0,
                    term,
                    blocks_cuts,
                );
                (
                    after,
                    match last {
                        Ok(last) => Ok::<Seq<TopLevelV>, ParserError>(done + seq![last]),
                        Err(e) => Err(e),
                    },
                )
            },
        },
{
    assert(terms.push(term).drop_last() =~= terms);
    if let Ok(done) = top_levels(state, terms, blocks_cuts).1 {
        let before = top_levels(state, terms, blocks_cuts).0;
        if let Ok(last) = top_level(before, term, blocks_cuts).1 {
            assert(done.push(last) =~= done + seq![last]);
        }
    }
}

/// The predicate that a clause belongs to: that of its head.
pub proof fn law_clause_key(term: TermV, rule: RuleV)
    ensures
        PredicateClauseV::Fact(term).name() == term.name(),
        PredicateClauseV::Fact(term).arity() == term.args().len(),
        PredicateClauseV::Rule(rule).name() == Some(rule.name),
        PredicateClauseV::Rule(rule).arity() == rule.args.len(),
        TopLevelV::Fact(term).name() == term.name(),
        TopLevelV::Fact(term).arity() == term.args().len(),
        TopLevelV::Rule(rule).name() == Some(rule.name),
        TopLevelV::Rule(rule).arity() == rule.args.len(),
{
}

/// What is several clauses belongs where its first one does; a declaration and a query belong
/// nowhere.
pub proof fn law_entry_key(
    clauses: Seq<PredicateClauseV>,
    decl: DeclarationV,
    goals: Seq<QueryTermV>,
)
    ensures
        clauses.len() > 0 ==> {
            &&& TopLevelV::Predicate(clauses).name() == clauses[0].name()
            &&& TopLevelV::Predicate(clauses).arity() == clauses[0].arity()
        },
        TopLevelV::Predicate(Seq::empty()).name() is None,
        TopLevelV::Predicate(Seq::empty()).arity() == 0,
        TopLevelV::Declaration(decl).name() is None,
        TopLevelV::Declaration(decl).arity() == 0,
        TopLevelV::Query(goals).name() is None,
        TopLevelV::Query(goals).arity() == 0,
{
}

/// A term goes on with clauses if and only if it has the name and the arity of the first of them;
/// anything can come first.
pub proof fn law_consistent(tl: TopLevelV, clause: PredicateClauseV, more: Seq<PredicateClauseV>)
    ensures
        consistent(tl, Seq::empty()),
        consistent(tl, seq![clause] + more) <==> tl.name() == clause.name() && tl.arity()
            == clause.arity(),
{
    assert((seq![clause] + more)[0] == clause);
}

/// A fact is the clause with that very term, a rule is the clause with that very rule, and a
/// predicate is its clauses.
pub proof fn law_clauses_of(
    term: TermV,
    rule: RuleV,
    clauses: Seq<PredicateClauseV>,
    decl: DeclarationV,
    goals: Seq<QueryTermV>,
)
    ensures
        clauses_of(TopLevelV::Fact(term)) == seq![PredicateClauseV::Fact(term)],
        clauses_of(TopLevelV::Rule(rule)) == seq![PredicateClauseV::Rule(rule)],
        clauses_of(TopLevelV::Predicate(clauses)) == clauses,
        clauses_of(TopLevelV::Declaration(decl)) == Seq::<PredicateClauseV>::empty(),
        clauses_of(TopLevelV::Query(goals)) == Seq::<PredicateClauseV>::empty(),
{
}

/// A fact or a rule that goes on with the clauses in front of it is merged into them as it is; one
/// that does not ends the predicate and stays in front of the rest.
pub proof fn law_merge_clause(
    done: Seq<PredicateClauseV>,
    clause: PredicateClauseV,
    rest: Seq<TopLevelV>,
)
    ensures
        ({
            let tl = match clause {
                PredicateClauseV::Fact(term) => TopLevelV::Fact(term),
                PredicateClauseV::Rule(rule) => TopLevelV::Rule(rule),
            };
            merge(done, seq![tl] + rest) == if done.len() == 0 || (clause.name() == done[0].name()
                && clause.arity() == done[0].arity()) {
                merge(done + seq![clause], rest)
            } else {
                (
                    seq![tl] + rest,
                    Ok::<TopLevelV, ParserError>(TopLevelV::Predicate(done)),
                )
            }
        }),
{
    let tl = match clause {
        PredicateClauseV::Fact(term) => TopLevelV::Fact(term),
        PredicateClauseV::Rule(rule) => TopLevelV::Rule(rule),
    };
    assert((seq![tl] + rest).drop_first() =~= rest);
    assert((seq![tl] + rest)[0] == tl);
    assert(clauses_of(tl) =~= seq![clause]);
}

/// Several clauses that go on with those in front of them are merged into them, in order.
pub proof fn law_merge_predicate(
    done: Seq<PredicateClauseV>,
    clauses: Seq<PredicateClauseV>,
    rest: Seq<TopLevelV>,
)
    requires
        clauses.len() > 0,
    ensures
        merge(done, seq![TopLevelV::Predicate(clauses)] + rest) == if done.len() == 0 || (
        clauses[0].name() == done[0].name() && clauses[0].arity() == done[0].arity()) {
            merge(done + clauses, rest)
        } else {
            (
                seq![TopLevelV::Predicate(clauses)] + rest,
                Ok::<TopLevelV, ParserError>(TopLevelV::Predicate(done)),
            )
        },
{
    let tl = TopLevelV::Predicate(clauses);
    assert((seq![tl] + rest).drop_first() =~= rest);
    assert((seq![tl] + rest)[0] == tl);
}

/// A predicate without a clause adds nothing; it goes on only with clauses that have no name and no
/// arguments.
pub proof fn law_merge_empty_predicate(done: Seq<PredicateClauseV>, rest: Seq<TopLevelV>)
    ensures
        ({
            let tls = seq![TopLevelV::Predicate(Seq::empty())] + rest;
            merge(done, tls) == if done.len() == 0 || (done[0].name() is None && done[0].arity()
                == 0) {
                merge(done, rest)
            } else {
                (tls, Ok::<TopLevelV, ParserError>(TopLevelV::Predicate(done)))
            }
        }),
{
    let tl = TopLevelV::Predicate(Seq::empty());
    assert((seq![tl] + rest).drop_first() =~= rest);
    assert((seq![tl] + rest)[0] == tl);
    assert(done + clauses_of(tl) =~= done);
}

/// A declaration is taken by itself, and otherwise ends the predicate; a query is taken only where
/// it is all there is; the end of the terms ends the predicate, which has a clause.
pub proof fn law_merge_others(
    done: Seq<PredicateClauseV>,
    decl: DeclarationV,
    goals: Seq<QueryTermV>,
    rest: Seq<TopLevelV>,
)
    ensures
        merge(done, Seq::empty()) == (
            Seq::<TopLevelV>::empty(),
            if done.len() > 0 {
                Ok::<TopLevelV, ParserError>(TopLevelV::Predicate(done))
            } else {
                Err(ParserError::InconsistentEntry)
            },
        ),
        merge(done, seq![TopLevelV::Declaration(decl)] + rest) == if done.len() == 0 {
            (rest, Ok::<TopLevelV, ParserError>(TopLevelV::Declaration(decl)))
        } else {
            (
                seq![TopLevelV::Declaration(decl)] + rest,
                Ok(TopLevelV::Predicate(done)),
            )
        },
        merge(done, seq![TopLevelV::Query(goals)] + rest) == (
            rest,
            if done.len() == 0 && rest.len() == 0 {
                Ok::<TopLevelV, ParserError>(TopLevelV::Query(goals))
            } else {
                Err(ParserError::InconsistentEntry)
            },
        ),
{
    let d = seq![TopLevelV::Declaration(decl)] + rest;
    let q = seq![TopLevelV::Query(goals)] + rest;
    assert(d.drop_first() =~= rest && d[0] == TopLevelV::Declaration(decl));
    assert(q.drop_first() =~= rest && q[0] == TopLevelV::Query(goals));
}

/// A packet holds what was read and, behind it, the predicates that were split off, as they are. It
/// tells a query from all the rest.
pub proof fn law_packet(tl: TopLevelV, queue: Seq<TopLevelV>)
    ensures
        packet(tl, queue) == match tl {
            TopLevelV::Query(goals) => TopLevelPacketV::Query(goals, queue),
            other => TopLevelPacketV::Decl(other, queue),
        },
{
}

/// One term by itself: it is told apart with its cuts inside the clause and nothing waiting, and
/// then what was split off is translated.
pub proof fn law_term_packet(indices: IndicesV, term: TermV)
    ensures
        ({
            let (translated, tl) = top_level(
                WorkV { queue: Seq::empty(), indices },
                term,
                true,
            );
            let (after, queue) = split_predicates(translated);
            term_packet(indices, term) == match (tl, queue) {
                (Err(e), _) => (translated.indices, Err::<TopLevelPacketV, ParserError>(e)),
                (Ok(_), Err(e)) => (after.indices, Err(e)),
                (Ok(tl), Ok(queue)) => (after.indices, Ok(packet(tl, queue))),
            }
        }),
{
}

} // verus!
