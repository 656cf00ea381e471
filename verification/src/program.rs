//! What a read term becomes: facts, rules, queries, declarations, and the
//! predicates that clauses are gathered into.
use vstd::prelude::*;

use std::collections::VecDeque;
use vstd::std_specs::vecdeque::{axiom_vec_dequeue_index_decreases, VecDequeAdditionalSpecFns};

use crate::ast::{terms_view, Specifier, Term, TermV};
use crate::code::{ClauseType, ClauseTypeV, PredicateKey};

verus! {

/// A goal.
#[derive(Debug)]
pub enum QueryTerm {
    /// A call; the flag asks for the default call policy.
    Clause(ClauseType, Vec<Term>, bool),
    /// A cut that stays inside the clause, like one in the condition of an if-then.
    BlockedCut,
    /// A cut through the level that the variable `!` holds.
    UnblockedCut,
    /// Stores the level of the current choice point in a variable.
    GetLevelAndUnify(String),
    /// A jump into a predicate that was split off, with the variables that it shares.
    Jump(Vec<Term>),
}

/// The view of a `QueryTerm`.
pub enum QueryTermV {
    Clause(ClauseTypeV, Seq<TermV>, bool),
    BlockedCut,
    UnblockedCut,
    GetLevelAndUnify(Seq<char>),
    Jump(Seq<TermV>),
}

impl View for QueryTerm {
    type V = QueryTermV;

    open spec fn view(&self) -> QueryTermV {
        match *self {
            QueryTerm::Clause(ct, args, default_policy) => QueryTermV::Clause(
                ct@,
                terms_view(args@),
                default_policy,
            ),
            QueryTerm::BlockedCut => QueryTermV::BlockedCut,
            QueryTerm::UnblockedCut => QueryTermV::UnblockedCut,
            QueryTerm::GetLevelAndUnify(var) => QueryTermV::GetLevelAndUnify(var@),
            QueryTerm::Jump(vars) => QueryTermV::Jump(terms_view(vars@)),
        }
    }
}

/// The views of goals, one for one.
pub open spec fn goals_view(goals: Seq<QueryTerm>) -> Seq<QueryTermV> {
    goals.map_values(|goal: QueryTerm| goal@)
}

impl QueryTermV {
    /// A call under the default policy; any other goal stays as it is.
    pub open spec fn with_default_caller(self) -> QueryTermV {
        match self {
            QueryTermV::Clause(ct, args, _) => QueryTermV::Clause(ct, args, true),
            _ => self,
        }
    }
}

impl QueryTerm {
    /// Has a call use the default call policy.
    pub fn set_default_caller(&mut self)
        ensures
            final(self)@ == old(self)@.with_default_caller(),
    {
        if let QueryTerm::Clause(_, _, default_policy) = self {
            *default_policy = true;
        }
    }
}

/// A rule. The head holds the name, the arguments and the first goal of the body; the other goals
/// follow.
#[derive(Debug)]
pub struct Rule {
    pub head: (String, Vec<Term>, QueryTerm),
    pub clauses: Vec<QueryTerm>,
}

/// The view of a `Rule`.
pub struct RuleV {
    pub name: Seq<char>,
    pub args: Seq<TermV>,
    pub body: Seq<QueryTermV>,
}

impl View for Rule {
    type V = RuleV;

    open spec fn view(&self) -> RuleV {
        RuleV {
            name: self.head.0@,
            args: terms_view(self.head.1@),
            body: seq![self.head.2@] + goals_view(self.clauses@),
        }
    }
}

/// One clause of a predicate.
#[derive(Debug)]
pub enum PredicateClause {
    Fact(Term),
    Rule(Rule),
}

/// The view of a `PredicateClause`.
pub enum PredicateClauseV {
    Fact(TermV),
    Rule(RuleV),
}

impl View for PredicateClause {
    type V = PredicateClauseV;

    open spec fn view(&self) -> PredicateClauseV {
        match *self {
            PredicateClause::Fact(term) => PredicateClauseV::Fact(term@),
            PredicateClause::Rule(rule) => PredicateClauseV::Rule(rule@),
        }
    }
}

/// The views of clauses, one for one.
pub open spec fn clauses_view(clauses: Seq<PredicateClause>) -> Seq<PredicateClauseV> {
    clauses.map_values(|clause: PredicateClause| clause@)
}

impl PredicateClauseV {
    /// The predicate that a clause belongs to, by name.
    pub open spec fn name(self) -> Option<Seq<char>> {
        match self {
            PredicateClauseV::Fact(term) => term.name(),
            PredicateClauseV::Rule(rule) => Some(rule.name),
        }
    }

    /// The predicate that a clause belongs to, by arity.
    pub open spec fn arity(self) -> nat {
        match self {
            PredicateClauseV::Fact(term) => term.args().len(),
            PredicateClauseV::Rule(rule) => rule.args.len(),
        }
    }
}

impl PredicateClause {
    /// The name of the head.
    pub fn name(&self) -> (r: Option<&String>)
        ensures
            match r {
                Some(name) => self@.name() == Some(name@),
                None => self@.name() is None,
            },
    {
        match self {
            PredicateClause::Fact(term) => term.name(),
            PredicateClause::Rule(rule) => Some(&rule.head.0),
        }
    }

    /// The number of arguments of the head.
    pub fn arity(&self) -> (r: usize)
        ensures
            r == self@.arity(),
    {
        broadcast use crate::ast::lemma_terms_view;

        match self {
            PredicateClause::Fact(term) => term.arity(),
            PredicateClause::Rule(rule) => rule.head.1.len(),
        }
    }
}

/// The clauses of a predicate, in order.
#[derive(Debug)]
pub struct Predicate(pub Vec<PredicateClause>);

impl View for Predicate {
    type V = Seq<PredicateClauseV>;

    open spec fn view(&self) -> Seq<PredicateClauseV> {
        clauses_view(self.0@)
    }
}

/// An operator declaration: precedence, kind and name.
#[derive(Debug)]
pub struct OpDecl(pub usize, pub Specifier, pub String);

/// The view of an `OpDecl`.
pub struct OpDeclV {
    pub precedence: int,
    pub specifier: Specifier,
    pub name: Seq<char>,
}

impl View for OpDecl {
    type V = OpDeclV;

    open spec fn view(&self) -> OpDeclV {
        OpDeclV { precedence: self.0 as int, specifier: self.1, name: self.2@ }
    }
}

/// The views of predicate keys, one for one.
pub open spec fn keys_view(keys: Seq<PredicateKey>) -> Seq<(Seq<char>, nat)> {
    keys.map_values(|key: PredicateKey| (key.0@, key.1 as nat))
}

/// A module declaration: the module's name and what it exports.
#[derive(Debug)]
pub struct ModuleDecl {
    pub name: String,
    pub exports: Vec<PredicateKey>,
}

/// A predicate that the compiler runs over what it reads.
#[derive(Clone, Copy, Debug, PartialEq, Eq, Structural)]
pub enum CompileTimeHook {
    TermExpansion,
}

/// A directive.
#[derive(Debug)]
pub enum Declaration {
    /// A clause of a hook, with the predicates that were split off its body.
    Hook(CompileTimeHook, PredicateClause, VecDeque<TopLevel>),
    Module(ModuleDecl),
    NonCountedBacktracking(String, usize),
    Op(OpDecl),
    UseModule(String),
    UseQualifiedModule(String, Vec<PredicateKey>),
}

/// What one read term is.
#[derive(Debug)]
pub enum TopLevel {
    Declaration(Declaration),
    Fact(Term),
    Predicate(Predicate),
    Query(Vec<QueryTerm>),
    Rule(Rule),
}

/// The view of a `Declaration`.
pub enum DeclarationV {
    Hook(CompileTimeHook, PredicateClauseV, Seq<TopLevelV>),
    Module(Seq<char>, Seq<(Seq<char>, nat)>),
    NonCountedBacktracking(Seq<char>, nat),
    Op(OpDeclV),
    UseModule(Seq<char>),
    UseQualifiedModule(Seq<char>, Seq<(Seq<char>, nat)>),
}

/// The view of a `TopLevel`.
pub enum TopLevelV {
    Declaration(DeclarationV),
    Fact(TermV),
    Predicate(Seq<PredicateClauseV>),
    Query(Seq<QueryTermV>),
    Rule(RuleV),
}

/// The view of a declaration, by its parts.
pub open spec fn declaration_view(decl: Declaration) -> DeclarationV
    decreases decl,
{
    match decl {
        Declaration::Hook(hook, clause, queue) => DeclarationV::Hook(
            hook,
            clause@,
            Seq::new(
                queue@.len(),
                |i: int|
                    {
                        proof {
                            broadcast use axiom_vec_dequeue_index_decreases;

                        }
                        if 0 <= i < queue.len() {
                            top_level_view(queue[i])
                        } else {
                            TopLevelV::Query(Seq::empty())
                        }
                    },
            ),
        ),
        Declaration::Module(decl) => DeclarationV::Module(decl.name@, keys_view(decl.exports@)),
        Declaration::NonCountedBacktracking(name, arity) => DeclarationV::NonCountedBacktracking(
            name@,
            arity as nat,
        ),
        Declaration::Op(decl) => DeclarationV::Op(decl@),
        Declaration::UseModule(name) => DeclarationV::UseModule(name@),
        Declaration::UseQualifiedModule(name, exports) => DeclarationV::UseQualifiedModule(
            name@,
            keys_view(exports@),
        ),
    }
}

/// The view of what a term is, by its parts.
pub open spec fn top_level_view(tl: TopLevel) -> TopLevelV
    decreases tl,
{
    match tl {
        TopLevel::Declaration(decl) => TopLevelV::Declaration(declaration_view(decl)),
        TopLevel::Fact(term) => TopLevelV::Fact(term@),
        TopLevel::Predicate(pred) => TopLevelV::Predicate(pred@),
        TopLevel::Query(goals) => TopLevelV::Query(goals_view(goals@)),
        TopLevel::Rule(rule) => TopLevelV::Rule(rule@),
    }
}

impl View for Declaration {
    type V = DeclarationV;

    open spec fn view(&self) -> DeclarationV {
        declaration_view(*self)
    }
}

impl View for TopLevel {
    type V = TopLevelV;

    open spec fn view(&self) -> TopLevelV {
        top_level_view(*self)
    }
}

/// The views of what terms are, one for one.
pub open spec fn top_levels_view(tls: Seq<TopLevel>) -> Seq<TopLevelV> {
    tls.map_values(|tl: TopLevel| tl@)
}

/// `top_level_view`, unfolded once.
pub broadcast proof fn lemma_top_level_view(tl: TopLevel)
    ensures
        #[trigger] top_level_view(tl) == (match tl {
            TopLevel::Declaration(decl) => TopLevelV::Declaration(decl@),
            TopLevel::Fact(term) => TopLevelV::Fact(term@),
            TopLevel::Predicate(pred) => TopLevelV::Predicate(pred@),
            TopLevel::Query(goals) => TopLevelV::Query(goals_view(goals@)),
            TopLevel::Rule(rule) => TopLevelV::Rule(rule@),
        }),
{
}

/// The view of a hook.
pub proof fn lemma_hook_view(
    hook: CompileTimeHook,
    clause: PredicateClause,
    queue: VecDeque<TopLevel>,
)
    ensures
        declaration_view(Declaration::Hook(hook, clause, queue)) == DeclarationV::Hook(
            hook,
            clause@,
            top_levels_view(queue@),
        ),
{
    let shown = declaration_view(Declaration::Hook(hook, clause, queue));
    assert(shown->Hook_2 =~= top_levels_view(queue@));
}

impl TopLevelV {
    /// The name of the predicate that the clauses belong to.
    pub open spec fn name(self) -> Option<Seq<char>> {
        match self {
            TopLevelV::Declaration(_) => None,
            TopLevelV::Fact(term) => term.name(),
            TopLevelV::Predicate(clauses) => if clauses.len() > 0 {
                clauses[0].name()
            } else {
                None
            },
            TopLevelV::Query(_) => None,
            TopLevelV::Rule(rule) => Some(rule.name),
        }
    }

    /// The arity of the predicate that the clauses belong to.
    pub open spec fn arity(self) -> nat {
        match self {
            TopLevelV::Declaration(_) => 0,
            TopLevelV::Fact(term) => term.args().len(),
            TopLevelV::Predicate(clauses) => if clauses.len() > 0 {
                clauses[0].arity()
            } else {
                0
            },
            TopLevelV::Query(_) => 0,
            TopLevelV::Rule(rule) => rule.args.len(),
        }
    }
}

impl TopLevel {
    /// The name of the predicate that the clauses belong to.
    pub fn name(&self) -> (r: Option<&String>)
        ensures
            match r {
                Some(name) => self@.name() == Some(name@),
                None => self@.name() is None,
            },
    {
        broadcast use lemma_top_level_view;

        match self {
            TopLevel::Declaration(_) => None,
            TopLevel::Fact(term) => term.name(),
            TopLevel::Predicate(pred) => if pred.0.len() > 0 {
                pred.0[0].name()
            } else {
                None
            },
            TopLevel::Query(_) => None,
            TopLevel::Rule(rule) => Some(&rule.head.0),
        }
    }

    /// The arity of the predicate that the clauses belong to.
    pub fn arity(&self) -> (r: usize)
        ensures
            r == self@.arity(),
    {
        broadcast use {lemma_top_level_view, crate::ast::lemma_terms_view};

        match self {
            TopLevel::Declaration(_) => 0,
            TopLevel::Fact(term) => term.arity(),
            TopLevel::Predicate(pred) => if pred.0.len() > 0 {
                pred.0[0].arity()
            } else {
                0
            },
            TopLevel::Query(_) => 0,
            TopLevel::Rule(rule) => rule.head.1.len(),
        }
    }
}

/// A query or a declaration, with the predicates that were split off it.
#[derive(Debug)]
pub enum TopLevelPacket {
    Query(Vec<QueryTerm>, VecDeque<TopLevel>),
    Decl(TopLevel, VecDeque<TopLevel>),
}

/// The view of a `TopLevelPacket`.
pub enum TopLevelPacketV {
    Query(Seq<QueryTermV>, Seq<TopLevelV>),
    Decl(TopLevelV, Seq<TopLevelV>),
}

impl View for TopLevelPacket {
    type V = TopLevelPacketV;

    open spec fn view(&self) -> TopLevelPacketV {
        match *self {
            TopLevelPacket::Query(goals, queue) => TopLevelPacketV::Query(
                goals_view(goals@),
                top_levels_view(queue@),
            ),
            TopLevelPacket::Decl(tl, queue) => TopLevelPacketV::Decl(
                tl@,
                top_levels_view(queue@),
            ),
        }
    }
}

} // verus!
