//! Facts, categories, and the append-only fact store that agents read.

use vstd::prelude::*;

verus! {

/// The fixed, closed set of pipeline stages that partition the fact store.
#[derive(Clone, Copy, Debug, Hash, PartialEq, Eq, Structural)]
pub enum ContextKey {
    Seeds,
    Signals,
    Competitors,
    Strategies,
    Evaluations,
    Hypotheses,
    Constraints,
}

impl ContextKey {
    /// Every category, in pipeline order.
    pub fn all() -> (keys: Vec<ContextKey>)
        ensures
            keys@ =~= seq![
                ContextKey::Seeds,
                ContextKey::Signals,
                ContextKey::Competitors,
                ContextKey::Strategies,
                ContextKey::Evaluations,
                ContextKey::Hypotheses,
                ContextKey::Constraints,
            ],
    {
        let mut keys: Vec<ContextKey> = Vec::new();
        keys.push(ContextKey::Seeds);
        keys.push(ContextKey::Signals);
        keys.push(ContextKey::Competitors);
        keys.push(ContextKey::Strategies);
        keys.push(ContextKey::Evaluations);
        keys.push(ContextKey::Hypotheses);
        keys.push(ContextKey::Constraints);
        keys
    }
}

/// Mathematical model of one fact: its category and the character sequences
/// of its id and content.
#[verifier::ext_equal]
pub struct FactModel {
    pub key: ContextKey,
    pub id: Seq<char>,
    pub content: Seq<char>,
}

/// An immutable, categorized, identified unit of information.
#[derive(Debug)]
pub struct Fact {
    pub key: ContextKey,
    pub id: String,
    pub content: String,
}

impl Clone for Fact {
    fn clone(&self) -> (other: Self)
        ensures
            other@ == self@,
    {
        Fact { key: self.key, id: self.id.clone(), content: self.content.clone() }
    }
}

/// Appends a copy of every fact of `src` to `dst`, in order.
fn append_cloned(dst: &mut Vec<Fact>, src: &Vec<Fact>)
    ensures
        final (dst).deep_view() == old(dst).deep_view() + src.deep_view(),
{
    let ghost orig = dst.deep_view();
    let mut i: usize = 0;
    while i < src.len()
        invariant
            i <= src.len(),
            dst.deep_view() =~= orig + src.deep_view().take(i as int),
        decreases src.len() - i,
    {
        dst.push(src[i].clone());
        proof {
            assert(dst.deep_view() =~= orig + src.deep_view().take(i as int) + seq![
                src.deep_view()[i as int],
            ]);
            assert(orig + src.deep_view().take(i as int) + seq![src.deep_view()[i as int]] =~= orig
                + src.deep_view().take(i as int + 1));
        }
        i = i + 1;
    }
    proof {
        assert(src.deep_view().take(src.len() as int) =~= src.deep_view());
    }
}

impl View for Fact {
    type V = FactModel;

    open spec fn view(&self) -> FactModel {
        FactModel { key: self.key, id: self.id@, content: self.content@ }
    }
}

impl DeepView for Fact {
    type V = FactModel;

    open spec fn deep_view(&self) -> FactModel {
        self@
    }
}

impl Fact {
    /// Builds a fact from borrowed id and content text.
    pub fn new(key: ContextKey, id: &str, content: &str) -> (fact: Fact)
        ensures
            fact@ == (FactModel { key, id: id@, content: content@ }),
    {
        Fact { key, id: id.to_owned(), content: content.to_owned() }
    }
}

/// Mathematical model of the fact store: one fact sequence per category,
/// each in insertion order.
#[verifier::ext_equal]
pub struct ContextModel {
    pub seeds: Seq<FactModel>,
    pub signals: Seq<FactModel>,
    pub competitors: Seq<FactModel>,
    pub strategies: Seq<FactModel>,
    pub evaluations: Seq<FactModel>,
    pub hypotheses: Seq<FactModel>,
    pub constraints: Seq<FactModel>,
}

impl ContextModel {
    /// The fact sequence of one category.
    pub open spec fn get(self, key: ContextKey) -> Seq<FactModel> {
        match key {
            ContextKey::Seeds => self.seeds,
            ContextKey::Signals => self.signals,
            ContextKey::Competitors => self.competitors,
            ContextKey::Strategies => self.strategies,
            ContextKey::Evaluations => self.evaluations,
            ContextKey::Hypotheses => self.hypotheses,
            ContextKey::Constraints => self.constraints,
        }
    }

    /// The store with `fact` appended to its category.
    pub open spec fn with_fact(self, fact: FactModel) -> ContextModel {
        match fact.key {
            ContextKey::Seeds => ContextModel { seeds: self.seeds.push(fact), ..self },
            ContextKey::Signals => ContextModel { signals: self.signals.push(fact), ..self },
            ContextKey::Competitors => ContextModel {
                competitors: self.competitors.push(fact),
                ..self
            },
            ContextKey::Strategies => ContextModel {
                strategies: self.strategies.push(fact),
                ..self
            },
            ContextKey::Evaluations => ContextModel {
                evaluations: self.evaluations.push(fact),
                ..self
            },
            ContextKey::Hypotheses => ContextModel {
                hypotheses: self.hypotheses.push(fact),
                ..self
            },
            ContextKey::Constraints => ContextModel {
                constraints: self.constraints.push(fact),
                ..self
            },
        }
    }

    /// Every fact of the store, category by category in pipeline order.
    pub open spec fn all_facts(self) -> Seq<FactModel> {
        self.seeds + self.signals + self.competitors + self.strategies + self.evaluations
            + self.hypotheses + self.constraints
    }

    /// Total number of facts across all categories.
    pub open spec fn total(self) -> nat {
        self.all_facts().len()
    }

    pub open spec fn empty() -> ContextModel {
        ContextModel {
            seeds: Seq::empty(),
            signals: Seq::empty(),
            competitors: Seq::empty(),
            strategies: Seq::empty(),
            evaluations: Seq::empty(),
            hypotheses: Seq::empty(),
            constraints: Seq::empty(),
        }
    }
}

/// Why the fact store refused a fact.
#[derive(Debug, Clone, Copy, PartialEq, Eq, Structural)]
pub enum ContextError {
    /// The fact's id was empty.
    MalformedFact,
}

impl ContextError {
    /// A human-readable description of the error.
    pub fn message(&self) -> (msg: String)
        ensures
            msg@ == spec_context_error_message(*self),
    {
        match self {
            ContextError::MalformedFact => "fact id must not be empty".to_owned(),
        }
    }
}

pub open spec fn spec_context_error_message(e: ContextError) -> Seq<char> {
    match e {
        ContextError::MalformedFact => "fact id must not be empty"@,
    }
}

/// The shared, append-only fact store, partitioned by category.
///
/// Only the scheduler writes to it; agents borrow it read-only through
/// `accepts` and `execute`.
#[derive(Debug, Clone)]
pub struct Context {
    seeds: Vec<Fact>,
    signals: Vec<Fact>,
    competitors: Vec<Fact>,
    strategies: Vec<Fact>,
    evaluations: Vec<Fact>,
    hypotheses: Vec<Fact>,
    constraints: Vec<Fact>,
}

impl View for Context {
    type V = ContextModel;

    closed spec fn view(&self) -> ContextModel {
        ContextModel {
            seeds: self.seeds.deep_view(),
            signals: self.signals.deep_view(),
            competitors: self.competitors.deep_view(),
            strategies: self.strategies.deep_view(),
            evaluations: self.evaluations.deep_view(),
            hypotheses: self.hypotheses.deep_view(),
            constraints: self.constraints.deep_view(),
        }
    }
}

impl Context {
    /// An empty store.
    pub fn new() -> (ctx: Context)
        ensures
            ctx@ == ContextModel::empty(),
    {
        let ctx = Context {
            seeds: Vec::new(),
            signals: Vec::new(),
            competitors: Vec::new(),
            strategies: Vec::new(),
            evaluations: Vec::new(),
            hypotheses: Vec::new(),
            constraints: Vec::new(),
        };
        proof {
            assert(ctx@ =~= ContextModel::empty());
        }
        ctx
    }

    /// The facts of one category, in insertion order.
    pub fn get(&self, key: ContextKey) -> (facts: &Vec<Fact>)
        ensures
            facts.deep_view() == self@.get(key),
    {
        match key {
            ContextKey::Seeds => &self.seeds,
            ContextKey::Signals => &self.signals,
            ContextKey::Competitors => &self.competitors,
            ContextKey::Strategies => &self.strategies,
            ContextKey::Evaluations => &self.evaluations,
            ContextKey::Hypotheses => &self.hypotheses,
            ContextKey::Constraints => &self.constraints,
        }
    }

    /// Whether a category holds at least one fact.
    pub fn has(&self, key: ContextKey) -> (b: bool)
        ensures
            b == (self@.get(key).len() > 0),
    {
        self.get(key).len() > 0
    }

    /// Appends a fact to its category. Refuses a malformed fact (empty id)
    /// and leaves the store unchanged in that case.
    pub fn add_fact(&mut self, fact: Fact) -> (r: Result<(), ContextError>)
        ensures
            fact@.id.len() == 0 ==> r == Result::<(), ContextError>::Err(
                ContextError::MalformedFact,
            ) && final (self)@ == old(self)@,
            fact@.id.len() > 0 ==> r == Result::<(), ContextError>::Ok(()) && final (self)@ == old(
                self,
            )@.with_fact(fact@),
    {
        if fact.id.as_str().is_empty() {
            return Err(ContextError::MalformedFact);
        }
        let ghost prev = self@;
        let ghost fm = fact@;
        match fact.key {
            ContextKey::Seeds => self.seeds.push(fact),
            ContextKey::Signals => self.signals.push(fact),
            ContextKey::Competitors => self.competitors.push(fact),
            ContextKey::Strategies => self.strategies.push(fact),
            ContextKey::Evaluations => self.evaluations.push(fact),
            ContextKey::Hypotheses => self.hypotheses.push(fact),
            ContextKey::Constraints => self.constraints.push(fact),
        }
        proof {
            assert(self@ =~= prev.with_fact(fm));
        }
        Ok(())
    }

    /// Every fact of the store, category by category in pipeline order.
    pub fn all_facts(&self) -> (v: Vec<Fact>)
        ensures
            v.deep_view() == self@.all_facts(),
    {
        let mut v: Vec<Fact> = Vec::new();
        append_cloned(&mut v, &self.seeds);
        append_cloned(&mut v, &self.signals);
        append_cloned(&mut v, &self.competitors);
        append_cloned(&mut v, &self.strategies);
        append_cloned(&mut v, &self.evaluations);
        append_cloned(&mut v, &self.hypotheses);
        append_cloned(&mut v, &self.constraints);
        proof {
            assert(v.deep_view() =~= self@.all_facts());
        }
        v
    }

    /// Total number of facts across all categories.
    pub fn total_facts(&self) -> (n: usize)
        ensures
            n == self@.total(),
    {
        self.all_facts().len()
    }
}

/// The ordered list of facts one `execute` call proposes for merging.
#[derive(Debug, Clone)]
pub struct AgentEffect {
    pub facts: Vec<Fact>,
}

impl AgentEffect {
    /// Wraps a list of proposed facts.
    pub fn with_facts(facts: Vec<Fact>) -> (e: AgentEffect)
        ensures
            e.facts == facts,
    {
        AgentEffect { facts }
    }
}

} // verus!
