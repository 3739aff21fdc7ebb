//! The fixed-point scheduler: repeatedly offers the context to every
//! registered agent in registration order, merges the effects of those that
//! accept it, and stops when a full cycle fires no agent (convergence) or
//! the cycle budget is exhausted.

use vstd::prelude::*;

use crate::agents::{
    model_effect, model_deps, model_output, spec_accepts, Agent, AgentKind, AgentModel,
};
use crate::facts::{Context, ContextModel, Fact, FactModel};

verus! {

/// The default cycle budget of a freshly built engine.
pub const DEFAULT_MAX_CYCLES: u32 = 50;

/// Mathematical model of a finished run.
pub struct RunModel {
    pub ctx: ContextModel,
    pub converged: bool,
    pub cycles: nat,
}

/// The outcome of one engine run: the final context, whether a fixed point
/// was reached, and how many cycles ran.
pub struct RunResult {
    pub context: Context,
    pub converged: bool,
    pub cycles: u32,
}

impl View for RunResult {
    type V = RunModel;

    open spec fn view(&self) -> RunModel {
        RunModel { ctx: self.context@, converged: self.converged, cycles: self.cycles as nat }
    }
}

/// The context after appending each fact in order.
pub open spec fn add_facts(ctx: ContextModel, facts: Seq<FactModel>) -> ContextModel
    decreases facts.len(),
{
    if facts.len() == 0 {
        ctx
    } else {
        add_facts(ctx.with_fact(facts[0]), facts.drop_first())
    }
}

/// One agent's turn: when it accepts the context, its effect is merged and
/// it counts as fired; otherwise the context is unchanged.
pub open spec fn spec_step(agent: AgentModel, ctx: ContextModel) -> (ContextModel, bool) {
    if spec_accepts(model_deps(agent), model_output(agent), ctx) {
        (add_facts(ctx, model_effect(agent, ctx)), true)
    } else {
        (ctx, false)
    }
}

/// One full cycle: every agent takes its turn in registration order; the
/// flag records whether any fired.
pub open spec fn spec_cycle(agents: Seq<AgentModel>, ctx: ContextModel) -> (ContextModel, bool)
    decreases agents.len(),
{
    if agents.len() == 0 {
        (ctx, false)
    } else {
        let s = spec_step(agents[0], ctx);
        let r = spec_cycle(agents.drop_first(), s.0);
        (r.0, s.1 || r.1)
    }
}

/// A whole run with the given cycle budget: cycles run until one fires no
/// agent (convergence) or the budget is spent.
pub open spec fn spec_run(agents: Seq<AgentModel>, ctx: ContextModel, budget: nat) -> RunModel
    decreases budget,
{
    if budget == 0 {
        RunModel { ctx, converged: false, cycles: 0 }
    } else {
        let s = spec_cycle(agents, ctx);
        if !s.1 {
            RunModel { ctx: s.0, converged: true, cycles: 1 }
        } else {
            let r = spec_run(agents, s.0, (budget - 1) as nat);
            RunModel { ctx: r.ctx, converged: r.converged, cycles: r.cycles + 1 }
        }
    }
}

/// A run model with `extra` cycles already on the clock.
pub open spec fn add_cycles(r: RunModel, extra: nat) -> RunModel {
    RunModel { ctx: r.ctx, converged: r.converged, cycles: r.cycles + extra }
}

/// A cycle that fires no agent leaves the context unchanged, and no agent
/// accepts it.
pub proof fn lemma_quiet_cycle(agents: Seq<AgentModel>, ctx: ContextModel)
    requires
        !spec_cycle(agents, ctx).1,
    ensures
        spec_cycle(agents, ctx).0 == ctx,
        forall|i: int|
            0 <= i < agents.len() ==> !spec_accepts(
                model_deps(#[trigger] agents[i]),
                model_output(agents[i]),
                ctx,
            ),
    decreases agents.len(),
{
    if agents.len() > 0 {
        let s = spec_step(agents[0], ctx);
        assert(!s.1);
        assert(s.0 == ctx);
        lemma_quiet_cycle(agents.drop_first(), ctx);
        assert(forall|i: int| 1 <= i < agents.len() ==> agents.drop_first()[i - 1] == agents[i]);
    }
}

/// Fixed-point law: when a run converges, no registered agent has anything
/// left to contribute — none accepts the final context.
pub proof fn lemma_converged_is_fixed_point(agents: Seq<AgentModel>, ctx: ContextModel, budget: nat)
    requires
        spec_run(agents, ctx, budget).converged,
    ensures
        forall|i: int|
            0 <= i < agents.len() ==> !spec_accepts(
                model_deps(#[trigger] agents[i]),
                model_output(agents[i]),
                spec_run(agents, ctx, budget).ctx,
            ),
    decreases budget,
{
    let s = spec_cycle(agents, ctx);
    if !s.1 {
        lemma_quiet_cycle(agents, ctx);
    } else {
        lemma_converged_is_fixed_point(agents, s.0, (budget - 1) as nat);
    }
}

/// A run never takes more cycles than its budget.
pub proof fn lemma_run_cycles_bound(agents: Seq<AgentModel>, ctx: ContextModel, budget: nat)
    ensures
        spec_run(agents, ctx, budget).cycles <= budget,
    decreases budget,
{
    if budget > 0 {
        let s = spec_cycle(agents, ctx);
        if s.1 {
            lemma_run_cycles_bound(agents, s.0, (budget - 1) as nat);
        }
    }
}

/// Mathematical model of the engine: its agents in registration order and
/// its cycle budget.
pub struct EngineModel {
    pub agents: Seq<AgentModel>,
    pub max_cycles: u32,
}

/// The convergence engine. Agents only propose; the engine decides and is
/// the only writer of the shared context.
pub struct Engine {
    agents: Vec<AgentKind>,
    max_cycles: u32,
}

impl View for Engine {
    type V = EngineModel;

    closed spec fn view(&self) -> EngineModel {
        EngineModel { agents: self.agents.deep_view(), max_cycles: self.max_cycles }
    }
}

/// Appends every proposed fact to the context. The agent contract guarantees
/// non-empty ids, so no fact is refused.
fn merge_effect(ctx: &mut Context, facts: &Vec<Fact>)
    requires
        forall|i: int| 0 <= i < facts@.len() ==> (#[trigger] facts.deep_view()[i]).id.len() > 0,
    ensures
        final (ctx)@ == add_facts(old(ctx)@, facts.deep_view()),
{
    let ghost all = facts.deep_view();
    let mut i: usize = 0;
    proof {
        assert(all.skip(0) =~= all);
    }
    while i < facts.len()
        invariant
            i <= facts.len(),
            all == facts.deep_view(),
            forall|j: int| 0 <= j < all.len() ==> (#[trigger] all[j]).id.len() > 0,
            add_facts(old(ctx)@, all) == add_facts(ctx@, all.skip(i as int)),
        decreases facts.len() - i,
    {
        let ghost rest = all.skip(i as int);
        proof {
            assert(rest[0] == all[i as int]);
            assert(rest.drop_first() =~= all.skip(i + 1));
            assert(all[i as int] == facts@[i as int]@);
        }
        let fact = facts[i].clone();
        match ctx.add_fact(fact) {
            Ok(()) => {},
            Err(_) => {
                proof {
                    assert(false);
                }
            },
        }
        i = i + 1;
    }
    proof {
        assert(all.skip(facts@.len() as int) =~= Seq::<FactModel>::empty());
    }
}

impl Engine {
    /// An engine with no agents and the default cycle budget.
    pub fn new() -> (e: Engine)
        ensures
            e@.agents.len() == 0,
            e@.max_cycles == DEFAULT_MAX_CYCLES,
    {
        Engine { agents: Vec::new(), max_cycles: DEFAULT_MAX_CYCLES }
    }

    /// An engine with no agents and the given cycle budget.
    pub fn with_max_cycles(max_cycles: u32) -> (e: Engine)
        ensures
            e@.agents.len() == 0,
            e@.max_cycles == max_cycles,
    {
        Engine { agents: Vec::new(), max_cycles }
    }

    /// Registers one more agent, after all earlier ones.
    pub fn register(&mut self, agent: AgentKind)
        ensures
            final (self)@.agents == old(self)@.agents.push(agent@),
            final (self)@.max_cycles == old(self)@.max_cycles,
    {
        let ghost prev = self.agents.deep_view();
        let ghost am = agent@;
        self.agents.push(agent);
        proof {
            assert(self.agents.deep_view() =~= prev.push(am));
        }
    }

    /// One cycle: offers the context to every agent in order and merges the
    /// effects of those that accept it.
    fn run_cycle(&self, ctx: &mut Context) -> (fired: bool)
        ensures
            final (ctx)@ == spec_cycle(self@.agents, old(ctx)@).0,
            fired == spec_cycle(self@.agents, old(ctx)@).1,
    {
        let ghost agents = self@.agents;
        let mut fired = false;
        let mut i: usize = 0;
        proof {
            assert(agents.skip(0) =~= agents);
        }
        while i < self.agents.len()
            invariant
                i <= self.agents.len(),
                agents == self@.agents,
                spec_cycle(agents, old(ctx)@).0 == spec_cycle(agents.skip(i as int), ctx@).0,
                spec_cycle(agents, old(ctx)@).1 == (fired || spec_cycle(
                    agents.skip(i as int),
                    ctx@,
                ).1),
            decreases self.agents.len() - i,
        {
            let ghost rest = agents.skip(i as int);
            let ghost before = ctx@;
            proof {
                assert(rest[0] == agents[i as int]);
                assert(rest.drop_first() =~= agents.skip(i + 1));
            }
            let agent = &self.agents[i];
            if agent.accepts(ctx) {
                let effect = agent.execute(ctx);
                merge_effect(ctx, &effect.facts);
                fired = true;
                proof {
                    assert(spec_step(agents[i as int], before) == (ctx@, true));
                }
            } else {
                proof {
                    assert(spec_step(agents[i as int], before) == (before, false));
                }
            }
            i = i + 1;
        }
        proof {
            assert(agents.skip(self.agents@.len() as int) =~= Seq::<AgentModel>::empty());
        }
        fired
    }

    /// Runs the pipeline to a fixed point or until the cycle budget is
    /// spent. The result carries the final context, the convergence flag and
    /// the number of cycles that ran.
    pub fn run(&self, ctx: Context) -> (r: RunResult)
        ensures
            r@ == spec_run(self@.agents, ctx@, self@.max_cycles as nat),
    {
        let ghost agents = self@.agents;
        let ghost orig = ctx@;
        let ghost budget = self@.max_cycles as nat;
        let mut ctx = ctx;
        let mut cycles: u32 = 0;
        let mut converged = false;
        while !converged && cycles < self.max_cycles
            invariant
                cycles <= self.max_cycles,
                agents == self@.agents,
                budget == self@.max_cycles as nat,
                !converged ==> spec_run(agents, orig, budget) == add_cycles(
                    spec_run(agents, ctx@, (budget - cycles as nat) as nat),
                    cycles as nat,
                ),
                converged ==> spec_run(agents, orig, budget) == (RunModel {
                    ctx: ctx@,
                    converged: true,
                    cycles: cycles as nat,
                }),
            decreases budget - cycles + (if converged { 0int } else { 1int }),
        {
            let ghost before = ctx@;
            let ghost remaining = (budget - cycles as nat) as nat;
            let fired = self.run_cycle(&mut ctx);
            proof {
                assert(remaining > 0);
                let s = spec_cycle(agents, before);
                assert(s == (ctx@, fired));
                if !fired {
                    assert(spec_run(agents, before, remaining) == (RunModel {
                        ctx: ctx@,
                        converged: true,
                        cycles: 1,
                    }));
                } else {
                    assert(spec_run(agents, before, remaining) == add_cycles(
                        spec_run(agents, ctx@, (remaining - 1) as nat),
                        1,
                    ));
                }
            }
            cycles = cycles + 1;
            if !fired {
                converged = true;
            }
        }
        if converged {
            RunResult { context: ctx, converged: true, cycles }
        } else {
            proof {
                assert(cycles == self.max_cycles);
                assert(spec_run(agents, ctx@, 0) == (RunModel {
                    ctx: ctx@,
                    converged: false,
                    cycles: 0,
                }));
            }
            RunResult { context: ctx, converged: false, cycles }
        }
    }
}

} // verus!
