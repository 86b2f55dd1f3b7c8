use crate::api::{JobSpec, ResourcePlan, ValidationError};
use vstd::prelude::*;

verus! {

/// The GPUs that the parts of a job run on, as indices into the GPUs of the job.
#[derive(Debug, PartialEq, Eq)]
pub struct PlacementPlan {
    pub total_gpus: u32,
    pub actor_gpu_indices: Vec<u32>,
    pub critic_gpu_indices: Vec<u32>,
    pub rollout_gpu_indices: Vec<u32>,
}

impl Clone for PlacementPlan {
    fn clone(&self) -> (r: Self)
        ensures
            r.total_gpus == self.total_gpus,
            r.actor_gpu_indices@ == self.actor_gpu_indices@,
            r.critic_gpu_indices@ == self.critic_gpu_indices@,
            r.rollout_gpu_indices@ == self.rollout_gpu_indices@,
    {
        PlacementPlan {
            total_gpus: self.total_gpus,
            actor_gpu_indices: self.actor_gpu_indices.clone(),
            critic_gpu_indices: self.critic_gpu_indices.clone(),
            rollout_gpu_indices: self.rollout_gpu_indices.clone(),
        }
    }
}

#[derive(Debug, Clone, Copy, PartialEq, Eq, Structural)]
pub enum SchedulerError {
    InvalidPlan,
    RolloutOutOfRange,
    CriticOutOfRange,
}

impl SchedulerError {
    /// The text shown for this error.
    pub open spec fn text(self) -> Seq<char> {
        match self {
            SchedulerError::InvalidPlan => "resource plan values must be positive"@,
            SchedulerError::RolloutOutOfRange => "rollout gpus exceed total allocated gpus"@,
            SchedulerError::CriticOutOfRange => "critic gpus exceed total allocated gpus"@,
        }
    }

    pub fn message(&self) -> (r: String)
        ensures
            r@ == self.text(),
    {
        let text: &str = match self {
            SchedulerError::InvalidPlan => "resource plan values must be positive",
            SchedulerError::RolloutOutOfRange => "rollout gpus exceed total allocated gpus",
            SchedulerError::CriticOutOfRange => "critic gpus exceed total allocated gpus",
        };
        text.to_string()
    }
}

impl ResourcePlan {
    /// The fields that a placement needs are positive.
    pub open spec fn positive(&self) -> bool {
        self.actor_num_nodes > 0 && self.actor_num_gpus_per_node > 0
            && self.rollout_num_gpus_per_engine > 0 && self.num_gpus_per_node > 0
    }

    pub fn is_positive(&self) -> (r: bool)
        ensures
            r == self.positive(),
    {
        self.actor_num_nodes > 0 && self.actor_num_gpus_per_node > 0
            && self.rollout_num_gpus_per_engine > 0 && self.num_gpus_per_node > 0
    }

    /// The number of GPUs that the critic asks for, where it is used.
    pub open spec fn critic_gpus(&self, use_critic: bool) -> nat {
        match (self.critic_num_nodes, self.critic_num_gpus_per_node) {
            (Some(nodes), Some(gpus)) if use_critic => nodes as nat * gpus as nat,
            _ => 0,
        }
    }

    /// The number of GPUs that the rollout engines have to themselves.
    pub open spec fn own_rollout_gpus(&self) -> nat {
        if self.colocate {
            0
        } else {
            self.rollout_num_gpus as nat
        }
    }

    /// The number of GPUs of the job.
    pub open spec fn total_gpus(&self, use_critic: bool) -> nat {
        self.actor_gpus() + self.critic_gpus(use_critic) + self.own_rollout_gpus()
    }
}

/// The numbers from `start` up to `end`, without `end`.
pub open spec fn index_range(start: nat, end: nat) -> Seq<u32> {
    Seq::new((end - start) as nat, |i: int| (start + i) as u32)
}

impl PlacementPlan {
    /// The actor takes the first GPUs of the job, the critic the next. The rollout engines
    /// take the rest, or share the actor's where the job is colocated.
    pub open spec fn places(&self, plan: ResourcePlan, use_critic: bool) -> bool {
        let actor_end = plan.actor_gpus();
        let critic_end = actor_end + plan.critic_gpus(use_critic);
        &&& self.total_gpus as nat == plan.total_gpus(use_critic)
        &&& self.actor_gpu_indices@ == index_range(0, actor_end)
        &&& self.critic_gpu_indices@ == index_range(actor_end, critic_end)
        &&& self.rollout_gpu_indices@ == if plan.colocate {
            index_range(0, actor_end)
        } else {
            index_range(critic_end, plan.total_gpus(use_critic))
        }
    }
}

fn wide_product(a: u32, b: u32) -> (r: u64)
    ensures
        r as nat == a as nat * b as nat,
{
    assert(0 <= a * b <= u32::MAX * u32::MAX) by (nonlinear_arith)
        requires
            a <= u32::MAX,
            b <= u32::MAX,
    ;
    a as u64 * b as u64
}

/// Whether the number of GPUs of the job can be counted in 32 bits.
pub fn placement_fits(plan: &ResourcePlan, use_critic: bool) -> (r: bool)
    ensures
        r == (plan.total_gpus(use_critic) <= u32::MAX),
{
    let actor: u64 = wide_product(plan.actor_num_nodes, plan.actor_num_gpus_per_node);
    let critic: u64 = match (plan.critic_num_nodes, plan.critic_num_gpus_per_node) {
        (Some(nodes), Some(gpus)) if use_critic => wide_product(nodes, gpus),
        _ => 0,
    };
    let rollout: u64 = if plan.colocate {
        0
    } else {
        plan.rollout_num_gpus as u64
    };
    let limit: u64 = u32::MAX as u64;
    actor <= limit && critic <= limit && actor + critic + rollout <= limit
}

fn collect_range(start: u32, end: u32) -> (r: Vec<u32>)
    requires
        start <= end,
    ensures
        r@ == index_range(start as nat, end as nat),
{
    let mut indices: Vec<u32> = Vec::new();
    let mut next: u32 = start;
    while next < end
        invariant
            start <= next <= end,
            indices@ == index_range(start as nat, next as nat),
        decreases end - next,
    {
        indices.push(next);
        next = next + 1;
        assert(indices@ =~= index_range(start as nat, next as nat));
    }
    indices
}

/// Assigns GPU indices to the actor, the critic and the rollout engines of a job. The
/// offsets lie within the GPUs of the job, so that no plan leads to a range error.
pub fn build_placement_plan(plan: &ResourcePlan, use_critic: bool) -> (r: Result<
    PlacementPlan,
    SchedulerError,
>)
    requires
        plan.positive() ==> plan.total_gpus(use_critic) <= u32::MAX,
    ensures
        match r {
            Ok(placement) => plan.positive() && placement.places(*plan, use_critic),
            Err(e) => !plan.positive() && e == SchedulerError::InvalidPlan,
        },
{
    if !plan.is_positive() {
        return Err(SchedulerError::InvalidPlan);
    }
    let actor_total: u32 = plan.actor_num_nodes * plan.actor_num_gpus_per_node;
    let critic_nodes: u32 = plan.critic_num_nodes.unwrap_or(0);
    let critic_gpus: u32 = plan.critic_num_gpus_per_node.unwrap_or(0);
    assert(plan.critic_gpus(true) == critic_nodes * critic_gpus) by {
        assert(critic_nodes == 0 || critic_gpus == 0 ==> critic_nodes * critic_gpus == 0)
            by (nonlinear_arith);
    }
    let critic_total: u32 = if use_critic {
        critic_nodes * critic_gpus
    } else {
        0
    };
    let critic_offset: u32 = actor_total;
    let critic_end: u32 = actor_total + critic_total;
    let rollout_offset: u32 = if plan.colocate {
        0
    } else {
        critic_end
    };
    let total_gpus: u32 = if plan.colocate {
        critic_end
    } else {
        critic_end + plan.rollout_num_gpus
    };
    if !plan.colocate && rollout_offset + plan.rollout_num_gpus > total_gpus {
        return Err(SchedulerError::RolloutOutOfRange);
    }
    if use_critic && critic_offset + critic_total > total_gpus {
        return Err(SchedulerError::CriticOutOfRange);
    }
    let actor_gpu_indices = collect_range(0, actor_total);
    let critic_gpu_indices = if use_critic {
        collect_range(critic_offset, critic_offset + critic_total)
    } else {
        Vec::new()
    };
    let rollout_gpu_indices = if plan.colocate {
        actor_gpu_indices.clone()
    } else {
        collect_range(rollout_offset, rollout_offset + plan.rollout_num_gpus)
    };
    assert(critic_gpu_indices@ =~= index_range(critic_offset as nat, critic_end as nat));
    Ok(PlacementPlan { total_gpus, actor_gpu_indices, critic_gpu_indices, rollout_gpu_indices })
}

/// Why a job is not placed.
#[derive(Debug, Clone, Copy, PartialEq, Eq, Structural)]
pub enum PlacementError {
    Invalid(ValidationError),
    Unplaceable(SchedulerError),
}

impl PlacementError {
    /// The text shown for this error.
    pub open spec fn text(self) -> Seq<char> {
        match self {
            PlacementError::Invalid(_) => "jobspec validation failed"@,
            PlacementError::Unplaceable(error) => error.text(),
        }
    }

    pub fn message(&self) -> (r: String)
        ensures
            r@ == self.text(),
    {
        match self {
            PlacementError::Invalid(_) => "jobspec validation failed".to_string(),
            PlacementError::Unplaceable(error) => error.message(),
        }
    }
}

/// Validates a job and assigns its GPUs.
pub fn place_job(spec: &JobSpec, use_critic: bool) -> (r: Result<PlacementPlan, PlacementError>)
    requires
        spec.valid() && spec.resource_plan.positive() ==> spec.resource_plan.total_gpus(use_critic)
            <= u32::MAX,
    ensures
        match r {
            Ok(placement) => spec.valid() && spec.resource_plan.positive() && placement.places(
                spec.resource_plan,
                use_critic,
            ),
            Err(PlacementError::Invalid(rule)) => spec.breaks_first(rule),
            Err(PlacementError::Unplaceable(e)) => spec.valid() && !spec.resource_plan.positive()
                && e == SchedulerError::InvalidPlan,
        },
{
    if let Err(rule) = spec.validate() {
        return Err(PlacementError::Invalid(rule));
    }
    match build_placement_plan(&spec.resource_plan, use_critic) {
        Ok(placement) => Ok(placement),
        Err(e) => Err(PlacementError::Unplaceable(e)),
    }
}

proof fn lemma_index_range(start: nat, end: nat)
    requires
        start <= end <= u32::MAX,
    ensures
        index_range(start, end).no_duplicates(),
        forall|gpu: u32| #[trigger]
            index_range(start, end).contains(gpu) <==> start <= gpu < end,
{
    let range = index_range(start, end);
    assert forall|gpu: u32| #[trigger] range.contains(gpu) <==> start <= gpu < end by {
        if start <= gpu < end {
            assert(range[gpu - start] == gpu);
        }
    }
}

/// On separate GPUs, no GPU of the job is given out twice and none is left over: each one
/// belongs to exactly one of the actor, the critic and the rollout engines, at one place.
pub proof fn law_separate_placement_partitions_gpus(
    placement: PlacementPlan,
    plan: ResourcePlan,
    use_critic: bool,
)
    requires
        !plan.colocate,
        placement.places(plan, use_critic),
    ensures
        ({
            let actor = placement.actor_gpu_indices@;
            let critic = placement.critic_gpu_indices@;
            let rollout = placement.rollout_gpu_indices@;
            &&& (actor + critic + rollout).no_duplicates()
            &&& forall|gpu: u32| #[trigger]
                (actor + critic + rollout).contains(gpu) <==> gpu < placement.total_gpus
            &&& actor.len() + critic.len() + rollout.len() == placement.total_gpus
        }),
{
    let actor_end = plan.actor_gpus();
    let critic_end = actor_end + plan.critic_gpus(use_critic);
    let total = plan.total_gpus(use_critic);
    let all = placement.actor_gpu_indices@ + placement.critic_gpu_indices@
        + placement.rollout_gpu_indices@;
    assert(all =~= index_range(0, total));
    lemma_index_range(0, total);
}

/// In a colocated job the rollout engines run on exactly the actor's GPUs, and each GPU of
/// the job belongs to exactly one of the actor and the critic.
pub proof fn law_colocated_placement_shares_actor_gpus(
    placement: PlacementPlan,
    plan: ResourcePlan,
    use_critic: bool,
)
    requires
        plan.colocate,
        placement.places(plan, use_critic),
    ensures
        placement.rollout_gpu_indices@ == placement.actor_gpu_indices@,
        ({
            let actor = placement.actor_gpu_indices@;
            let critic = placement.critic_gpu_indices@;
            &&& (actor + critic).no_duplicates()
            &&& forall|gpu: u32| #[trigger]
                (actor + critic).contains(gpu) <==> gpu < placement.total_gpus
            &&& actor.len() + critic.len() == placement.total_gpus
        }),
{
    let total = plan.total_gpus(use_critic);
    let all = placement.actor_gpu_indices@ + placement.critic_gpu_indices@;
    assert(all =~= index_range(0, total));
    lemma_index_range(0, total);
}

/// A resource plan determines its placement.
pub proof fn law_placement_is_deterministic(
    a: PlacementPlan,
    b: PlacementPlan,
    plan: ResourcePlan,
    use_critic: bool,
)
    requires
        a.places(plan, use_critic),
        b.places(plan, use_critic),
    ensures
        a.total_gpus == b.total_gpus,
        a.actor_gpu_indices@ == b.actor_gpu_indices@,
        a.critic_gpu_indices@ == b.critic_gpu_indices@,
        a.rollout_gpu_indices@ == b.rollout_gpu_indices@,
{
}

/// Without the critic no GPU is given to it.
pub proof fn law_unused_critic_gets_no_gpus(placement: PlacementPlan, plan: ResourcePlan)
    requires
        placement.places(plan, false),
    ensures
        placement.critic_gpu_indices@.len() == 0,
{
}

/// The rollout engines of a valid job get as many GPUs as the job asks for, and these can
/// be dealt out to the engines without a remainder.
pub proof fn law_valid_job_gets_its_rollout_gpus(
    placement: PlacementPlan,
    spec: JobSpec,
    use_critic: bool,
)
    requires
        spec.valid(),
        placement.places(spec.resource_plan, use_critic),
    ensures
        placement.rollout_gpu_indices@.len() == spec.resource_plan.rollout_num_gpus,
        placement.rollout_gpu_indices@.len()
            % (spec.resource_plan.rollout_num_gpus_per_engine as nat) == 0,
{
    assert(!spec.breaks(ValidationError::ColocateRolloutMismatch));
    assert(!spec.breaks(ValidationError::InvalidRolloutPartition));
    assert(!spec.breaks(ValidationError::InvalidRolloutResources));
}

/// A valid job whose nodes hold GPUs can be placed, as far as its GPUs can be counted.
pub proof fn law_valid_job_is_placeable(spec: JobSpec)
    requires
        spec.valid(),
        spec.resource_plan.num_gpus_per_node > 0,
    ensures
        spec.resource_plan.positive(),
{
    assert(!spec.breaks(ValidationError::InvalidActorResources));
    assert(!spec.breaks(ValidationError::InvalidRolloutResources));
}

} // verus!
