//! The decentralized GPU marketplace aggregator: a unified inventory of
//! priced listings across providers, value-ordered after every refresh,
//! requirement-driven selection, allocation bookkeeping and a savings
//! report against centralized list prices.
//!
//! Money and throughput are carried as plain integers: prices in cents per
//! hour, throughput in tenths of a tflop, durations in thousandths of an
//! hour, accrued costs in thousandths of a cent (price in cents times
//! duration in millihours).

use vstd::prelude::*;
use vstd::calc;
use vstd::multiset::Multiset;
use crate::types::EngineError;

verus! {

broadcast use vstd::seq_lib::group_to_multiset_ensures;

/// The GPU providers of the marketplace.
#[derive(Debug, Clone, Copy, PartialEq, Eq, Structural, Hash)]
pub enum GpuProvider {
    IoNet,
    RenderNetwork,
    Akash,
    Flux,
    Golem,
}

/// The pricing class of a GPU model, used for the centralized baseline.
#[derive(Debug, Clone, Copy, PartialEq, Eq, Structural)]
pub enum GpuModelClass {
    Rtx4090,
    A100,
    H100,
    Other,
}

/// One concrete GPU offered by one provider at an hourly rate.
#[derive(Debug, Clone)]
pub struct GpuSpecs {
    pub model: String,
    pub model_class: GpuModelClass,
    pub vram_gb: u32,
    /// Compute capability in tenths (89 reads as 8.9).
    pub compute_capability_tenths: u32,
    /// Throughput in tenths of a tflop.
    pub tflops_tenths: u64,
    pub available: bool,
    /// Hourly price in cents.
    pub price_per_hour_cents: u64,
    pub provider: GpuProvider,
    pub location: String,
    pub latency_ms: u32,
}

/// How selection breaks ties among listings that meet the requirements.
#[derive(Debug, Clone, Copy, PartialEq, Eq, Structural)]
pub enum GpuPriorityMode {
    /// Minimum hourly price.
    Cheapest,
    /// Maximum throughput per price.
    Balanced,
    /// Minimum network latency.
    LowestLatency,
    /// Maximum throughput.
    HighestTflops,
    /// Maximum throughput times memory.
    BestValueProduct,
}

/// What a job demands of a listing.
#[derive(Debug, Clone)]
pub struct GpuRequirements {
    pub min_vram_gb: u32,
    pub min_tflops_tenths: u64,
    pub max_price_per_hour_cents: u64,
    /// Empty means any provider.
    pub preferred_providers: Vec<GpuProvider>,
    pub max_latency_ms: u32,
    pub priority_mode: GpuPriorityMode,
}

/// Whether a listing satisfies the requirements: available, enough memory
/// and throughput, cheap and close enough, and from a preferred provider
/// when any are named.
pub open spec fn meets(req: &GpuRequirements, g: GpuSpecs) -> bool {
    &&& g.available
    &&& g.vram_gb >= req.min_vram_gb
    &&& g.tflops_tenths >= req.min_tflops_tenths
    &&& g.price_per_hour_cents <= req.max_price_per_hour_cents
    &&& g.latency_ms <= req.max_latency_ms
    &&& (req.preferred_providers@.len() == 0 || req.preferred_providers@.contains(g.provider))
}

/// Value order, throughput per price descending: `a` offers at least the
/// tflops-per-cent of `b`. A free listing counts as infinitely valuable;
/// two free listings order by throughput.
pub open spec fn value_ge(a: GpuSpecs, b: GpuSpecs) -> bool {
    if a.price_per_hour_cents == 0 && b.price_per_hour_cents == 0 {
        a.tflops_tenths >= b.tflops_tenths
    } else if a.price_per_hour_cents == 0 {
        true
    } else if b.price_per_hour_cents == 0 {
        false
    } else {
        a.tflops_tenths * b.price_per_hour_cents >= b.tflops_tenths * a.price_per_hour_cents
    }
}

/// Value order is total.
pub proof fn lemma_value_total(a: GpuSpecs, b: GpuSpecs)
    ensures
        value_ge(a, b) || value_ge(b, a),
{
}

/// Whether `a` strictly beats `b` under a tie-break mode.
pub open spec fn mode_better(mode: GpuPriorityMode, a: GpuSpecs, b: GpuSpecs) -> bool {
    match mode {
        GpuPriorityMode::Cheapest => a.price_per_hour_cents < b.price_per_hour_cents,
        GpuPriorityMode::Balanced => !value_ge(b, a),
        GpuPriorityMode::LowestLatency => a.latency_ms < b.latency_ms,
        GpuPriorityMode::HighestTflops => a.tflops_tenths > b.tflops_tenths,
        GpuPriorityMode::BestValueProduct => a.tflops_tenths * a.vram_gb > b.tflops_tenths
            * b.vram_gb,
    }
}

/// The selection among the first `n` listings: the earliest listing that
/// meets the requirements and is not strictly beaten by a later qualifying
/// one.
pub open spec fn best_listing_upto(
    inv: Seq<GpuSpecs>,
    req: &GpuRequirements,
    n: int,
) -> Option<int>
    decreases n,
{
    if n <= 0 || n > inv.len() {
        None
    } else {
        let prev = best_listing_upto(inv, req, n - 1);
        if !meets(req, inv[n - 1]) {
            prev
        } else {
            match prev {
                None => Some(n - 1),
                Some(j) => if mode_better(req.priority_mode, inv[n - 1], inv[j]) {
                    Some(n - 1)
                } else {
                    Some(j)
                },
            }
        }
    }
}

/// Strictly-better is transitive under every tie-break mode.
pub proof fn lemma_mode_better_trans(mode: GpuPriorityMode, a: GpuSpecs, b: GpuSpecs, c: GpuSpecs)
    requires
        mode_better(mode, a, b),
        mode_better(mode, b, c),
    ensures
        mode_better(mode, a, c),
{
    if mode == GpuPriorityMode::Balanced {
        lemma_value_total(c, b);
        lemma_value_total(b, a);
        if value_ge(c, a) {
            lemma_value_trans(c, a, b);
        }
    }
}

/// The chosen listing qualifies, lies in range, and no qualifying listing
/// strictly beats it; when none qualifies nothing is chosen.
pub proof fn lemma_best_listing_sound(inv: Seq<GpuSpecs>, req: &GpuRequirements, n: int)
    requires
        n <= inv.len(),
    ensures
        best_listing_upto(inv, req, n) matches Some(j) ==> 0 <= j < n && meets(req, inv[j])
            && forall|k: int| 0 <= k < n && meets(req, #[trigger] inv[k]) ==> !mode_better(
            req.priority_mode,
            inv[k],
            inv[j],
        ),
        best_listing_upto(inv, req, n) is None ==> forall|k: int|
            0 <= k < n ==> !meets(req, #[trigger] inv[k]),
    decreases n,
{
    if n <= 0 {
    } else {
        lemma_best_listing_sound(inv, req, n - 1);
        let mode = req.priority_mode;
        match best_listing_upto(inv, req, n) {
            None => {},
            Some(j) => {
                assert forall|k: int|
                    0 <= k < n && meets(req, #[trigger] inv[k]) implies !mode_better(
                    mode,
                    inv[k],
                    inv[j],
                ) by {
                    if k == j {
                        if mode == GpuPriorityMode::Balanced {
                            lemma_value_total(inv[j], inv[j]);
                        }
                    } else {
                        match best_listing_upto(inv, req, n - 1) {
                            None => {},
                            Some(jp) => {
                                if j == n - 1 && k < n - 1 {
                                    if mode_better(mode, inv[k], inv[n - 1]) {
                                        lemma_mode_better_trans(
                                            mode,
                                            inv[k],
                                            inv[n - 1],
                                            inv[jp],
                                        );
                                    }
                                }
                            },
                        }
                    }
                }
            },
        }
    }
}

/// A booked allocation: the job it serves, the provider's allocation
/// handle, the listing snapshot, when and for how long, and its accrued
/// cost in thousandths of a cent.
#[derive(Debug, Clone)]
pub struct JobAllocation {
    pub job_id: String,
    pub allocation_id: String,
    pub gpu: GpuSpecs,
    pub start_time: u64,
    pub duration_millihours: u64,
    pub status: AllocationStatus,
    pub cost_millicents: u64,
}

/// The lifecycle of an allocation.
#[derive(Debug, Clone, Copy, PartialEq, Eq, Structural)]
pub enum AllocationStatus {
    Active,
    Completed,
    Failed,
    Released,
}

/// Inventory sortedness: throughput per price never increases along the
/// list.
pub open spec fn sorted_by_value(s: Seq<GpuSpecs>) -> bool {
    forall|i: int, j: int| 0 <= i < j < s.len() ==> value_ge(#[trigger] s[i], #[trigger] s[j])
}

/// The centralized hourly list price of a model class, in cents: what the
/// big clouds charge for the same card.
pub open spec fn spec_baseline_cents(c: GpuModelClass) -> int {
    match c {
        GpuModelClass::Rtx4090 => 350,
        GpuModelClass::A100 => 800,
        GpuModelClass::H100 => 1500,
        GpuModelClass::Other => 500,
    }
}

/// The centralized hourly list price of a model class, in cents.
pub fn baseline_cents(c: GpuModelClass) -> (r: u64)
    ensures
        r as int == spec_baseline_cents(c),
{
    match c {
        GpuModelClass::Rtx4090 => 350,
        GpuModelClass::A100 => 800,
        GpuModelClass::H100 => 1500,
        GpuModelClass::Other => 500,
    }
}

/// The listings a round of provider queries yielded, as a bag; a failed
/// provider contributes nothing.
pub open spec fn merged_mset(results: Seq<Option<Vec<GpuSpecs>>>) -> Multiset<GpuSpecs>
    decreases results.len(),
{
    if results.len() == 0 {
        Multiset::empty()
    } else {
        merged_mset(results.drop_last()).add(
            match results.last() {
                Some(v) => v@.to_multiset(),
                None => Multiset::empty(),
            },
        )
    }
}

/// The signed savings percentage, truncated toward zero: the saved share
/// of the centralized cost in whole percent, zero when there is no
/// baseline to compare against.
pub open spec fn spec_savings_percent(web3: int, central: int) -> int {
    if central <= 0 {
        0
    } else if central >= web3 {
        ((central - web3) * 100) / central
    } else {
        -(((web3 - central) * 100) / central)
    }
}

/// The savings report: marketplace spend against the centralized baseline
/// for the same cards and durations.
#[derive(Debug, Clone)]
pub struct SavingsReport {
    /// Marketplace spend, thousandths of a cent.
    pub web3_cost: u64,
    /// What the centralized clouds would have charged, thousandths of a
    /// cent.
    pub centralized_cost: u64,
    /// Centralized minus marketplace spend, thousandths of a cent.
    pub savings: i128,
    /// Whole percent of the centralized cost saved.
    pub savings_percentage: i128,
    pub active_jobs: usize,
}

/// An exact copy of a listing.
pub fn clone_gpu(g: &GpuSpecs) -> (r: GpuSpecs)
    ensures
        gpu_eq(r, *g),
{
    GpuSpecs {
        model: g.model.clone(),
        model_class: g.model_class,
        vram_gb: g.vram_gb,
        compute_capability_tenths: g.compute_capability_tenths,
        tflops_tenths: g.tflops_tenths,
        available: g.available,
        price_per_hour_cents: g.price_per_hour_cents,
        provider: g.provider,
        location: g.location.clone(),
        latency_ms: g.latency_ms,
    }
}

/// Two listings carrying the same offer.
pub open spec fn gpu_eq(a: GpuSpecs, b: GpuSpecs) -> bool {
    &&& a.model@ == b.model@
    &&& a.model_class == b.model_class
    &&& a.vram_gb == b.vram_gb
    &&& a.compute_capability_tenths == b.compute_capability_tenths
    &&& a.tflops_tenths == b.tflops_tenths
    &&& a.available == b.available
    &&& a.price_per_hour_cents == b.price_per_hour_cents
    &&& a.provider == b.provider
    &&& a.location@ == b.location@
    &&& a.latency_ms == b.latency_ms
}

/// Whether `a` offers at least the value of `b` (tflops per cent, free
/// listings first).
pub fn value_ge_exec(a: &GpuSpecs, b: &GpuSpecs) -> (r: bool)
    ensures
        r == value_ge(*a, *b),
{
    if a.price_per_hour_cents == 0 && b.price_per_hour_cents == 0 {
        a.tflops_tenths >= b.tflops_tenths
    } else if a.price_per_hour_cents == 0 {
        true
    } else if b.price_per_hour_cents == 0 {
        false
    } else {
        proof {
            lemma_u64_products_fit(a.tflops_tenths as int, b.price_per_hour_cents as int);
            lemma_u64_products_fit(b.tflops_tenths as int, a.price_per_hour_cents as int);
        }
        (a.tflops_tenths as u128) * (b.price_per_hour_cents as u128) >= (b.tflops_tenths as u128)
            * (a.price_per_hour_cents as u128)
    }
}

/// The product of two 64-bit quantities fits 128 bits.
proof fn lemma_u64_products_fit(a: int, b: int)
    requires
        0 <= a <= u64::MAX,
        0 <= b <= u64::MAX,
    ensures
        a * b <= u128::MAX,
{
    assert(a * b <= (u64::MAX as int) * (u64::MAX as int)) by (nonlinear_arith)
        requires
            0 <= a <= u64::MAX,
            0 <= b <= u64::MAX,
    ;
    assert((u64::MAX as int) * (u64::MAX as int) <= u128::MAX);
}

/// Whether `a` strictly beats `b` under the mode.
pub fn mode_better_exec(mode: GpuPriorityMode, a: &GpuSpecs, b: &GpuSpecs) -> (r: bool)
    ensures
        r == mode_better(mode, *a, *b),
{
    match mode {
        GpuPriorityMode::Cheapest => a.price_per_hour_cents < b.price_per_hour_cents,
        GpuPriorityMode::Balanced => !value_ge_exec(b, a),
        GpuPriorityMode::LowestLatency => a.latency_ms < b.latency_ms,
        GpuPriorityMode::HighestTflops => a.tflops_tenths > b.tflops_tenths,
        GpuPriorityMode::BestValueProduct => {
            proof {
                lemma_u64_products_fit(a.tflops_tenths as int, a.vram_gb as int);
                lemma_u64_products_fit(b.tflops_tenths as int, b.vram_gb as int);
            }
            (a.tflops_tenths as u128) * (a.vram_gb as u128) > (b.tflops_tenths as u128) * (
            b.vram_gb as u128)
        },
    }
}

/// Whether a listing satisfies the requirements.
pub fn meets_exec(req: &GpuRequirements, g: &GpuSpecs) -> (r: bool)
    ensures
        r == meets(req, *g),
{
    if !(g.available && g.vram_gb >= req.min_vram_gb && g.tflops_tenths >= req.min_tflops_tenths
        && g.price_per_hour_cents <= req.max_price_per_hour_cents && g.latency_ms
        <= req.max_latency_ms) {
        return false;
    }
    if req.preferred_providers.len() == 0 {
        return true;
    }
    let mut i: usize = 0;
    while i < req.preferred_providers.len()
        invariant
            i <= req.preferred_providers@.len(),
            g.available && g.vram_gb >= req.min_vram_gb && g.tflops_tenths
                >= req.min_tflops_tenths && g.price_per_hour_cents
                <= req.max_price_per_hour_cents && g.latency_ms <= req.max_latency_ms,
            forall|k: int| 0 <= k < i ==> req.preferred_providers@[k] != g.provider,
        decreases req.preferred_providers@.len() - i,
    {
        if req.preferred_providers[i] == g.provider {
            proof {
                assert(req.preferred_providers@.contains(g.provider));
            }
            return true;
        }
        i += 1;
    }
    proof {
        assert(!req.preferred_providers@.contains(g.provider));
    }
    false
}

/// The marketplace aggregator: the current value-ordered inventory
/// snapshot and the active allocations with their running totals.
pub struct Web3GpuAggregator {
    gpu_inventory: Vec<GpuSpecs>,
    active_jobs: Vec<JobAllocation>,
    total_cost_millicents: u64,
    total_centralized_millicents: u64,
}

/// The marketplace cost of the active allocations, in thousandths of a
/// cent.
pub open spec fn sum_costs(jobs: Seq<JobAllocation>) -> int
    decreases jobs.len(),
{
    if jobs.len() == 0 {
        0
    } else {
        jobs[0].cost_millicents + sum_costs(jobs.skip(1))
    }
}

/// The centralized baseline cost of the active allocations, in thousandths
/// of a cent.
pub open spec fn sum_centralized(jobs: Seq<JobAllocation>) -> int
    decreases jobs.len(),
{
    if jobs.len() == 0 {
        0
    } else {
        spec_baseline_cents(jobs[0].gpu.model_class) * jobs[0].duration_millihours
            + sum_centralized(jobs.skip(1))
    }
}

proof fn lemma_sums_push(jobs: Seq<JobAllocation>, j: JobAllocation)
    ensures
        sum_costs(jobs.push(j)) == sum_costs(jobs) + j.cost_millicents,
        sum_centralized(jobs.push(j)) == sum_centralized(jobs) + spec_baseline_cents(
            j.gpu.model_class,
        ) * j.duration_millihours,
    decreases jobs.len(),
{
    if jobs.len() == 0 {
        assert(jobs.push(j)[0] == j);
        assert(jobs.push(j).skip(1) =~= Seq::<JobAllocation>::empty());
        assert(sum_costs(Seq::<JobAllocation>::empty()) == 0);
        assert(sum_centralized(Seq::<JobAllocation>::empty()) == 0);
    } else {
        assert(jobs.push(j)[0] == jobs[0]);
        assert(jobs.push(j).skip(1) =~= jobs.skip(1).push(j));
        lemma_sums_push(jobs.skip(1), j);
    }
}

proof fn lemma_sums_remove(jobs: Seq<JobAllocation>, i: int)
    requires
        0 <= i < jobs.len(),
    ensures
        sum_costs(jobs.remove(i)) == sum_costs(jobs) - jobs[i].cost_millicents,
        sum_centralized(jobs.remove(i)) == sum_centralized(jobs) - spec_baseline_cents(
            jobs[i].gpu.model_class,
        ) * jobs[i].duration_millihours,
    decreases jobs.len(),
{
    if i == 0 {
        assert(jobs.remove(0) =~= jobs.skip(1));
    } else {
        assert(jobs.remove(i).skip(1) =~= jobs.skip(1).remove(i - 1));
        lemma_sums_remove(jobs.skip(1), i - 1);
    }
}

proof fn lemma_sums_nonneg(jobs: Seq<JobAllocation>)
    ensures
        sum_costs(jobs) >= 0,
        sum_centralized(jobs) >= 0,
    decreases jobs.len(),
{
    if jobs.len() > 0 {
        lemma_sums_nonneg(jobs.skip(1));
    }
}

/// The first active allocation serving a job id.
pub open spec fn find_job(jobs: Seq<JobAllocation>, id: Seq<char>, i: int) -> Option<int>
    decreases jobs.len() - i,
{
    if i < 0 || i >= jobs.len() {
        None
    } else if jobs[i].job_id@ == id {
        Some(i)
    } else {
        find_job(jobs, id, i + 1)
    }
}

impl Web3GpuAggregator {
    pub closed spec fn spec_inventory(&self) -> Seq<GpuSpecs> {
        self.gpu_inventory@
    }

    pub closed spec fn spec_active_jobs(&self) -> Seq<JobAllocation> {
        self.active_jobs@
    }

    pub closed spec fn spec_total_cost(&self) -> nat {
        self.total_cost_millicents as nat
    }

    pub closed spec fn spec_total_centralized(&self) -> nat {
        self.total_centralized_millicents as nat
    }

    /// The running totals agree with the booked allocations.
    pub open spec fn wf(&self) -> bool {
        &&& self.spec_total_cost() as int == sum_costs(self.spec_active_jobs())
        &&& self.spec_total_centralized() as int == sum_centralized(self.spec_active_jobs())
    }

    /// An aggregator with an empty inventory and no allocations.
    pub fn new() -> (r: Web3GpuAggregator)
        ensures
            r.wf(),
            r.spec_inventory().len() == 0,
            r.spec_active_jobs().len() == 0,
    {
        Web3GpuAggregator {
            gpu_inventory: Vec::new(),
            active_jobs: Vec::new(),
            total_cost_millicents: 0,
            total_centralized_millicents: 0,
        }
    }

    /// Replaces the inventory with the merged listings of one refresh
    /// round (a failed provider contributes nothing and does not abort the
    /// refresh), sorted by throughput per price descending. Readers only
    /// ever see the snapshot before or after, never a partial merge.
    pub fn refresh_inventory(&mut self, provider_results: Vec<Option<Vec<GpuSpecs>>>)
        requires
            old(self).wf(),
        ensures
            final(self).wf(),
            final(self).spec_active_jobs() == old(self).spec_active_jobs(),
            final(self).spec_total_cost() == old(self).spec_total_cost(),
            sorted_by_value(final(self).spec_inventory()),
            final(self).spec_inventory().to_multiset() == merged_mset(provider_results@),
    {
        let ghost target = merged_mset(provider_results@);
        let mut incoming = provider_results;
        let mut pool: Vec<GpuSpecs> = Vec::new();
        proof {
            assert(pool@.to_multiset() =~= Multiset::<GpuSpecs>::empty());
            assert(pool@.to_multiset().add(merged_mset(incoming@)) =~= target);
        }
        while incoming.len() > 0
            invariant
                pool@.to_multiset().add(merged_mset(incoming@)) == target,
            decreases incoming@.len(),
        {
            proof {
                broadcast use vstd::seq_lib::group_to_multiset_ensures;
            }
            let ghost inc_before = incoming@;
            let next = incoming.pop();
            match next {
                Some(Some(mut v)) => {
                    proof {
                        assert(incoming@.push(Some(v)) =~= inc_before);
                        assert(merged_mset(inc_before) == merged_mset(incoming@).add(
                            v@.to_multiset(),
                        ));
                    }
                    let ghost rest = merged_mset(incoming@);
                    while v.len() > 0
                        invariant
                            pool@.to_multiset().add(v@.to_multiset()).add(rest) == target,
                            rest == merged_mset(incoming@),
                        decreases v@.len(),
                    {
                        proof {
                            broadcast use vstd::seq_lib::group_to_multiset_ensures;
                        }
                        let ghost v_before = v@;
                        let ghost pool_before = pool@;
                        let g = match v.pop() {
                            Some(g) => g,
                            None => vstd::pervasive::unreached(),
                        };
                        proof {
                            assert(v@.push(g) =~= v_before);
                            assert(v_before.to_multiset() =~= v@.to_multiset().insert(g));
                        }
                        pool.push(g);
                        proof {
                            assert(pool@.to_multiset() =~= pool_before.to_multiset().insert(g));
                            assert(pool@.to_multiset().add(v@.to_multiset()).add(rest)
                                =~= pool_before.to_multiset().add(v_before.to_multiset()).add(
                                rest,
                            ));
                        }
                    }
                    proof {
                        assert(v@.to_multiset() =~= Multiset::<GpuSpecs>::empty());
                        assert(pool@.to_multiset().add(merged_mset(incoming@)) =~= target);
                    }
                },
                Some(None) => {
                    proof {
                        assert(incoming@.push(None) =~= inc_before);
                        assert(merged_mset(inc_before) == merged_mset(incoming@).add(
                            Multiset::<GpuSpecs>::empty(),
                        ));
                        assert(pool@.to_multiset().add(merged_mset(incoming@)) =~= target);
                    }
                },
                None => vstd::pervasive::unreached(),
            }
        }
        proof {
            assert(merged_mset(incoming@) =~= Multiset::<GpuSpecs>::empty());
            assert(pool@.to_multiset() =~= target);
        }
        // Sort by value, descending: repeatedly insert each listing before
        // the first strictly less valuable one.
        let mut sorted: Vec<GpuSpecs> = Vec::new();
        proof {
            assert(sorted@.to_multiset() =~= Multiset::<GpuSpecs>::empty());
            assert(sorted@.to_multiset().add(pool@.to_multiset()) =~= target);
        }
        while pool.len() > 0
            invariant
                sorted_by_value(sorted@),
                sorted@.to_multiset().add(pool@.to_multiset()) == target,
            decreases pool@.len(),
        {
            proof {
                broadcast use vstd::seq_lib::group_to_multiset_ensures;
            }
            let ghost pool_before = pool@;
            let ghost sorted_before = sorted@;
            let g = match pool.pop() {
                Some(g) => g,
                None => vstd::pervasive::unreached(),
            };
            proof {
                assert(pool@.push(g) =~= pool_before);
                assert(pool_before.to_multiset() =~= pool@.to_multiset().insert(g));
            }
            insert_by_value(&mut sorted, g);
            proof {
                assert(sorted@.to_multiset().add(pool@.to_multiset())
                    =~= sorted_before.to_multiset().add(pool_before.to_multiset()));
            }
        }
        proof {
            assert(pool@.to_multiset() =~= Multiset::<GpuSpecs>::empty());
            assert(sorted@.to_multiset() =~= target);
        }
        self.gpu_inventory = sorted;
    }

    /// Selects the best listing for the requirements from the current
    /// snapshot: among the listings that meet them, the one its
    /// tie-break mode prefers, the earliest on ties. Fails with a provider
    /// error exactly when no listing qualifies.
    pub fn select_gpu(&self, requirements: &GpuRequirements) -> (r: Result<GpuSpecs, EngineError>)
        ensures
            r matches Ok(g) ==> best_listing_upto(
                self.spec_inventory(),
                requirements,
                self.spec_inventory().len() as int,
            ) matches Some(j) && gpu_eq(g, self.spec_inventory()[j]),
            r is Err <==> (forall|k: int|
                0 <= k < self.spec_inventory().len() ==> !meets(
                    requirements,
                    #[trigger] self.spec_inventory()[k],
                )),
            r matches Err(e) ==> e == EngineError::Provider,
    {
        let ghost inv = self.spec_inventory();
        let mut best: Option<usize> = None;
        let mut i: usize = 0;
        while i < self.gpu_inventory.len()
            invariant
                i <= inv.len(),
                inv == self.spec_inventory(),
                match best {
                    Some(j) => best_listing_upto(inv, requirements, i as int) == Some(j as int)
                        && j < i,
                    None => best_listing_upto(inv, requirements, i as int) is None,
                },
            decreases inv.len() - i,
        {
            let g = &self.gpu_inventory[i];
            if meets_exec(requirements, g) {
                match best {
                    None => {
                        best = Some(i);
                    },
                    Some(j) => {
                        if mode_better_exec(requirements.priority_mode, g, &self.gpu_inventory[j])
                        {
                            best = Some(i);
                        }
                    },
                }
            }
            i += 1;
        }
        proof {
            lemma_best_listing_sound(inv, requirements, inv.len() as int);
        }
        match best {
            Some(j) => Ok(clone_gpu(&self.gpu_inventory[j])),
            None => Err(EngineError::Provider),
        }
    }

    /// Books an allocation the provider granted: the listing snapshot, the
    /// provider's handle, and the accrued cost — hourly price times
    /// duration — enter the active set and the running totals. Fails with
    /// a capacity error exactly when a cost product or total would
    /// overflow, booking nothing.
    pub fn record_allocation(
        &mut self,
        job_id: String,
        gpu: GpuSpecs,
        duration_millihours: u64,
        allocation_id: String,
        start_time: u64,
    ) -> (r: Result<JobAllocation, EngineError>)
        requires
            old(self).wf(),
        ensures
            final(self).wf(),
            final(self).spec_inventory() == old(self).spec_inventory(),
            ({
                let cost = gpu.price_per_hour_cents * duration_millihours;
                let central = spec_baseline_cents(gpu.model_class) * duration_millihours;
                let fits = cost <= u64::MAX && old(self).spec_total_cost() + cost <= u64::MAX
                    && old(self).spec_total_centralized() + central <= u64::MAX;
                &&& (!fits ==> r == Err::<JobAllocation, EngineError>(EngineError::Capacity)
                    && final(self).spec_active_jobs() == old(self).spec_active_jobs()
                    && final(self).spec_total_cost() == old(self).spec_total_cost())
                &&& (fits ==> {
                    &&& r matches Ok(a)
                    &&& a.job_id@ == job_id@
                    &&& a.allocation_id@ == allocation_id@
                    &&& gpu_eq(a.gpu, gpu)
                    &&& a.start_time == start_time
                    &&& a.duration_millihours == duration_millihours
                    &&& a.status == AllocationStatus::Active
                    &&& a.cost_millicents == cost
                    &&& final(self).spec_active_jobs().len() == old(self).spec_active_jobs().len()
                        + 1
                    &&& final(self).spec_active_jobs().take(
                        old(self).spec_active_jobs().len() as int,
                    ) == old(self).spec_active_jobs()
                    &&& final(self).spec_total_cost() == old(self).spec_total_cost() + cost
                })
            }),
    {
        let baseline = baseline_cents(gpu.model_class);
        if duration_millihours != 0 && (gpu.price_per_hour_cents > u64::MAX / duration_millihours
            || baseline > u64::MAX / duration_millihours) {
            proof {
                lemma_mul_div_bound(
                    gpu.price_per_hour_cents as int,
                    duration_millihours as int,
                    u64::MAX as int,
                );
                lemma_mul_div_bound(
                    baseline as int,
                    duration_millihours as int,
                    u64::MAX as int,
                );
            }
            return Err(EngineError::Capacity);
        }
        proof {
            if duration_millihours != 0 {
                lemma_mul_div_bound(
                    gpu.price_per_hour_cents as int,
                    duration_millihours as int,
                    u64::MAX as int,
                );
                lemma_mul_div_bound(baseline as int, duration_millihours as int, u64::MAX as int);
            }
        }
        let cost = if duration_millihours == 0 {
            0
        } else {
            gpu.price_per_hour_cents * duration_millihours
        };
        let central = if duration_millihours == 0 {
            0
        } else {
            baseline * duration_millihours
        };
        if cost > u64::MAX - self.total_cost_millicents || central > u64::MAX
            - self.total_centralized_millicents {
            return Err(EngineError::Capacity);
        }
        let allocation = JobAllocation {
            job_id,
            allocation_id,
            gpu,
            start_time,
            duration_millihours,
            status: AllocationStatus::Active,
            cost_millicents: cost,
        };
        let booked = JobAllocation {
            job_id: allocation.job_id.clone(),
            allocation_id: allocation.allocation_id.clone(),
            gpu: clone_gpu(&allocation.gpu),
            start_time,
            duration_millihours,
            status: AllocationStatus::Active,
            cost_millicents: cost,
        };
        proof {
            lemma_sums_push(self.active_jobs@, booked);
        }
        self.total_cost_millicents = self.total_cost_millicents + cost;
        self.total_centralized_millicents = self.total_centralized_millicents + central;
        self.active_jobs.push(booked);
        proof {
            assert(self.active_jobs@.take(old(self).spec_active_jobs().len() as int) =~= old(
                self,
            ).spec_active_jobs());
            assert(spec_baseline_cents(allocation.gpu.model_class) == baseline as int);
        }
        Ok(allocation)
    }

    /// Releases the allocation serving a job: the first matching booking
    /// leaves the active set and the totals, and its provider handle is
    /// returned so the provider can be told. Nothing happens for an
    /// unknown job id.
    pub fn release_gpu(&mut self, job_id: &String) -> (r: Option<String>)
        requires
            old(self).wf(),
        ensures
            final(self).wf(),
            final(self).spec_inventory() == old(self).spec_inventory(),
            find_job(old(self).spec_active_jobs(), job_id@, 0) is None ==> r is None
                && final(self).spec_active_jobs() == old(self).spec_active_jobs(),
            find_job(old(self).spec_active_jobs(), job_id@, 0) matches Some(j) ==> {
                &&& r matches Some(h) && h@ == old(self).spec_active_jobs()[j].allocation_id@
                &&& final(self).spec_active_jobs() == old(self).spec_active_jobs().remove(j)
            },
    {
        let ghost jobs0 = self.active_jobs@;
        let mut i: usize = 0;
        while i < self.active_jobs.len()
            invariant
                i <= jobs0.len(),
                self.active_jobs@ == jobs0,
                self == old(self),
                self.wf(),
                find_job(jobs0, job_id@, 0) == find_job(jobs0, job_id@, i as int),
            decreases jobs0.len() - i,
        {
            if string_eq(&self.active_jobs[i].job_id, job_id) {
                proof {
                    lemma_sums_remove(jobs0, i as int);
                    lemma_sums_nonneg(jobs0.remove(i as int));
                    assert(self.wf());
                    assert(spec_baseline_cents(jobs0[i as int].gpu.model_class)
                        * jobs0[i as int].duration_millihours >= 0) by {
                        baseline_nonneg(jobs0[i as int].gpu.model_class);
                    }
                }
                let removed = self.active_jobs.remove(i);
                let base = baseline_cents(removed.gpu.model_class);
                proof {
                    lemma_sum_bounds(jobs0, i as int);
                }
                self.total_cost_millicents = self.total_cost_millicents
                    - removed.cost_millicents;
                self.total_centralized_millicents = self.total_centralized_millicents - base
                    * removed.duration_millihours;
                return Some(removed.allocation_id);
            }
            i += 1;
        }
        None
    }

    /// The marketplace cost of all active allocations, in thousandths of a
    /// cent.
    pub fn get_current_costs(&self) -> (r: u64)
        requires
            self.wf(),
        ensures
            r as int == sum_costs(self.spec_active_jobs()),
    {
        self.total_cost_millicents
    }

    /// How the marketplace spend compares with the centralized list prices
    /// for the same cards and durations: the absolute saving and its share
    /// of the baseline in whole percent.
    pub fn calculate_savings(&self) -> (r: SavingsReport)
        requires
            self.wf(),
        ensures
            r.web3_cost as int == sum_costs(self.spec_active_jobs()),
            r.centralized_cost as int == sum_centralized(self.spec_active_jobs()),
            r.savings == r.centralized_cost - r.web3_cost,
            r.savings_percentage == spec_savings_percent(
                r.web3_cost as int,
                r.centralized_cost as int,
            ),
            r.active_jobs as int == self.spec_active_jobs().len(),
    {
        let web3 = self.total_cost_millicents;
        let central = self.total_centralized_millicents;
        let savings: i128 = central as i128 - web3 as i128;
        let savings_percentage: i128 = if central == 0 {
            0
        } else if central >= web3 {
            (((central - web3) as u128 * 100) / central as u128) as i128
        } else {
            -((((web3 - central) as u128 * 100) / central as u128) as i128)
        };
        SavingsReport {
            web3_cost: web3,
            centralized_cost: central,
            savings,
            savings_percentage,
            active_jobs: self.active_jobs.len(),
        }
    }

    /// How many listings the current snapshot holds.
    pub fn inventory_len(&self) -> (r: usize)
        ensures
            r as nat == self.spec_inventory().len(),
    {
        self.gpu_inventory.len()
    }

    /// The listing at an index of the current snapshot.
    pub fn inventory_at(&self, i: usize) -> (r: GpuSpecs)
        requires
            (i as int) < self.spec_inventory().len(),
        ensures
            gpu_eq(r, self.spec_inventory()[i as int]),
    {
        clone_gpu(&self.gpu_inventory[i])
    }

    /// How many allocations are active.
    pub fn active_job_count(&self) -> (r: usize)
        ensures
            r as nat == self.spec_active_jobs().len(),
    {
        self.active_jobs.len()
    }
}

/// The baseline price is never negative.
proof fn baseline_nonneg(c: GpuModelClass)
    ensures
        spec_baseline_cents(c) >= 0,
{
}

/// A removed booking's contributions are bounded by the totals.
proof fn lemma_sum_bounds(jobs: Seq<JobAllocation>, i: int)
    requires
        0 <= i < jobs.len(),
    ensures
        jobs[i].cost_millicents <= sum_costs(jobs),
        spec_baseline_cents(jobs[i].gpu.model_class) * jobs[i].duration_millihours
            <= sum_centralized(jobs),
{
    lemma_sums_remove(jobs, i);
    lemma_sums_nonneg(jobs.remove(i));
}

/// A product stays within a bound exactly when one factor stays under the
/// bound divided by the other.
proof fn lemma_mul_div_bound(p: int, d: int, m: int)
    requires
        d > 0,
        m >= 0,
        p >= 0,
    ensures
        (p <= m / d) <==> (p * d <= m),
{
    vstd::arithmetic::div_mod::lemma_fundamental_div_mod(m, d);
    vstd::arithmetic::div_mod::lemma_mod_division_less_than_divisor(m, d);
    let q = m / d;
    let rem = m % d;
    assert(m == d * q + rem);
    if p <= q {
        assert(p * d <= m) by (nonlinear_arith)
            requires
                p <= q,
                d > 0,
                0 <= rem,
                m == d * q + rem,
        ;
    } else {
        assert(p * d > m) by (nonlinear_arith)
            requires
                p >= q + 1,
                d > 0,
                rem < d,
                m == d * q + rem,
        ;
    }
}

/// Exact string comparison.
pub fn string_eq(a: &String, b: &String) -> (r: bool)
    ensures
        r == (a@ == b@),
{
    a.eq(b)
}

/// Inserts a listing into a value-sorted vector, keeping it sorted; the
/// contents gain exactly that listing.
fn insert_by_value(v: &mut Vec<GpuSpecs>, g: GpuSpecs)
    requires
        sorted_by_value(old(v)@),
    ensures
        sorted_by_value(final(v)@),
        final(v)@.to_multiset() == old(v)@.to_multiset().insert(g),
{
    proof {
        broadcast use vstd::seq_lib::group_to_multiset_ensures;
    }
    let ghost orig = v@;
    let mut pos: usize = 0;
    loop
        invariant
            pos <= orig.len(),
            v@ == orig,
            sorted_by_value(orig),
            forall|k: int| 0 <= k < pos ==> value_ge(#[trigger] orig[k], g),
        ensures
            pos <= orig.len(),
            v@ == orig,
            forall|k: int| 0 <= k < pos ==> value_ge(#[trigger] orig[k], g),
            (pos as int) < orig.len() ==> !value_ge(orig[pos as int], g),
        decreases orig.len() - pos,
    {
        if pos >= v.len() {
            break ;
        }
        if !value_ge_exec(&v[pos], &g) {
            break ;
        }
        pos += 1;
    }
    proof {
        if (pos as int) < orig.len() {
            assert(!value_ge(orig[pos as int], g));
            lemma_value_total(orig[pos as int], g);
            assert(value_ge(g, orig[pos as int]));
        }
    }
    v.insert(pos, g);
    proof {
        broadcast use vstd::seq_lib::group_to_multiset_ensures;

        let s = v@;
        assert(s == orig.insert(pos as int, g));
        assert forall|i: int, j: int| 0 <= i < j < s.len() implies value_ge(
            #[trigger] s[i],
            #[trigger] s[j],
        ) by {
            if j < pos {
                assert(s[i] == orig[i] && s[j] == orig[j]);
            } else if i < pos && j == pos {
                assert(s[i] == orig[i] && s[j] == g);
            } else if i < pos && j > pos {
                assert(s[i] == orig[i] && s[j] == orig[j - 1]);
            } else if i == pos {
                assert(s[i] == g && s[j] == orig[j - 1]);
                assert(j - 1 >= pos);
                if j - 1 == pos {
                    assert(!value_ge(orig[pos as int], g));
                    lemma_value_total(orig[pos as int], g);
                } else {
                    assert(!value_ge(orig[pos as int], g));
                    lemma_value_total(orig[pos as int], g);
                    assert(value_ge(orig[pos as int], orig[j - 1]));
                    lemma_value_trans(g, orig[pos as int], orig[j - 1]);
                }
            } else {
                assert(s[i] == orig[i - 1] && s[j] == orig[j - 1]);
            }
        }
        assert(s.to_multiset() == orig.to_multiset().insert(g)) by {
            lemma_insert_multiset(orig, pos as int, g);
        }
    }
}

/// Value order is transitive: whoever beats a beater beats the beaten.
proof fn lemma_value_trans(a: GpuSpecs, b: GpuSpecs, c: GpuSpecs)
    requires
        value_ge(a, b),
        value_ge(b, c),
    ensures
        value_ge(a, c),
{
    if a.price_per_hour_cents > 0 && b.price_per_hour_cents > 0 && c.price_per_hour_cents > 0 {
        lemma_cross_mul_trans(
            a.tflops_tenths as int,
            a.price_per_hour_cents as int,
            b.tflops_tenths as int,
            b.price_per_hour_cents as int,
            c.tflops_tenths as int,
            c.price_per_hour_cents as int,
        );
    }
}

/// Transitivity of the cross-multiplied ratio order over positive
/// denominators.
proof fn lemma_cross_mul_trans(at: int, ap: int, bt: int, bp: int, ct: int, cp: int)
    requires
        ap > 0,
        bp > 0,
        cp > 0,
        at >= 0,
        bt >= 0,
        ct >= 0,
        at * bp >= bt * ap,
        bt * cp >= ct * bp,
    ensures
        at * cp >= ct * ap,
{
    assert((at * bp) * cp >= (bt * ap) * cp) by (nonlinear_arith)
        requires
            at * bp >= bt * ap,
            cp > 0,
    ;
    assert((bt * cp) * ap >= (ct * bp) * ap) by (nonlinear_arith)
        requires
            bt * cp >= ct * bp,
            ap > 0,
    ;
    assert((at * cp) * bp >= (ct * ap) * bp) by (nonlinear_arith)
        requires
            (at * bp) * cp >= (bt * ap) * cp,
            (bt * cp) * ap >= (ct * bp) * ap,
    ;
    assert(at * cp >= ct * ap) by (nonlinear_arith)
        requires
            (at * cp) * bp >= (ct * ap) * bp,
            bp > 0,
    ;
}

/// Inserting anywhere adds exactly one occurrence to the contents.
proof fn lemma_insert_multiset(s: Seq<GpuSpecs>, pos: int, g: GpuSpecs)
    requires
        0 <= pos <= s.len(),
    ensures
        s.insert(pos, g).to_multiset() == s.to_multiset().insert(g),
    decreases s.len() - pos,
{
    broadcast use vstd::seq_lib::group_to_multiset_ensures;

    if pos == s.len() {
        assert(s.insert(pos, g) =~= s.push(g));
    } else {
        let t = s.insert(pos, g);
        assert(t.remove(t.len() - 1) =~= s.drop_last().insert(pos, g));
        assert(t[t.len() - 1] == s.last());
        lemma_insert_multiset(s.drop_last(), pos, g);
        assert(s.drop_last().push(s.last()) =~= s);
        calc! {
            (==)
            t.to_multiset(); {
                assert(t.remove(t.len() - 1).to_multiset() =~= t.to_multiset().remove(
                    t[t.len() - 1],
                ));
                lemma_multiset_reinsert(t.to_multiset(), s.last(), s.drop_last().insert(pos, g).to_multiset());
            }
            s.drop_last().insert(pos, g).to_multiset().insert(s.last()); {}
            s.drop_last().to_multiset().insert(g).insert(s.last()); {
                assert(s.drop_last().to_multiset().insert(g).insert(s.last())
                    =~= s.drop_last().to_multiset().insert(s.last()).insert(g));
            }
            s.drop_last().to_multiset().insert(s.last()).insert(g); {
                assert(s.drop_last().push(s.last()).to_multiset() =~= s.drop_last().to_multiset().insert(s.last()));
            }
            s.to_multiset().insert(g);
        }
    }
}

/// A multiset that contains `x` is its own remove-then-insert of `x`.
proof fn lemma_multiset_reinsert(m: Multiset<GpuSpecs>, x: GpuSpecs, rest: Multiset<GpuSpecs>)
    requires
        m.count(x) >= 1,
        m.remove(x) == rest,
    ensures
        m == rest.insert(x),
{
    assert(m =~= rest.insert(x));
}


/// One catalog listing, assembled from plain values.
pub fn make_listing(
    model: &str,
    model_class: GpuModelClass,
    vram_gb: u32,
    compute_capability_tenths: u32,
    tflops_tenths: u64,
    price_per_hour_cents: u64,
    provider: GpuProvider,
    location: &str,
    latency_ms: u32,
) -> (r: GpuSpecs)
    ensures
        r.model@ == model@,
        r.model_class == model_class,
        r.vram_gb == vram_gb,
        r.compute_capability_tenths == compute_capability_tenths,
        r.tflops_tenths == tflops_tenths,
        r.available,
        r.price_per_hour_cents == price_per_hour_cents,
        r.provider == provider,
        r.location@ == location@,
        r.latency_ms == latency_ms,
{
    GpuSpecs {
        model: model.to_owned(),
        model_class,
        vram_gb,
        compute_capability_tenths,
        tflops_tenths,
        available: true,
        price_per_hour_cents,
        provider,
        location: location.to_owned(),
        latency_ms,
    }
}

/// The sample io.net catalog: the three cards the provider plug-in answers
/// with when no live inventory is wired up.
pub fn ionet_catalog() -> (r: Vec<GpuSpecs>)
    ensures
        r@.len() == 3,
        r@[0].model@ == "RTX 4090"@ && r@[0].model_class == GpuModelClass::Rtx4090 && r@[0].vram_gb
            == 24 && r@[0].tflops_tenths == 826 && r@[0].price_per_hour_cents == 35
            && r@[0].latency_ms == 20 && r@[0].provider == GpuProvider::IoNet && r@[0].available,
        r@[1].model@ == "RTX 3090"@ && r@[1].model_class == GpuModelClass::Other && r@[1].vram_gb
            == 24 && r@[1].tflops_tenths == 356 && r@[1].price_per_hour_cents == 20
            && r@[1].latency_ms == 120 && r@[1].provider == GpuProvider::IoNet && r@[1].available,
        r@[2].model@ == "A100 40GB"@ && r@[2].model_class == GpuModelClass::A100 && r@[2].vram_gb
            == 40 && r@[2].tflops_tenths == 195 && r@[2].price_per_hour_cents == 80
            && r@[2].latency_ms == 180 && r@[2].provider == GpuProvider::IoNet && r@[2].available,
{
    let mut out: Vec<GpuSpecs> = Vec::new();
    out.push(
        make_listing("RTX 4090", GpuModelClass::Rtx4090, 24, 89, 826, 35, GpuProvider::IoNet, "US-West", 20),
    );
    out.push(
        make_listing("RTX 3090", GpuModelClass::Other, 24, 86, 356, 20, GpuProvider::IoNet, "EU-Central", 120),
    );
    out.push(
        make_listing("A100 40GB", GpuModelClass::A100, 40, 80, 195, 80, GpuProvider::IoNet, "Asia-Pacific", 180),
    );
    out
}

/// The sample Render Network catalog.
pub fn render_catalog() -> (r: Vec<GpuSpecs>)
    ensures
        r@.len() == 1,
        r@[0].model@ == "RTX 4080"@ && r@[0].model_class == GpuModelClass::Other && r@[0].vram_gb
            == 16 && r@[0].tflops_tenths == 487 && r@[0].price_per_hour_cents == 25
            && r@[0].latency_ms == 15 && r@[0].provider == GpuProvider::RenderNetwork
            && r@[0].available,
{
    let mut out: Vec<GpuSpecs> = Vec::new();
    out.push(
        make_listing(
            "RTX 4080",
            GpuModelClass::Other,
            16,
            89,
            487,
            25,
            GpuProvider::RenderNetwork,
            "US-East",
            15,
        ),
    );
    out
}

/// The sample Akash catalog.
pub fn akash_catalog() -> (r: Vec<GpuSpecs>)
    ensures
        r@.len() == 1,
        r@[0].model@ == "T4"@ && r@[0].model_class == GpuModelClass::Other && r@[0].vram_gb == 16
            && r@[0].tflops_tenths == 81 && r@[0].price_per_hour_cents == 10 && r@[0].latency_ms
            == 50 && r@[0].provider == GpuProvider::Akash && r@[0].available,
{
    let mut out: Vec<GpuSpecs> = Vec::new();
    out.push(
        make_listing("T4", GpuModelClass::Other, 16, 75, 81, 10, GpuProvider::Akash, "Global", 50),
    );
    out
}

} // verus!
