//! The optional pre-filter: a deterministic byte-to-byte transform chosen
//! by a level selector, applied to a job's input before execution. Each
//! level's byte operations are fixed here and pinned by tests.

use vstd::prelude::*;
use crate::types::EngineError;

verus! {

/// The pre-filter levels, in ascending order of aggressiveness.
#[derive(Debug, Clone, Copy, PartialEq, Eq, Structural, Hash)]
pub enum ConsciousnessLevel {
    /// Linear pass: every byte is incremented, wrapping.
    Alpha,
    /// Block pass: each full four-byte block's first byte becomes the
    /// block's wrapping sum.
    Beta,
    /// Recursive pass: three rounds of halve-and-fold with exclusive or.
    Gamma,
    /// Mask pass: every byte is flipped with the alternating bit mask.
    Delta,
    /// Golden-ratio pass: position times the golden ratio, in thousandths,
    /// is added to each byte, wrapping.
    Omega,
}

/// The rank of a level: elevation only ever moves up this order.
pub open spec fn level_rank(l: ConsciousnessLevel) -> int {
    match l {
        ConsciousnessLevel::Alpha => 0,
        ConsciousnessLevel::Beta => 1,
        ConsciousnessLevel::Gamma => 2,
        ConsciousnessLevel::Delta => 3,
        ConsciousnessLevel::Omega => 4,
    }
}

impl ConsciousnessLevel {
    /// The simulated core budget of a level.
    pub fn core_count(&self) -> (r: usize)
        ensures
            r == match *self {
                ConsciousnessLevel::Alpha => 1024usize,
                ConsciousnessLevel::Beta => 4096usize,
                ConsciousnessLevel::Gamma => 16384usize,
                ConsciousnessLevel::Delta => 65536usize,
                ConsciousnessLevel::Omega => 262144usize,
            },
    {
        match self {
            ConsciousnessLevel::Alpha => 1024,
            ConsciousnessLevel::Beta => 4096,
            ConsciousnessLevel::Gamma => 16384,
            ConsciousnessLevel::Delta => 65536,
            ConsciousnessLevel::Omega => 262144,
        }
    }

    /// The throughput multiplier of a level, in ten-thousandths (Alpha is
    /// one, and each step up multiplies by two and a half).
    pub fn multiplier_permyriad(&self) -> (r: u64)
        ensures
            r == match *self {
                ConsciousnessLevel::Alpha => 10000u64,
                ConsciousnessLevel::Beta => 25000u64,
                ConsciousnessLevel::Gamma => 62500u64,
                ConsciousnessLevel::Delta => 156250u64,
                ConsciousnessLevel::Omega => 390625u64,
            },
    {
        match self {
            ConsciousnessLevel::Alpha => 10000,
            ConsciousnessLevel::Beta => 25000,
            ConsciousnessLevel::Gamma => 62500,
            ConsciousnessLevel::Delta => 156250,
            ConsciousnessLevel::Omega => 390625,
        }
    }

    /// The complexity threshold, in thousandths, at which a workload earns
    /// this level.
    pub fn threshold_permille(&self) -> (r: u32)
        ensures
            r == spec_threshold_permille(*self),
    {
        match self {
            ConsciousnessLevel::Alpha => 100,
            ConsciousnessLevel::Beta => 300,
            ConsciousnessLevel::Gamma => 500,
            ConsciousnessLevel::Delta => 700,
            ConsciousnessLevel::Omega => 900,
        }
    }

    /// The level's rank.
    pub fn rank(&self) -> (r: u8)
        ensures
            r as int == level_rank(*self),
    {
        match self {
            ConsciousnessLevel::Alpha => 0,
            ConsciousnessLevel::Beta => 1,
            ConsciousnessLevel::Gamma => 2,
            ConsciousnessLevel::Delta => 3,
            ConsciousnessLevel::Omega => 4,
        }
    }
}

/// The complexity threshold of each level, in thousandths.
pub open spec fn spec_threshold_permille(l: ConsciousnessLevel) -> u32 {
    match l {
        ConsciousnessLevel::Alpha => 100u32,
        ConsciousnessLevel::Beta => 300u32,
        ConsciousnessLevel::Gamma => 500u32,
        ConsciousnessLevel::Delta => 700u32,
        ConsciousnessLevel::Omega => 900u32,
    }
}

/// The Alpha transform: every byte incremented, wrapping.
pub open spec fn alpha_transform(s: Seq<u8>) -> Seq<u8> {
    Seq::new(s.len(), |i: int| ((s[i] + 1) % 256) as u8)
}

/// The Beta transform: the first byte of each full four-byte block becomes
/// the block's wrapping sum; a short final block and the rest of each block
/// stay as they are.
pub open spec fn beta_transform(s: Seq<u8>) -> Seq<u8> {
    Seq::new(
        s.len(),
        |i: int|
            if i % 4 == 0 && i + 3 < s.len() {
                ((s[i] + s[i + 1] + s[i + 2] + s[i + 3]) % 256) as u8
            } else {
                s[i]
            },
    )
}

/// The Gamma transform at a recursion budget: the bytes are halved, each
/// half transformed one level shallower, and the left half folded into the
/// right with exclusive or.
pub open spec fn gamma_transform(s: Seq<u8>, depth: nat) -> Seq<u8>
    decreases depth,
{
    if depth == 0 || s.len() == 0 {
        s
    } else {
        let mid = s.len() as int / 2;
        let l = gamma_transform(s.take(mid), (depth - 1) as nat);
        let r = gamma_transform(s.skip(mid), (depth - 1) as nat);
        Seq::new(l.len(), |i: int| (l[i] ^ r[i]) as u8) + r
    }
}

/// The Gamma transform keeps the byte count.
pub proof fn lemma_gamma_len(s: Seq<u8>, depth: nat)
    ensures
        gamma_transform(s, depth).len() == s.len(),
    decreases depth,
{
    if depth == 0 || s.len() == 0 {
    } else {
        let mid = s.len() as int / 2;
        lemma_gamma_len(s.take(mid), (depth - 1) as nat);
        lemma_gamma_len(s.skip(mid), (depth - 1) as nat);
    }
}

/// The alternating bit mask of the Delta transform.
pub const DELTA_MASK: u8 = 0xAA;

/// The Delta transform: every byte flipped with the alternating mask.
pub open spec fn delta_transform(s: Seq<u8>) -> Seq<u8> {
    Seq::new(s.len(), |i: int| (s[i] ^ DELTA_MASK) as u8)
}

/// The golden ratio in thousandths, the Omega transform's step.
pub const GOLDEN_RATIO_PERMILLE: u64 = 1618;

/// The Omega transform: each byte gains its position times the golden
/// ratio (in whole thousandths), wrapping.
pub open spec fn omega_transform(s: Seq<u8>) -> Seq<u8> {
    Seq::new(s.len(), |i: int| ((s[i] + (i * GOLDEN_RATIO_PERMILLE / 1000) % 256) % 256) as u8)
}

/// The deterministic byte transform of a level: a pure function of the
/// input bytes and the level alone.
pub open spec fn spec_transform(s: Seq<u8>, level: ConsciousnessLevel) -> Seq<u8> {
    match level {
        ConsciousnessLevel::Alpha => alpha_transform(s),
        ConsciousnessLevel::Beta => beta_transform(s),
        ConsciousnessLevel::Gamma => gamma_transform(s, 3),
        ConsciousnessLevel::Delta => delta_transform(s),
        ConsciousnessLevel::Omega => omega_transform(s),
    }
}

/// The bytes of `v` from `start` (inclusive) to `end` (exclusive).
fn sub_bytes(v: &Vec<u8>, start: usize, end: usize) -> (r: Vec<u8>)
    requires
        start <= end <= v@.len(),
    ensures
        r@ == v@.subrange(start as int, end as int),
{
    let mut out: Vec<u8> = Vec::new();
    let mut i: usize = start;
    while i < end
        invariant
            start <= i <= end <= v@.len(),
            out@ =~= v@.subrange(start as int, i as int),
        decreases end - i,
    {
        out.push(v[i]);
        i += 1;
    }
    proof {
        assert(out@ =~= v@.subrange(start as int, end as int));
    }
    out
}

/// The Gamma recursion: halve, recurse, fold left into right.
fn gamma_rec(v: &Vec<u8>, depth: u32) -> (r: Vec<u8>)
    ensures
        r@ == gamma_transform(v@, depth as nat),
    decreases depth,
{
    if depth == 0 || v.len() == 0 {
        return crate::verification::clone_bytes(v);
    }
    let mid = v.len() / 2;
    let left_part = sub_bytes(v, 0, mid);
    let right_part = sub_bytes(v, mid, v.len());
    proof {
        assert(left_part@ =~= v@.take(mid as int));
        assert(right_part@ =~= v@.skip(mid as int));
    }
    let l = gamma_rec(&left_part, depth - 1);
    let r = gamma_rec(&right_part, depth - 1);
    proof {
        lemma_gamma_len(left_part@, (depth - 1) as nat);
        lemma_gamma_len(right_part@, (depth - 1) as nat);
    }
    let mut out: Vec<u8> = Vec::new();
    let mut i: usize = 0;
    while i < l.len()
        invariant
            i <= l@.len(),
            l@.len() <= r@.len(),
            out@ =~= Seq::new(l@.len(), |k: int| (l@[k] ^ r@[k]) as u8).take(i as int),
        decreases l@.len() - i,
    {
        let b = l[i] ^ r[i];
        out.push(b);
        i += 1;
    }
    let mut j: usize = 0;
    while j < r.len()
        invariant
            j <= r@.len(),
            out@ =~= Seq::new(l@.len(), |k: int| (l@[k] ^ r@[k]) as u8) + r@.take(j as int),
        decreases r@.len() - j,
    {
        out.push(r[j]);
        j += 1;
    }
    proof {
        assert(out@ =~= Seq::new(l@.len(), |k: int| (l@[k] ^ r@[k]) as u8) + r@);
    }
    out
}

/// Applies a level's transform to the input bytes: the exact per-level
/// byte operations the module documents, and nothing else.
pub fn apply_consciousness_transform(input: &Vec<u8>, level: ConsciousnessLevel) -> (r: Vec<u8>)
    ensures
        r@ == spec_transform(input@, level),
        r@.len() == input@.len(),
{
    let n = input.len();
    match level {
        ConsciousnessLevel::Alpha => {
            let mut out: Vec<u8> = Vec::new();
            let mut i: usize = 0;
            while i < n
                invariant
                    i <= n,
                    n == input@.len(),
                    out@ =~= alpha_transform(input@).take(i as int),
                decreases n - i,
            {
                let b = input[i];
                out.push(((b as u16 + 1) % 256) as u8);
                i += 1;
            }
            proof {
                assert(out@ =~= alpha_transform(input@));
            }
            out
        },
        ConsciousnessLevel::Beta => {
            let mut out: Vec<u8> = Vec::new();
            let mut i: usize = 0;
            while i < n
                invariant
                    i <= n,
                    n == input@.len(),
                    out@ =~= beta_transform(input@).take(i as int),
                decreases n - i,
            {
                let b = if i % 4 == 0 && i + 3 < n {
                    let sum = input[i] as u32 + input[i + 1] as u32 + input[i + 2] as u32
                        + input[i + 3] as u32;
                    (sum % 256) as u8
                } else {
                    input[i]
                };
                out.push(b);
                i += 1;
            }
            proof {
                assert(out@ =~= beta_transform(input@));
            }
            out
        },
        ConsciousnessLevel::Gamma => {
            let out = gamma_rec(input, 3);
            proof {
                lemma_gamma_len(input@, 3);
            }
            out
        },
        ConsciousnessLevel::Delta => {
            let mut out: Vec<u8> = Vec::new();
            let mut i: usize = 0;
            while i < n
                invariant
                    i <= n,
                    n == input@.len(),
                    out@ =~= delta_transform(input@).take(i as int),
                decreases n - i,
            {
                let b = input[i] ^ DELTA_MASK;
                out.push(b);
                i += 1;
            }
            proof {
                assert(out@ =~= delta_transform(input@));
            }
            out
        },
        ConsciousnessLevel::Omega => {
            let mut out: Vec<u8> = Vec::new();
            let mut i: usize = 0;
            while i < n
                invariant
                    i <= n,
                    n == input@.len(),
                    out@ =~= omega_transform(input@).take(i as int),
                decreases n - i,
            {
                let step = ((i as u128) * (GOLDEN_RATIO_PERMILLE as u128) / 1000 % 256) as u64;
                let b = ((input[i] as u64 + step) % 256) as u8;
                out.push(b);
                i += 1;
            }
            proof {
                assert(out@ =~= omega_transform(input@));
            }
            out
        },
    }
}

/// The pre-filter processor: a current level that can only be elevated,
/// and the deterministic transform at that level.
pub struct WarpSpeedProcessor {
    level: ConsciousnessLevel,
    gpu_enabled: bool,
}

impl WarpSpeedProcessor {
    pub closed spec fn spec_level(&self) -> ConsciousnessLevel {
        self.level
    }

    pub closed spec fn spec_gpu_enabled(&self) -> bool {
        self.gpu_enabled
    }

    /// A processor at the given starting level.
    pub fn new(initial_level: ConsciousnessLevel, gpu_enabled: bool) -> (r: Result<
        WarpSpeedProcessor,
        EngineError,
    >)
        ensures
            r matches Ok(p) && p.spec_level() == initial_level && p.spec_gpu_enabled()
                == gpu_enabled,
    {
        Ok(WarpSpeedProcessor { level: initial_level, gpu_enabled })
    }

    /// The current level.
    pub fn level(&self) -> (r: ConsciousnessLevel)
        ensures
            r == self.spec_level(),
    {
        self.level
    }

    /// Elevates to the target level; a target at or below the current
    /// level changes nothing.
    pub fn elevate_to(&mut self, target: ConsciousnessLevel) -> (r: Result<(), EngineError>)
        ensures
            r is Ok,
            final(self).spec_gpu_enabled() == old(self).spec_gpu_enabled(),
            level_rank(target) <= level_rank(old(self).spec_level()) ==> final(self).spec_level()
                == old(self).spec_level(),
            level_rank(target) > level_rank(old(self).spec_level()) ==> final(self).spec_level()
                == target,
    {
        if target.rank() <= self.level.rank() {
            return Ok(());
        }
        self.level = target;
        Ok(())
    }

    /// Transforms the input at the current level, elevating first when a
    /// target level is given.
    pub fn process(&mut self, input: &Vec<u8>, target_level: Option<ConsciousnessLevel>) -> (r:
        Result<Vec<u8>, EngineError>)
        ensures
            final(self).spec_gpu_enabled() == old(self).spec_gpu_enabled(),
            level_rank(final(self).spec_level()) >= level_rank(old(self).spec_level()),
            r matches Ok(v) && v@ == spec_transform(input@, final(self).spec_level()),
    {
        if let Some(target) = target_level {
            let _ = self.elevate_to(target);
        }
        Ok(apply_consciousness_transform(input, self.level))
    }
}

/// The bridge that runs the pre-filter ahead of backend execution: it maps
/// a workload's complexity to a level and processes the input there.
pub struct WarpReassemblyBridge {
    processor: WarpSpeedProcessor,
}

impl WarpReassemblyBridge {
    pub closed spec fn spec_processor(&self) -> WarpSpeedProcessor {
        self.processor
    }

    /// A bridge around a processor.
    pub fn new(processor: WarpSpeedProcessor) -> (r: WarpReassemblyBridge)
        ensures
            r.spec_processor() == processor,
    {
        WarpReassemblyBridge { processor }
    }

    /// The level a workload complexity (in thousandths) earns: the highest
    /// level whose threshold it reaches, Alpha when it reaches none.
    pub fn select_consciousness_level(&self, complexity_permille: u32) -> (r: ConsciousnessLevel)
        ensures
            r == spec_select_level(complexity_permille),
    {
        if complexity_permille >= 900 {
            ConsciousnessLevel::Omega
        } else if complexity_permille >= 700 {
            ConsciousnessLevel::Delta
        } else if complexity_permille >= 500 {
            ConsciousnessLevel::Gamma
        } else if complexity_permille >= 300 {
            ConsciousnessLevel::Beta
        } else {
            ConsciousnessLevel::Alpha
        }
    }

    /// Pre-filters a computation's input: the level earned by the given
    /// complexity is applied (elevating the processor as needed) and the
    /// transformed bytes returned.
    pub fn enhance_computation(&mut self, input: &Vec<u8>, complexity_permille: u32) -> (r: Result<
        Vec<u8>,
        EngineError,
    >)
        ensures
            r matches Ok(v) && v@ == spec_transform(
                input@,
                final(self).spec_processor().spec_level(),
            ),
            level_rank(final(self).spec_processor().spec_level()) >= level_rank(
                old(self).spec_processor().spec_level(),
            ),
    {
        let target = self.select_consciousness_level(complexity_permille);
        self.processor.process(input, Some(target))
    }
}

/// The level a complexity in thousandths earns.
pub open spec fn spec_select_level(complexity_permille: u32) -> ConsciousnessLevel {
    if complexity_permille >= 900 {
        ConsciousnessLevel::Omega
    } else if complexity_permille >= 700 {
        ConsciousnessLevel::Delta
    } else if complexity_permille >= 500 {
        ConsciousnessLevel::Gamma
    } else if complexity_permille >= 300 {
        ConsciousnessLevel::Beta
    } else {
        ConsciousnessLevel::Alpha
    }
}

} // verus!
