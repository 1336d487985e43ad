//! The portable-program surface the dispatcher sees: the capability flags
//! of the extended module format, the header check on submitted program
//! bytes, and the runtime's execution statistics. Compiling and executing
//! the modules is the bytecode runtime collaborator's job, outside this
//! library.

use vstd::prelude::*;

verus! {

/// Capability flags of the extended module format.
#[derive(Debug, Clone, Copy, PartialEq, Eq, Structural)]
pub struct Web3Extensions {
    /// Blockchain integration.
    pub blockchain_ops: bool,
    /// Distributed consensus.
    pub consensus_enabled: bool,
    /// Zero-knowledge proofs.
    pub zk_proofs: bool,
    /// Distributed storage integration.
    pub ipfs_enabled: bool,
    /// Smart contract interaction.
    pub smart_contracts: bool,
}

impl Default for Web3Extensions {
    /// Every extension enabled.
    fn default() -> (r: Web3Extensions)
        ensures
            r.blockchain_ops,
            r.consensus_enabled,
            r.zk_proofs,
            r.ipfs_enabled,
            r.smart_contracts,
    {
        Web3Extensions {
            blockchain_ops: true,
            consensus_enabled: true,
            zk_proofs: true,
            ipfs_enabled: true,
            smart_contracts: true,
        }
    }
}

/// Whether the bytes begin like an extended module: at least eight bytes,
/// opening with the standard module magic.
pub open spec fn wasm_header_ok(bytes: Seq<u8>) -> bool {
    &&& bytes.len() >= 8
    &&& bytes[0] == 0x00u8
    &&& bytes[1] == 0x61u8
    &&& bytes[2] == 0x73u8
    &&& bytes[3] == 0x6du8
}

/// Checks the header of submitted program bytes: the module magic and the
/// minimum length. Full validation is the bytecode runtime's to do.
pub fn validate_web3_header(bytes: &Vec<u8>) -> (r: bool)
    ensures
        r == wasm_header_ok(bytes@),
{
    if bytes.len() < 8 {
        return false;
    }
    bytes[0] == 0x00u8 && bytes[1] == 0x61u8 && bytes[2] == 0x73u8 && bytes[3] == 0x6du8
}

/// The first place a call entry for a function name sits.
pub open spec fn find_call(calls: Seq<(String, usize)>, name: Seq<char>, i: int) -> Option<int>
    decreases calls.len() - i,
{
    if i < 0 || i >= calls.len() {
        None
    } else if calls[i].0@ == name {
        Some(i)
    } else {
        find_call(calls, name, i + 1)
    }
}

/// Execution statistics of the runtime: totals and per-function call
/// counts.
#[derive(Debug, Clone)]
pub struct ExecutionStats {
    pub total_executions: usize,
    pub total_duration_ms: u64,
    pub function_calls: Vec<(String, usize)>,
}

impl Default for ExecutionStats {
    /// Fresh statistics: nothing recorded.
    fn default() -> (r: ExecutionStats)
        ensures
            r.total_executions == 0,
            r.total_duration_ms == 0,
            r.function_calls@.len() == 0,
    {
        ExecutionStats { total_executions: 0, total_duration_ms: 0, function_calls: Vec::new() }
    }
}

impl ExecutionStats {
    /// Notes one execution of a function: the totals grow (saturating at
    /// their type bounds) and the function's call count is started at one
    /// or incremented.
    pub fn record_execution(&mut self, function: &str, duration_ms: u64)
        ensures
            final(self).total_executions == if old(self).total_executions < usize::MAX {
                (old(self).total_executions + 1) as usize
            } else {
                usize::MAX
            },
            final(self).total_duration_ms == if old(self).total_duration_ms <= u64::MAX
                - duration_ms {
                (old(self).total_duration_ms + duration_ms) as u64
            } else {
                u64::MAX
            },
            ({
                let calls = old(self).function_calls@;
                match find_call(calls, function@, 0) {
                    Some(j) => {
                        &&& final(self).function_calls@.len() == calls.len()
                        &&& final(self).function_calls@[j].0@ == calls[j].0@
                        &&& final(self).function_calls@[j].1 == if calls[j].1 < usize::MAX {
                            (calls[j].1 + 1) as usize
                        } else {
                            usize::MAX
                        }
                        &&& forall|k: int|
                            0 <= k < calls.len() && k != j ==> final(self).function_calls@[k]
                                == calls[k]
                    },
                    None => {
                        &&& final(self).function_calls@.len() == calls.len() + 1
                        &&& final(self).function_calls@.take(calls.len() as int) == calls
                        &&& final(self).function_calls@.last().0@ == function@
                        &&& final(self).function_calls@.last().1 == 1usize
                    },
                }
            }),
    {
        if self.total_executions < usize::MAX {
            self.total_executions = self.total_executions + 1;
        }
        if self.total_duration_ms <= u64::MAX - duration_ms {
            self.total_duration_ms = self.total_duration_ms + duration_ms;
        } else {
            self.total_duration_ms = u64::MAX;
        }
        let key = function.to_owned();
        let ghost calls0 = self.function_calls@;
        let mut i: usize = 0;
        while i < self.function_calls.len()
            invariant
                i <= calls0.len(),
                self.function_calls@ == calls0,
                key@ == function@,
                calls0 == old(self).function_calls@,
                self.total_executions == if old(self).total_executions < usize::MAX {
                    (old(self).total_executions + 1) as usize
                } else {
                    usize::MAX
                },
                self.total_duration_ms == if old(self).total_duration_ms <= u64::MAX
                    - duration_ms {
                    (old(self).total_duration_ms + duration_ms) as u64
                } else {
                    u64::MAX
                },
                find_call(calls0, function@, 0) == find_call(calls0, function@, i as int),
            decreases calls0.len() - i,
        {
            if self.function_calls[i].0.eq(&key) {
                let count = self.function_calls[i].1;
                let name = self.function_calls[i].0.clone();
                let bumped = if count < usize::MAX {
                    count + 1
                } else {
                    usize::MAX
                };
                self.function_calls.set(i, (name, bumped));
                proof {
                    assert(find_call(calls0, function@, i as int) == Some(i as int));
                    assert(self.function_calls@[i as int].0@ == calls0[i as int].0@);
                }
                return ;
            }
            i += 1;
        }
        self.function_calls.push((key, 1));
        proof {
            assert(self.function_calls@.take(calls0.len() as int) =~= calls0);
        }
    }

    /// The recorded totals.
    pub fn totals(&self) -> (r: (usize, u64))
        ensures
            r.0 == self.total_executions,
            r.1 == self.total_duration_ms,
    {
        (self.total_executions, self.total_duration_ms)
    }
}

} // verus!
