//! Policy snapshots and the fail-closed enforcement gate.
//!
//! The control plane streams compiled policy bytecode; each update becomes
//! a fresh immutable `PolicySnapshot` that replaces the active one
//! wholesale — nothing is ever mutated in place, so a reader holds either
//! the old snapshot or the new one, never a mix. The sandboxed runtime
//! that executes the bytecode lives outside the library; what is decided
//! here is what its verdict means for the statement at hand, and that an
//! engine fault always fails closed.

use crate::errors::PolicyError;
use vstd::prelude::*;

verus! {

/// An immutable, versioned unit of compiled policy: the bytecode and the
/// data source it applies to. Replaced wholesale on every update.
pub struct PolicySnapshot {
    pub version: u64,
    pub data_source_name: String,
    pub wasm_byte_code: Vec<u8>,
}

impl PolicySnapshot {
    /// Packs one delivered policy update into a snapshot.
    pub fn new(version: u64, data_source_name: String, wasm_byte_code: Vec<u8>) -> (s:
        PolicySnapshot)
        ensures
            s.version == version,
            s.data_source_name == data_source_name,
            s.wasm_byte_code == wasm_byte_code,
    {
        PolicySnapshot { version, data_source_name, wasm_byte_code }
    }

    /// The snapshot's version, strictly increasing across updates as the
    /// store hands them out.
    pub fn version(&self) -> (v: u64)
        ensures
            v == self.version,
    {
        self.version
    }

    /// The downstream database identity this policy applies to.
    pub fn data_source_name(&self) -> (n: &String)
        ensures
            *n == self.data_source_name,
    {
        &self.data_source_name
    }

    /// The compiled policy bytecode, as delivered.
    pub fn wasm_byte_code(&self) -> (c: &[u8])
        ensures
            c@ == self.wasm_byte_code@,
    {
        self.wasm_byte_code.as_slice()
    }
}

/// The verdict the sandboxed runtime returns for one statement.
pub enum Verdict {
    /// The statement may be forwarded downstream.
    Allow,
    /// Policy explicitly blocks the statement; the reason goes back to the
    /// client.
    Deny(String),
    /// The engine itself failed: sandbox fault or evaluation timeout.
    Error(PolicyError),
}

/// What the proxy does with a statement after the verdict.
#[derive(Clone, Copy, Debug, PartialEq, Eq, Structural)]
pub enum GateDecision {
    /// Forward the statement to the real database.
    Forward,
    /// Do not forward; answer the client with a rejection. `fault` is
    /// false for an explicit policy deny and true for an engine failure,
    /// so operators can tell "blocked by policy" from "policy engine
    /// broken".
    Block { fault: bool },
}

/// Turns a verdict into the forwarding decision, failing closed: only an
/// explicit `Allow` forwards, and an engine error blocks exactly like a
/// deny while staying distinguishable in the report.
pub fn gate(verdict: &Verdict) -> (d: GateDecision)
    ensures
        verdict is Allow ==> d == GateDecision::Forward,
        verdict is Deny ==> d == (GateDecision::Block { fault: false }),
        verdict is Error ==> d == (GateDecision::Block { fault: true }),
{
    match verdict {
        Verdict::Allow => GateDecision::Forward,
        Verdict::Deny(_) => GateDecision::Block { fault: false },
        Verdict::Error(_) => GateDecision::Block { fault: true },
    }
}

/// Holder of the active snapshot for one data source. An update replaces
/// the whole value behind one synchronization point (the surrounding
/// runtime wraps this in its shared cell); evaluations that already read
/// the old snapshot finish with it, later ones observe the new one.
pub struct SnapshotStore {
    pub current: PolicySnapshot,
}

impl SnapshotStore {
    /// A store holding its first snapshot.
    pub fn new(initial: PolicySnapshot) -> (s: SnapshotStore)
        ensures
            s.current == initial,
    {
        SnapshotStore { current: initial }
    }

    /// Replaces the active snapshot wholesale with one carrying the next
    /// version number and the delivered bytecode; the data source name is
    /// kept. Returns false, changing nothing, when the version counter
    /// would overflow.
    pub fn replace(&mut self, wasm_byte_code: Vec<u8>) -> (ok: bool)
        ensures
            ok == (old(self).current.version < u64::MAX),
            ok ==> final(self).current == (PolicySnapshot {
                version: (old(self).current.version + 1) as u64,
                data_source_name: old(self).current.data_source_name,
                wasm_byte_code,
            }),
            !ok ==> final(self).current == old(self).current,
    {
        if self.current.version == u64::MAX {
            return false;
        }
        let mut prior = PolicySnapshot { version: 0, data_source_name: String::new(), wasm_byte_code: Vec::new() };
        core::mem::swap(&mut self.current, &mut prior);
        self.current = PolicySnapshot {
            version: prior.version + 1,
            data_source_name: prior.data_source_name,
            wasm_byte_code,
        };
        true
    }

    /// The active snapshot.
    pub fn current(&self) -> (s: &PolicySnapshot)
        ensures
            *s == self.current,
    {
        &self.current
    }
}

} // verus!
