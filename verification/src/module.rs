//! The module locator: semantic module identifiers and their concrete
//! (base, size) windows inside the target process.

use vstd::prelude::*;

verus! {

/// An immutable (base address, size) pair describing one loaded module.
/// Fixed for the lifetime of a session.
#[derive(Debug, Clone, Copy, PartialEq, Eq, Structural)]
pub struct ModuleInfo {
    pub base_address: u64,
    pub module_size: u64,
}

impl ModuleInfo {
    /// The window `[base, base + size)` must not wrap around the address
    /// space; every locator lookup relies on this.
    pub open spec fn wf(self) -> bool {
        self.base_address + self.module_size <= u64::MAX
    }

    /// `address` lies inside `[base, base + size)`.
    pub open spec fn contains(self, address: u64) -> bool {
        self.base_address <= address < self.base_address + self.module_size
    }

    /// Decide [`ModuleInfo::wf`] at run time.
    pub fn check(&self) -> (r: bool)
        ensures
            r == self.wf(),
    {
        self.base_address.checked_add(self.module_size).is_some()
    }
}

/// The module table of one attached session: the target process id and the
/// windows of the relocatable modules the tool cares about.  Populated once
/// at session creation and never mutated afterward.
#[derive(Debug, Clone, Copy, PartialEq, Eq, Structural)]
pub struct CS2ModuleInfo {
    pub process_id: u32,
    pub client: ModuleInfo,
    pub engine: ModuleInfo,
    pub schemasystem: ModuleInfo,
}

impl CS2ModuleInfo {
    pub open spec fn wf(self) -> bool {
        self.client.wf() && self.engine.wf() && self.schemasystem.wf()
    }

    /// Decide [`CS2ModuleInfo::wf`] at run time.
    pub fn check(&self) -> (r: bool)
        ensures
            r == self.wf(),
    {
        self.client.check() && self.engine.check() && self.schemasystem.check()
    }
}

/// A semantic memory target: either a named relocatable module, or the
/// sentinel `Absolute`, which bypasses translation (base 0, maximal size).
#[derive(Debug, Clone, Copy, PartialEq, Eq, Structural)]
pub enum Module {
    /// Read the absolute address in memory.
    Absolute,
    Client,
    Engine,
    Schemasystem,
}

impl Module {
    /// What the locator resolves this module to, given a session's table.
    pub open spec fn spec_info(self, table: CS2ModuleInfo) -> ModuleInfo {
        match self {
            Module::Absolute => ModuleInfo { base_address: 0, module_size: u64::MAX },
            Module::Client => table.client,
            Module::Engine => table.engine,
            Module::Schemasystem => table.schemasystem,
        }
    }

    /// Resolve this module against a session's table.  Every variant of the
    /// closed enum resolves to exactly one window, so the lookup never
    /// returns `None`; the `Option` is kept so that callers treat the table
    /// as a partial map.
    pub fn get_base_offset(&self, table: &CS2ModuleInfo) -> (r: Option<ModuleInfo>)
        ensures
            r == Some(self.spec_info(*table)),
    {
        Some(
            match self {
                Module::Absolute => ModuleInfo { base_address: 0, module_size: u64::MAX },
                Module::Client => table.client,
                Module::Engine => table.engine,
                Module::Schemasystem => table.schemasystem,
            },
        )
    }
}

} // verus!
