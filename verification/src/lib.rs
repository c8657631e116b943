mod bits;
pub mod cpu;
pub mod instruction_laws;
pub mod mmu;
pub mod properties;
pub mod semantics;
pub mod timer;
