//! A RISC-V 64-bit system emulator: hart, translation unit, bus and devices, each
//! with a contract that says what it computes.

pub mod alu;
pub mod block_laws;
pub mod bus;
pub mod bytes;
pub mod chain_laws;
pub mod config_laws;
pub mod cpu;
pub mod csr;
pub mod device_laws;
pub mod dram;
pub mod entropy_laws;
pub mod flash;
pub mod flash_laws;
pub mod machine;
pub mod machine_laws;
pub mod mmu;
pub mod mmu_laws;
pub mod mrom;
pub mod outcome;
pub mod plic;
pub mod queue_laws;
pub mod register_laws;
pub mod text;
pub mod text_laws;
pub mod trap;
pub mod uart;
pub mod virtio;
pub mod virtio_rng;
pub mod virtq;
pub mod walk_laws;
