//! Live read/write access to the virtual address spaces of an operating
//! system seen only through a raw physical-memory window: a batched
//! multi-level page-table walker, a time-validated page cache, virtual
//! memory contexts with typed readers, a kernel start-block locator, and
//! a process and module walker built on injected structure offsets.

pub mod arch;
pub mod cache;
pub mod kernel;
pub mod pe;
pub mod phys;
pub mod types;
pub mod vat;
pub mod virt;
pub mod win;

pub use arch::Architecture;
pub use arch::PAGE_SIZE;
pub use types::Address;
pub use types::Error;
pub use types::ErrorKind;
pub use types::Length;
pub use types::PageType;
