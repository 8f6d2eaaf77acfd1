//! FluxDB's storage core: page layouts, the write-ahead log's records, buffer-pool bookkeeping,
//! transaction status and vacuum, each function with a proved contract.

pub mod buffer_pool;
pub mod disk;
pub mod disk_laws;
pub mod index;
pub mod key;
pub mod key_laws;
pub mod page;
pub mod text;
pub mod text_laws;
pub mod transaction;
pub mod transaction_laws;
pub mod transaction_manager;
pub mod vacuum;
pub mod wal;
