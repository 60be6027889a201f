//! Decision logic of a relay between a process's standard streams and an
//! agent transport (a TCP loopback socket or a named pipe).
pub mod descriptor;
pub mod connect;
pub mod buffer;
pub mod relay;
