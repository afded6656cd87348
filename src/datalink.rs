pub mod can;
pub mod isotp;
pub mod uds;
