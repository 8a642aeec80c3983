pub mod digest;
pub mod error;
pub mod extract;
pub mod hardware_info;
pub mod network;
pub mod probe;
pub mod text;

pub use error::HardwareError;
pub use hardware_info::HardwareInfo;
pub use network::NetworkInfo;
