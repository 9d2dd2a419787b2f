pub mod collector;
pub mod laws;
pub mod linux;
pub mod mac;
pub mod model;
pub mod report;
pub mod text;

pub use collector::{collect_routes, parse_route_line, CommandOutput, Platform, RouteError};
pub use linux::parse_linux_route_output;
pub use mac::parse_macos_route_output;
pub use model::{IpVersion, RouteEntry, RouteTable};
pub use report::{get_max_len, report_sections};
