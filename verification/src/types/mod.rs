//! The scalar types of the wire format and the pagination envelope.

pub mod boolean;
pub mod date;
pub mod datetime;
pub mod id;
pub mod integer;
pub mod page_info;

pub use boolean::Boolean;
pub use date::Date;
pub use datetime::{DateTime, Time};
pub use id::ID;
pub use integer::Int;
pub use page_info::{EdgeOf, ForwardPageInfo, ForwardPageOf};
