pub mod bignum;
pub mod dict_manager;
pub mod hint;
pub mod memory;
pub mod relocatable;
pub mod range_check;
pub mod relocation;
pub mod scopes;
pub mod utils;
pub mod vm;
