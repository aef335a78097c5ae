pub mod heap;
pub mod host;
pub mod policy;
pub mod record;
pub mod text;
