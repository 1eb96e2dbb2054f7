pub mod dynvec;
pub mod layout;
pub mod record;
pub mod table;
pub mod value;
