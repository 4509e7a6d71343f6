pub mod add;
pub mod clone;
pub mod commit;
pub mod go;
pub mod grep;
pub mod mv;
pub mod replace;
pub mod status;
