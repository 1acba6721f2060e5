pub mod dmail;
pub mod test1;
pub mod test2;
