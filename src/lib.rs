pub mod decode;
pub mod machine;
pub mod laws;
