pub mod se_fn;
pub mod iter_with_back;
pub mod text;
pub mod try_into_mut_ref;
