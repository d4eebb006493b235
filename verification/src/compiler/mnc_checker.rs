pub mod mnc_checker;
pub mod cell_checker;
pub mod mncc_holder;
