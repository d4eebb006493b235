pub mod logistics;
pub mod logistic_params;
