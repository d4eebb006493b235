pub mod settings;
pub mod setting_action_result;
pub mod setting_action;
