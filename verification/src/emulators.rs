pub mod win;
