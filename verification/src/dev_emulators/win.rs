pub mod dev_win;

pub use dev_win::DevWin;
