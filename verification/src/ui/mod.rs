//! The prompt and what surrounds it on the screen.
pub mod complete;
pub mod cursor;
pub mod dispatch;
pub mod history;
pub mod input;
pub mod laws;
pub mod prompt;
pub mod render;
pub mod state;
pub mod style;
pub mod viewer;

pub use self::input::Input;
pub use self::prompt::Prompt;
pub use self::viewer::Viewer;
