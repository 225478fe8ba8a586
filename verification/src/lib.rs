pub mod clock;
pub mod color;
pub mod input;
pub mod keyboard;
pub mod mouse;
pub mod program;
pub mod shader;
pub mod texture;
pub mod window;
