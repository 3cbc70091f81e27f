pub mod animator;
pub mod buffer;
pub mod draw;
pub mod framebuffer;
pub mod input;
pub mod int_tools;
pub mod material;
pub mod pipeline;
pub mod shader;
pub mod sprite_list;
pub mod text;
pub mod vertex;
pub mod vertex_array;
