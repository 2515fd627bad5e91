pub mod commands;
pub mod database;
pub mod json;
pub mod pet_avatar;
pub mod pet_hit;
pub mod pet_segment;
pub mod reminder;
pub mod shortcuts;
pub mod text;
pub mod time;
pub mod window_pos;
