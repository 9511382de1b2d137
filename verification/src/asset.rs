//! Assets of the audio graph: how they are typed and where their data is found.

pub mod audio_loop;
pub mod graph;
pub mod loader;
pub mod midi;
pub mod one_shot;
pub mod sf2;
pub mod wave;
