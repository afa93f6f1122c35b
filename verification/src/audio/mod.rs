pub mod recorder;
