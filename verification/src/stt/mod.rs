pub mod whisper;
