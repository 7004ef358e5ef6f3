pub mod jobs;
