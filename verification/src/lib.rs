pub mod text;
pub mod ui_text;
pub mod squeue_args;
pub mod app;
pub mod job_watcher;
pub mod slurm;
pub mod file_watcher;
pub mod list_state;
pub mod dialog;
pub mod view;
