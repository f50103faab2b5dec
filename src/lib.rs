//! Verified core of a resumable compressed-sensing MRI reconstruction pipeline.
pub mod text;
pub mod paths;
pub mod slurm;
pub mod volume_manager;
pub mod table;
pub mod resource;
pub mod volume_index;
pub mod supervisor;
pub mod utils;
pub mod grid;
pub mod cfl;
pub mod mrd;
pub mod pe_table;
pub mod headfile;
pub mod bart_wrapper;
pub mod config;
pub mod quantize;
