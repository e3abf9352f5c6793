//! Application configuration and its validation.

use vstd::prelude::*;
use vstd::string::*;
use crate::error::{RiemapError, RiemapErrorModel};

verus! {

pub const DEFAULT_HOST: &'static str = "127.0.0.1";

pub const DEFAULT_PORT: u16 = 3001;

pub const DEFAULT_WORKERS: usize = 4;

pub const DEFAULT_DATA_DIR: &'static str = "./data";

pub const DEFAULT_TEMP_DIR: &'static str = "./temp";

/// One gibibyte.
pub const DEFAULT_MAX_FILE_SIZE: u64 = 1_073_741_824;

pub const DEFAULT_MAX_CONCURRENT_JOBS: usize = 2;

pub const DEFAULT_CLEANUP_INTERVAL_HOURS: u64 = 24;

pub const DEFAULT_KEEP_VERSIONS: usize = 10;

pub const INVALID_PORT: &'static str = "Invalid port number";

pub const NO_WORKERS: &'static str = "Workers must be greater than 0";

/// Server settings.
#[derive(Debug)]
pub struct ServerConfig {
    pub host: String,
    pub port: u16,
    pub workers: usize,
}

/// Storage settings.
#[derive(Debug)]
pub struct StorageConfig {
    pub data_dir: String,
    pub temp_dir: String,
    /// Largest accepted file, in bytes.
    pub max_file_size: u64,
}

/// Processing settings.
#[derive(Debug, Clone, Copy, PartialEq, Eq, Structural)]
pub struct ProcessingConfig {
    pub max_concurrent_jobs: usize,
    pub cleanup_interval_hours: u64,
    pub keep_versions: usize,
}

/// Application configuration.
#[derive(Debug)]
pub struct Config {
    pub server: ServerConfig,
    pub storage: StorageConfig,
    pub processing: ProcessingConfig,
}

impl Clone for Config {
    fn clone(&self) -> (r: Self)
        ensures
            r == *self,
    {
        Config {
            server: ServerConfig {
                host: self.server.host.clone(),
                port: self.server.port,
                workers: self.server.workers,
            },
            storage: StorageConfig {
                data_dir: self.storage.data_dir.clone(),
                temp_dir: self.storage.temp_dir.clone(),
                max_file_size: self.storage.max_file_size,
            },
            processing: self.processing,
        }
    }
}

impl Default for Config {
    fn default() -> (c: Self)
        ensures
            c.server.host@ == DEFAULT_HOST@,
            c.server.port == DEFAULT_PORT,
            c.server.workers == DEFAULT_WORKERS,
            c.storage.data_dir@ == DEFAULT_DATA_DIR@,
            c.storage.temp_dir@ == DEFAULT_TEMP_DIR@,
            c.storage.max_file_size == DEFAULT_MAX_FILE_SIZE,
            c.processing.max_concurrent_jobs == DEFAULT_MAX_CONCURRENT_JOBS,
            c.processing.cleanup_interval_hours == DEFAULT_CLEANUP_INTERVAL_HOURS,
            c.processing.keep_versions == DEFAULT_KEEP_VERSIONS,
            c.is_usable(),
    {
        Self {
            server: ServerConfig {
                host: String::from_str(DEFAULT_HOST),
                port: DEFAULT_PORT,
                workers: DEFAULT_WORKERS,
            },
            storage: StorageConfig {
                data_dir: String::from_str(DEFAULT_DATA_DIR),
                temp_dir: String::from_str(DEFAULT_TEMP_DIR),
                max_file_size: DEFAULT_MAX_FILE_SIZE,
            },
            processing: ProcessingConfig {
                max_concurrent_jobs: DEFAULT_MAX_CONCURRENT_JOBS,
                cleanup_interval_hours: DEFAULT_CLEANUP_INTERVAL_HOURS,
                keep_versions: DEFAULT_KEEP_VERSIONS,
            },
        }
    }
}

impl Config {
    /// The server can be started from this configuration.
    pub open spec fn is_usable(&self) -> bool {
        self.server.port != 0 && self.server.workers != 0
    }

    /// Accepts the configuration or names the first setting that rules it
    /// out: the port is looked at before the workers.
    pub fn validate(&self) -> (r: Result<(), RiemapError>)
        ensures
            r is Ok <==> self.is_usable(),
            self.server.port == 0 ==> r is Err && r->Err_0.deep_view() == RiemapErrorModel::Config(
                INVALID_PORT@,
            ),
            self.server.port != 0 && self.server.workers == 0 ==> r is Err
                && r->Err_0.deep_view() == RiemapErrorModel::Config(NO_WORKERS@),
    {
        if self.server.port == 0 {
            return Err(RiemapError::Config(String::from_str(INVALID_PORT)));
        }
        if self.server.workers == 0 {
            return Err(RiemapError::Config(String::from_str(NO_WORKERS)));
        }
        Ok(())
    }
}

} // verus!
