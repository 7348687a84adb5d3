pub mod text;
pub mod lexical;
pub mod rules;
pub mod size;
pub mod categories;
pub mod jobs;
pub mod driver;
pub mod safety;
pub mod keys;
pub mod cache;
pub mod scan;
pub mod drives;
pub mod local;
pub mod paths;
pub mod dto;
pub mod clock;
pub mod commands;
pub mod live;
pub mod browser;
pub mod aggregate;
