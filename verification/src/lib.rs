pub mod config;
pub mod contracts;
pub mod environments;
pub mod html_utils;
pub mod latex_parser;
pub mod mmlc;
pub mod mathml_renderer;
pub mod renderer;
pub mod specifications;
pub mod text;
pub mod token;
