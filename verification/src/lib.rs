//! Scaffolding generator core: configuration model, field DSL, template
//! path resolution and validation rules.

pub mod text;
pub mod strmap;
pub mod error;
pub mod template_installer;
pub mod value;
pub mod type_map;
pub mod i18n;
pub mod config;
pub mod default_paths;
pub mod template_meta_global;
pub mod field_dsl;
pub mod suggest;
pub mod gen_input;
pub mod paths;
pub mod field_types;
pub mod field_extra;
pub mod template_variables;
pub mod casing;
pub mod git_info;
pub mod gen_context;
pub mod template_meta;
pub mod gen_report;
pub mod fs_writer;
pub mod gen_pipeline;
pub mod cli_args;
pub mod sorting;
pub mod mcp_context;
pub mod template_loader;
pub mod template_install_meta;
pub mod template_command;
pub mod global_config;
pub mod agent_mode;
pub mod output;
pub mod template_engine;
pub mod validator;
pub mod mcp_resources;
pub mod setup_wizard;
pub mod commands;
pub mod legacy_schema;
