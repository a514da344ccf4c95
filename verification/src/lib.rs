pub mod answer_laws;
pub mod chrome;
pub mod client_laws;
pub mod command_laws;
pub mod command_palette;
pub mod connection;
pub mod context_server_registry;
pub mod encoding;
pub mod error;
pub mod folder_laws;
pub mod glob;
pub mod host_laws;
pub mod host_resources;
pub mod host_session;
pub mod ids;
pub mod layout;
pub mod layout_laws;
pub mod local_transport;
pub mod open_flow;
pub mod open_laws;
pub mod open_request;
pub mod operation_laws;
pub mod path;
pub mod path_laws;
pub mod path_order;
pub mod path_prefix;
pub mod persistence;
pub mod picker_laws;
pub mod reconcile;
pub mod recent_actions;
pub mod recent_entries;
pub mod recent_folders;
pub mod recent_panel;
pub mod recent_projects;
pub mod recent_view;
pub mod remote_connections;
pub mod remote_project;
pub mod repository_laws;
pub mod repository_selector;
pub mod roots;
pub mod session;
pub mod session_laws;
pub mod shell_laws;
pub mod storage_laws;
pub mod superzed_host;
pub mod text;
pub mod text_laws;
pub mod text_map;
pub mod text_order;
pub mod text_span;
pub mod url_laws;
