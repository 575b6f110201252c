//! One module per PostgreSQL message kind: the message's shape, its
//! mathematical view, and its body codec.

pub mod authentication;
pub mod backend_key_data;
pub mod bind;
pub mod data_row;
pub mod negotiate_protocol_version;
pub mod parse;
pub mod bind_complete;
pub mod command_complete;
pub mod empty_query_response;
pub mod error_and_notice_responses;
pub mod execute;
pub mod gss_response;
pub mod initial;
pub mod parameter_status;
pub mod parse_complete;
pub mod password;
pub mod portal_suspended;
pub mod query;
pub mod ready_for_query;
pub mod row_description;
pub mod sasl_initial_response;
pub mod sasl_response;
pub mod sync;
pub mod terminate;
