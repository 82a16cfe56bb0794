pub mod markdown;
pub mod io_error;
pub mod markdown_laws;
pub mod markdown_utf8;
pub mod text;
pub mod response;
pub mod common;
pub mod user;
pub mod model;
pub mod raw_html;
pub mod login;
pub mod db_conn;
pub mod routing;
pub mod comments;
pub mod threads;
pub mod preview;
pub mod profile;
pub mod tags;
pub mod users;
pub mod assets;
pub mod text_laws;
