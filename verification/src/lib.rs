pub mod db;
pub mod http;
pub mod kv;
pub mod router;
pub mod text;
