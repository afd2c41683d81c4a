//! The logic of a server-status site: input validation for the admin API,
//! request guarding and response headers, HTML escaping, routing, the
//! assembly of server cards from database rows, the poller's bookkeeping and
//! the checks made on an access token.
pub mod text;
pub mod types;
pub mod validation;
pub mod security;
pub mod html;
pub mod db;
pub mod routes;
pub mod poller;
pub mod jwt;
pub mod card;
pub mod handler;
