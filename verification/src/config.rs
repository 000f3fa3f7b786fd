//! The node's startup configuration, consumed once to build the URL
//! context and the state around it.
use crate::url::UrlContext;
use vstd::prelude::*;

verus! {

/// What the node reads from its configuration file.
#[derive(Clone, Debug)]
pub struct Config {
    pub scheme: Vec<u8>,
    pub domain: Vec<u8>,
    pub db_connection_uri: Vec<u8>,
    pub num_of_db_pool_connections: u32,
    pub token_rsa_public_key_pem_filepath: Vec<u8>,
    pub token_rsa_private_key_pem_filepath: Vec<u8>,
}

impl Config {
    /// The URL context every URI-building and URI-parsing function
    /// works against: the configured scheme and domain.
    pub fn url_context(&self) -> (r: UrlContext)
        ensures
            r.scheme@ == self.scheme@,
            r.domain@ == self.domain@,
    {
        UrlContext {
            scheme: crate::bytestr::clone_bytes(&self.scheme),
            domain: crate::bytestr::clone_bytes(&self.domain),
        }
    }
}

} // verus!
