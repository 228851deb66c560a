//! For a client that talks to a server whose certificate no authority has
//! signed.

use vstd::prelude::*;

verus! {

/// A judge of server certificates that turns none away. A client that uses
/// it learns nothing about whom it talks to: it is for a trusted network
/// and a server with a self-signed certificate.
#[derive(Clone, Copy, Debug)]
pub struct NoCertificateVerification;

impl NoCertificateVerification {
    /// Whether the server that presents `end_entity`, with `intermediates`
    /// behind it, is accepted as `server_name`: always, whatever it presents.
    pub fn verify_server_cert(
        &self,
        end_entity: &[u8],
        intermediates: &Vec<Vec<u8>>,
        server_name: &str,
        ocsp_response: &[u8],
    ) -> (accepted: bool)
        ensures
            accepted,
    {
        true
    }
}

} // verus!
