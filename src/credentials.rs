use vstd::prelude::*;
use vstd::string::StringExecFns;

verus! {

/// Why no SSH identity can be offered.
#[derive(Clone, Copy, Debug, PartialEq, Eq, Structural)]
pub enum CredentialError {
    /// Neither the URL nor the transport supplied a user name.
    NoUsername,
    /// The home directory, where the key lies, is unknown.
    NoHome,
}

/// The local SSH identity to authenticate with.
pub struct SshIdentity {
    pub username: String,
    /// Path of the private key; no public key file and no passphrase are used.
    pub private_key: String,
}

/// Where the private key lies under a home directory.
pub open spec fn key_path_of(home: Seq<char>) -> Seq<char> {
    home + "/.ssh/id_rsa"@
}

/// The single local identity for a connection: the user name that the URL
/// or the transport gave, and the RSA key under the home directory.
pub fn ssh_identity(username: Option<String>, home: Option<String>) -> (r: Result<SshIdentity, CredentialError>)
    ensures
        username is None ==> r == Err::<SshIdentity, CredentialError>(CredentialError::NoUsername),
        username is Some && home is None ==> r == Err::<SshIdentity, CredentialError>(CredentialError::NoHome),
        username is Some && home is Some ==> (r matches Ok(id) && id.username == username->0
            && id.private_key@ == key_path_of(home->0@)),
{
    match (username, home) {
        (None, _) => Err(CredentialError::NoUsername),
        (Some(_), None) => Err(CredentialError::NoHome),
        (Some(username), Some(home)) => {
            let mut private_key = home;
            private_key.append("/.ssh/id_rsa");
            Ok(SshIdentity { username, private_key })
        },
    }
}

} // verus!
