//! What a knowledge base asks of whatever keeps its secrets.

use vstd::prelude::*;

verus! {

/// Opens vaults into sessions and closes sessions into vaults.
pub trait SecretStore {
    /// Decrypts a vault into a session, and gives the directory it can be worked on in.
    fn decrypt_to_session(&self, vault_id: &str) -> Result<String, String>;

    /// Puts the changes of a session back into its vault.
    fn seal_increment(&self, vault_id: &str, work_dir: &str) -> Result<(), String>;
}

} // verus!
