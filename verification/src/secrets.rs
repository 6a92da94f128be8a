//! The tokens of the remotes, kept in the workspace's local secrets file.

use vstd::prelude::*;

use crate::strmap::{has_key, lemma_insert_unique, table_insert, table_remove, value_for};
use crate::types::raw::{opt_str, RawRemoteSecrets, RawSecretsConfig};

verus! {

/// The token stored for a remote, if any.
pub open spec fn token_of(s: Seq<(Seq<char>, Option<Seq<char>>)>, remote: Seq<char>) -> Option<Seq<char>> {
    if has_key(s, remote) {
        value_for(s, remote)
    } else {
        None
    }
}

impl RawSecretsConfig {
    /// Stores the token of a remote, in place of any earlier one.
    pub fn set_token(&mut self, remote_name: &str, token: String)
        ensures
            final(self)@ == table_insert(old(self)@, remote_name@, Some(token@)),
    {
        self.remotes.insert(remote_name.to_owned(), RawRemoteSecrets { token: Some(token) });
    }

    /// Forgets the token of a remote.
    pub fn remove_token(&mut self, remote_name: &str)
        ensures
            final(self)@ == table_remove(old(self)@, remote_name@),
    {
        self.remotes.remove(remote_name);
    }

    /// The token stored for a remote, if any.
    pub fn token(&self, remote_name: &str) -> (t: Option<String>)
        ensures
            opt_str(t) == token_of(self@, remote_name@),
    {
        match self.remotes.get(remote_name) {
            Some(s) => match &s.token {
                Some(t) => Some(t.clone()),
                None => None,
            },
            None => None,
        }
    }
}

/// A stored token is the one read back for that remote, and the tokens of
/// the other remotes stay as they were.
pub proof fn law_token_read_after_write(
    s: Seq<(Seq<char>, Option<Seq<char>>)>,
    remote: Seq<char>,
    token: Seq<char>,
    other: Seq<char>,
)
    requires
        crate::strmap::keys_unique(s),
        other != remote,
    ensures
        token_of(table_insert(s, remote, Some(token)), remote) == Some(token),
        token_of(table_insert(s, remote, Some(token)), other) == token_of(s, other),
{
    lemma_insert_unique(s, remote, Some(token));
    let t = table_insert(s, remote, Some(token));
    if has_key(s, other) {
        let j = crate::strmap::key_index(s, other);
        crate::strmap::lemma_key_index(s, j);
        assert(t[j] == s[j]);
        crate::strmap::lemma_key_index(t, j);
    }
}

/// A forgotten token is no longer read back, and the tokens of the other
/// remotes stay as they were.
pub proof fn law_token_gone_after_remove(
    s: Seq<(Seq<char>, Option<Seq<char>>)>,
    remote: Seq<char>,
    other: Seq<char>,
)
    requires
        crate::strmap::keys_unique(s),
        other != remote,
    ensures
        token_of(table_remove(s, remote), remote) is None,
        token_of(table_remove(s, remote), other) == token_of(s, other),
{
    crate::strmap::lemma_remove_unique(s, remote);
    let t = table_remove(s, remote);
    if has_key(s, other) && has_key(s, remote) {
        let j = crate::strmap::key_index(s, remote);
        let q = crate::strmap::key_index(s, other);
        crate::strmap::lemma_key_index(s, q);
        crate::strmap::lemma_key_index(s, j);
        let q2 = if q < j { q } else { q - 1 };
        assert(t[q2] == s[q]);
        crate::strmap::lemma_key_index(t, q2);
    }
}

} // verus!
