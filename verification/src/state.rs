//! The session store: pending handshakes and issued tokens.

use vstd::prelude::*;
use vstd::hash_map::StringHashMap;
use crate::objects::{Identity, UserInfo};

verus! {

/// `order` lists the members of `keys`, each exactly once.
pub open spec fn lists(order: Seq<Seq<char>>, keys: Set<Seq<char>>) -> bool {
    &&& order.no_duplicates()
    &&& forall|k: Seq<char>| keys.contains(k) <==> order.contains(k)
}

/// The text of each string of `log`, in order.
pub open spec fn texts(log: Seq<String>) -> Seq<Seq<char>> {
    log.map_values(|s: String| s@)
}

/// Two mappings that only ever grow: session id to claimed username, and
/// token to verified identity. Beside each map the store keeps its keys in
/// the order in which they first came, so that the whole store can be listed.
pub struct State {
    server_ids: StringHashMap<String>,
    tokens: StringHashMap<UserInfo>,
    server_id_log: Vec<String>,
    token_log: Vec<String>,
}

impl State {
    /// The pending handshakes: session id to claimed username.
    pub closed spec fn pending(&self) -> Map<Seq<char>, Seq<char>> {
        self.server_ids@.map_values(|name: String| name@)
    }

    /// The issued tokens: token to verified identity.
    pub closed spec fn issued(&self) -> Map<Seq<char>, Identity> {
        self.tokens@.map_values(|user: UserInfo| user@)
    }

    /// The pending session ids, oldest first.
    pub closed spec fn pending_order(&self) -> Seq<Seq<char>> {
        texts(self.server_id_log@)
    }

    /// The issued tokens, oldest first.
    pub closed spec fn issued_order(&self) -> Seq<Seq<char>> {
        texts(self.token_log@)
    }

    /// Each order lists exactly the keys of its map.
    pub open spec fn wf(&self) -> bool {
        &&& lists(self.pending_order(), self.pending().dom())
        &&& lists(self.issued_order(), self.issued().dom())
    }

    /// An empty store.
    pub fn new() -> (state: Self)
        ensures
            state.wf(),
            state.pending() == Map::<Seq<char>, Seq<char>>::empty(),
            state.issued() == Map::<Seq<char>, Identity>::empty(),
            state.pending_order() == Seq::<Seq<char>>::empty(),
            state.issued_order() == Seq::<Seq<char>>::empty(),
    {
        let state = State {
            server_ids: StringHashMap::new(),
            tokens: StringHashMap::new(),
            server_id_log: Vec::new(),
            token_log: Vec::new(),
        };
        state
    }

    /// Records that `session_id` was handed to `username`. A session id that
    /// is already pending is given to the new name.
    pub fn put_pending(&mut self, session_id: String, username: String)
        requires
            old(self).wf(),
        ensures
            final(self).wf(),
            final(self).pending() == old(self).pending().insert(session_id@, username@),
            final(self).issued() == old(self).issued(),
            final(self).issued_order() == old(self).issued_order(),
            final(self).pending_order() == if old(self).pending().contains_key(session_id@) {
                old(self).pending_order()
            } else {
                old(self).pending_order().push(session_id@)
            },
    {
        if !self.server_ids.contains_key(session_id.as_str()) {
            self.server_id_log.push(session_id.clone());
            assert(texts(self.server_id_log@) =~= texts(old(self).server_id_log@).push(
                session_id@,
            ));
        }
        self.server_ids.insert(session_id, username);
        proof {
            lemma_lists_insert(
                old(self).pending_order(),
                old(self).pending().dom(),
                session_id@,
            );
        }
    }

    /// The username that `session_id` was handed to, if any.
    pub fn get_pending(&self, session_id: &str) -> (found: Option<&String>)
        ensures
            match found {
                Some(name) => self.pending().contains_key(session_id@) && name@
                    == self.pending()[session_id@],
                None => !self.pending().contains_key(session_id@),
            },
    {
        self.server_ids.get(session_id)
    }

    /// Records that `token` stands for `user`. A token that was already
    /// issued is given to the new identity.
    pub fn put_token(&mut self, token: String, user: UserInfo)
        requires
            old(self).wf(),
        ensures
            final(self).wf(),
            final(self).issued() == old(self).issued().insert(token@, user@),
            final(self).pending() == old(self).pending(),
            final(self).pending_order() == old(self).pending_order(),
            final(self).issued_order() == if old(self).issued().contains_key(token@) {
                old(self).issued_order()
            } else {
                old(self).issued_order().push(token@)
            },
    {
        if !self.tokens.contains_key(token.as_str()) {
            self.token_log.push(token.clone());
            assert(texts(self.token_log@) =~= texts(old(self).token_log@).push(token@));
        }
        self.tokens.insert(token, user);
        proof {
            lemma_lists_insert(old(self).issued_order(), old(self).issued().dom(), token@);
        }
    }

    /// The identity that `token` stands for, if it was ever issued.
    pub fn get_token(&self, token: &str) -> (found: Option<&UserInfo>)
        ensures
            match found {
                Some(user) => self.issued().contains_key(token@) && user@ == self.issued()[token@],
                None => !self.issued().contains_key(token@),
            },
    {
        self.tokens.get(token)
    }

    /// The pending session ids, oldest first.
    pub fn pending_ids(&self) -> (ids: &Vec<String>)
        ensures
            texts(ids@) == self.pending_order(),
    {
        &self.server_id_log
    }

    /// The issued tokens, oldest first.
    pub fn issued_tokens(&self) -> (issued: &Vec<String>)
        ensures
            texts(issued@) == self.issued_order(),
    {
        &self.token_log
    }
}

/// A list stays a list of the keys when a key comes in: a key that is
/// already listed changes nothing, a new one goes to the end.
pub proof fn lemma_lists_insert(order: Seq<Seq<char>>, keys: Set<Seq<char>>, k: Seq<char>)
    requires
        lists(order, keys),
    ensures
        keys.contains(k) ==> lists(order, keys.insert(k)),
        !keys.contains(k) ==> lists(order.push(k), keys.insert(k)),
{
    if !keys.contains(k) {
        let longer = order.push(k);
        assert forall|x: Seq<char>| keys.insert(k).contains(x) implies longer.contains(x) by {
            if x == k {
                assert(longer[order.len() as int] == x);
            } else {
                let i = choose|i: int| 0 <= i < order.len() && order[i] == x;
                assert(longer[i] == x);
            }
        }
    }
}

/// A list of the keys has as many entries as there are keys.
pub proof fn lemma_lists_counts(order: Seq<Seq<char>>, keys: Set<Seq<char>>)
    requires
        lists(order, keys),
    ensures
        keys.finite(),
        keys.len() == order.len(),
{
    order.unique_seq_to_set();
    assert(keys =~= order.to_set());
}

/// The store only grows: an entry that comes in removes none, and changes
/// none but the one under its own key.
pub proof fn lemma_insert_keeps_the_rest<V>(entries: Map<Seq<char>, V>, key: Seq<char>, value: V)
    ensures
        entries.insert(key, value).contains_key(key),
        entries.insert(key, value)[key] == value,
        forall|k: Seq<char>| #[trigger]
            entries.contains_key(k) ==> entries.insert(key, value).contains_key(k),
        forall|k: Seq<char>|
            k != key && #[trigger] entries.contains_key(k) ==> entries.insert(key, value)[k]
                == entries[k],
        forall|k: Seq<char>| #[trigger]
            entries.insert(key, value).contains_key(k) ==> k == key || entries.contains_key(k),
{
}

} // verus!
