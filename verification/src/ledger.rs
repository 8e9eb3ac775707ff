//! The session ledger: the mapping from chat name to session identifier,
//! and the text appended to a chat's transcript for each exchange.
//!
//! The ledger itself works on plain values. The surrounding program reads
//! the snapshot file and hands its text to [`ChatStorage::load`], writes
//! [`ChatStorage::snapshot_text`] back after every successful mutation, and
//! appends what [`ChatStorage::store_chat_history`] returns to the chat's
//! transcript file. The snapshot is rewritten whole on each mutation; the
//! transcript is append-only and never re-serialized.

use vstd::prelude::*;
use vstd::string::StringExecFns;
use crate::errors::ChatError;
use crate::json::{
    distinct_names, pairs_map, parse_string_map, parsed_string_map, string_map_json,
    write_string_map,
};
use crate::transcript::exchange_block;

verus! {

/// A name occurring anywhere in the pairs is in their mapping, and nowhere
/// means absent.
proof fn lemma_pairs_map_contains(s: Seq<(String, String)>, k: Seq<char>)
    ensures
        pairs_map(s).contains_key(k) <==> (exists|i: int| 0 <= i < s.len() && s[i].0@ == k),
    decreases s.len(),
{
    if s.len() > 0 {
        let rest = s.drop_last();
        lemma_pairs_map_contains(rest, k);
        if exists|i: int| 0 <= i < s.len() && s[i].0@ == k {
            let i = choose|i: int| 0 <= i < s.len() && s[i].0@ == k;
            if i < s.len() - 1 {
                assert(rest[i].0@ == k);
            }
        }
        if pairs_map(rest).contains_key(k) {
            let i = choose|i: int| 0 <= i < rest.len() && rest[i].0@ == k;
            assert(s[i].0@ == k);
        }
    }
}

/// With distinct names, each entry is what its name maps to.
proof fn lemma_pairs_map_get(s: Seq<(String, String)>, i: int)
    requires
        distinct_names(s),
        0 <= i < s.len(),
    ensures
        pairs_map(s).contains_key(s[i].0@),
        pairs_map(s)[s[i].0@] == s[i].1@,
    decreases s.len(),
{
    let rest = s.drop_last();
    if i == s.len() - 1 {
    } else {
        assert(distinct_names(rest));
        lemma_pairs_map_get(rest, i);
        assert(s[i].0@ != s[s.len() - 1].0@);
    }
}

/// The durable state of the chat client: which names are registered and
/// which session identifier each one resolves to.
#[derive(Debug)]
pub struct ChatStorage {
    chats: Vec<(String, String)>,
}

impl ChatStorage {
    /// The mapping from chat name to session identifier that this ledger
    /// holds.
    pub closed spec fn chat_map(&self) -> Map<Seq<char>, Seq<char>> {
        pairs_map(self.chats@)
    }

    /// Well-formed: no chat name is registered twice.
    pub closed spec fn wf(&self) -> bool {
        distinct_names(self.chats@)
    }

    /// The position of a registered name, or `None` for an unknown one.
    fn find_index(&self, name: &str) -> (r: Option<usize>)
        ensures
            match r {
                Some(i) => i < self.chats@.len() && self.chats@[i as int].0@ == name@,
                None => forall|j: int| 0 <= j < self.chats@.len() ==> self.chats@[j].0@ != name@,
            },
    {
        let needle: String = name.to_owned();
        let mut i: usize = 0;
        while i < self.chats.len()
            invariant
                i <= self.chats@.len(),
                needle@ == name@,
                forall|j: int| 0 <= j < i ==> self.chats@[j].0@ != name@,
            decreases self.chats@.len() - i,
        {
            if self.chats[i].0 == needle {
                return Some(i);
            }
            i = i + 1;
        }
        None
    }

    /// Builds the ledger from the snapshot text, or an empty ledger where no
    /// snapshot exists yet. Fails with `CorruptState` exactly when a present
    /// snapshot is not the expected structure.
    pub fn load(snapshot: Option<&str>) -> (r: Result<ChatStorage, ChatError>)
        ensures
            match r {
                Ok(st) => st.wf() && match snapshot {
                    None => st.chat_map() == Map::<Seq<char>, Seq<char>>::empty(),
                    Some(s) => parsed_string_map(s@, "chats"@) == Some(st.chat_map()),
                },
                Err(e) => match snapshot {
                    None => false,
                    Some(s) => parsed_string_map(s@, "chats"@) is None && match e {
                        ChatError::CorruptState(t) => t@ == s@,
                        _ => false,
                    },
                },
            },
    {
        match snapshot {
            None => {
                let st = ChatStorage { chats: Vec::new() };
                proof {
                    assert(st.chat_map() =~= Map::<Seq<char>, Seq<char>>::empty());
                }
                Ok(st)
            },
            Some(s) => match parse_string_map(s, "chats") {
                Some(v) => Ok(ChatStorage { chats: v }),
                None => Err(ChatError::CorruptState(s.to_owned())),
            },
        }
    }

    /// Registers a new name. Fails with `DuplicateName`, leaving the ledger
    /// untouched, exactly when the name is already registered; on success
    /// the mapping gains this one entry.
    pub fn add_chat(&mut self, name: &str, run_id: &str) -> (r: Result<(), ChatError>)
        requires
            old(self).wf(),
        ensures
            final(self).wf(),
            match r {
                Ok(_) => !old(self).chat_map().contains_key(name@) && final(self).chat_map()
                    == old(self).chat_map().insert(name@, run_id@),
                Err(e) => *final(self) == *old(self) && old(self).chat_map().contains_key(name@)
                    && match e {
                    ChatError::DuplicateName(n) => n@ == name@,
                    _ => false,
                },
            },
    {
        match self.find_index(name) {
            Some(i) => {
                proof {
                    assert(self.chats@[i as int].0@ == name@);
                    lemma_pairs_map_contains(self.chats@, name@);
                }
                Err(ChatError::DuplicateName(name.to_owned()))
            },
            None => {
                proof {
                    lemma_pairs_map_contains(self.chats@, name@);
                }
                let ghost old_seq = self.chats@;
                self.chats.push((name.to_owned(), run_id.to_owned()));
                proof {
                    assert(self.chats@.drop_last() =~= old_seq);
                    assert forall|i: int, j: int|
                        0 <= i < j < self.chats@.len() implies self.chats@[i].0@
                        != self.chats@[j].0@ by {
                        if j < self.chats@.len() - 1 {
                            assert(old_seq[i].0@ != old_seq[j].0@);
                        } else {
                            assert(old_seq[i].0@ != name@);
                        }
                    }
                }
                Ok(())
            },
        }
    }

    /// The session identifier registered under the name. Fails with
    /// `UnknownChat` exactly when the name is not registered.
    pub fn get_run_id(&self, name: &str) -> (r: Result<String, ChatError>)
        requires
            self.wf(),
        ensures
            match r {
                Ok(id) => self.chat_map().contains_key(name@) && id@ == self.chat_map()[name@],
                Err(e) => !self.chat_map().contains_key(name@) && match e {
                    ChatError::UnknownChat(n) => n@ == name@,
                    _ => false,
                },
            },
    {
        match self.find_index(name) {
            Some(i) => {
                proof {
                    lemma_pairs_map_get(self.chats@, i as int);
                }
                Ok(self.chats[i].1.clone())
            },
            None => {
                proof {
                    lemma_pairs_map_contains(self.chats@, name@);
                }
                Err(ChatError::UnknownChat(name.to_owned()))
            },
        }
    }

    /// Every registered name, each exactly once; the order is not part of
    /// the contract.
    pub fn list_chats(&self) -> (r: Vec<String>)
        requires
            self.wf(),
        ensures
            forall|i: int| 0 <= i < r@.len() ==> self.chat_map().contains_key(#[trigger] r@[i]@),
            forall|k: Seq<char>|
                #[trigger] self.chat_map().contains_key(k) ==> exists|i: int|
                    0 <= i < r@.len() && r@[i]@ == k,
            forall|i: int, j: int| 0 <= i < j < r@.len() ==> r@[i]@ != r@[j]@,
    {
        let mut out: Vec<String> = Vec::new();
        let mut i: usize = 0;
        while i < self.chats.len()
            invariant
                i <= self.chats@.len(),
                out@.len() == i,
                forall|j: int| 0 <= j < i ==> out@[j]@ == self.chats@[j].0@,
            decreases self.chats@.len() - i,
        {
            out.push(self.chats[i].0.clone());
            i = i + 1;
        }
        proof {
            assert forall|i: int|
                0 <= i < out@.len() implies self.chat_map().contains_key(#[trigger] out@[i]@) by {
                lemma_pairs_map_get(self.chats@, i);
            }
            assert forall|k: Seq<char>|
                #[trigger] self.chat_map().contains_key(k) implies exists|i: int|
                0 <= i < out@.len() && out@[i]@ == k by {
                lemma_pairs_map_contains(self.chats@, k);
                let i = choose|i: int| 0 <= i < self.chats@.len() && self.chats@[i].0@ == k;
                assert(out@[i]@ == k);
            }
        }
        out
    }

    /// The text to append to the chat's transcript for one exchange. Fails
    /// with `UnknownChat` exactly when the name is not registered: a
    /// transcript is never written ahead of its record.
    pub fn store_chat_history(&self, chat_name: &str, user_message: &str, ai_response: &str) -> (r:
        Result<String, ChatError>)
        requires
            self.wf(),
        ensures
            match r {
                Ok(block) => self.chat_map().contains_key(chat_name@) && block@ == exchange_block(
                    user_message@,
                    ai_response@,
                ),
                Err(e) => !self.chat_map().contains_key(chat_name@) && match e {
                    ChatError::UnknownChat(n) => n@ == chat_name@,
                    _ => false,
                },
            },
    {
        match self.find_index(chat_name) {
            Some(i) => {
                proof {
                    assert(self.chats@[i as int].0@ == chat_name@);
                    lemma_pairs_map_contains(self.chats@, chat_name@);
                }
                let mut block = String::new();
                block.append("User: ");
                block.append(user_message);
                block.append("\n");
                block.append("AI: ");
                block.append(ai_response);
                block.append("\n\n");
                proof {
                    assert(block@ =~= exchange_block(user_message@, ai_response@));
                }
                Ok(block)
            },
            None => {
                proof {
                    lemma_pairs_map_contains(self.chats@, chat_name@);
                }
                Err(ChatError::UnknownChat(chat_name.to_owned()))
            },
        }
    }

    /// The full snapshot to persist: the one structured text that, parsed
    /// back, yields exactly this ledger's mapping.
    pub fn snapshot_text(&self) -> (r: String)
        requires
            self.wf(),
        ensures
            r@ == string_map_json("chats"@, self.chat_map()),
            parsed_string_map(r@, "chats"@) == Some(self.chat_map()),
    {
        write_string_map("chats", &self.chats)
    }
}

/// Persistence round trip: a ledger reloaded from its own snapshot holds
/// exactly the same name to session-id mapping.
pub fn reload_from_snapshot(st: &ChatStorage) -> (r: ChatStorage)
    requires
        st.wf(),
    ensures
        r.wf(),
        r.chat_map() == st.chat_map(),
{
    let text = st.snapshot_text();
    match ChatStorage::load(Some(text.as_str())) {
        Ok(reloaded) => reloaded,
        Err(_) => {
            proof {
                assert(false);
            }
            vstd::pervasive::unreached()
        },
    }
}

/// Registering two different names gives each its own session identifier,
/// and the registered names are exactly the two: what `add_chat` ensures
/// for the second registration never disturbs the first.
pub proof fn lemma_two_fresh_chats(n1: Seq<char>, s1: Seq<char>, n2: Seq<char>, s2: Seq<char>)
    requires
        n1 != n2,
    ensures
        ({
            let m = Map::<Seq<char>, Seq<char>>::empty().insert(n1, s1).insert(n2, s2);
            &&& m[n1] == s1
            &&& m[n2] == s2
            &&& m.dom() =~= set![n1, n2]
        }),
{
}

/// A name once registered stays registered, so a second registration of it
/// meets `add_chat`'s failure case, whatever identifier it brings.
pub proof fn lemma_duplicate_add_rejected(
    m: Map<Seq<char>, Seq<char>>,
    n: Seq<char>,
    s: Seq<char>,
)
    ensures
        m.insert(n, s).contains_key(n),
{
}

} // verus!
