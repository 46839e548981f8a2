//! Council keyring: the verifying key of each agent.

use vstd::prelude::*;
use vstd::utf8::encode_utf8;
use crate::codec::{hex_encode, hex_encode_spec, lemma_hex_roundtrip};
use crate::crypto::signing::{ed25519_key_valid, parse_public_key, public_key_of_hex};
use crate::strmap::StrMap;

verus! {

#[verifier::external_type_specification]
#[verifier::external_body]
pub struct ExJsonError(serde_json::Error);

/// One agent's entry in the keyring file.
#[derive(Debug)]
pub struct AgentKey {
    /// Hex-encoded Ed25519 verifying key (32 bytes).
    pub public_key: String,
}

/// The keyring file: agent ids with their keys.
#[derive(Debug)]
pub struct KeyringFile {
    pub agents: Vec<(String, AgentKey)>,
}

/// Errors of loading or saving a keyring.
#[derive(Debug)]
pub enum KeyringError {
    Io(std::io::Error),
    Json(serde_json::Error),
    InvalidKey(String),
}

/// No agent id occurs twice in `entries`.
pub open spec fn distinct_ids(entries: Seq<(String, AgentKey)>) -> bool {
    forall|i: int, j: int| 0 <= i < entries.len() && 0 <= j < entries.len() && i != j
        ==> (#[trigger] entries[i]).0@ != (#[trigger] entries[j]).0@
}

/// Every key of a keyring file entry list decodes.
pub open spec fn all_keys_decode(entries: Seq<(String, AgentKey)>) -> bool {
    forall|i: int| 0 <= i < entries.len() ==>
        (public_key_of_hex(encode_utf8((#[trigger] entries[i]).1.public_key@)) is Some)
}

/// The keys that the entries of a keyring file stand for.
pub open spec fn keys_of_file(entries: Seq<(String, AgentKey)>) -> Map<Seq<char>, Seq<u8>> {
    Map::new(
        |k: Seq<char>| exists|i: int| 0 <= i < entries.len() && (#[trigger] entries[i]).0@ == k,
        |k: Seq<char>| {
            let i = choose|i: int| 0 <= i < entries.len() && (#[trigger] entries[i]).0@ == k;
            public_key_of_hex(encode_utf8(entries[i].1.public_key@)).unwrap()
        },
    )
}

/// Maps agent ids to their Ed25519 verifying keys.
pub struct Keyring {
    keys: StrMap<[u8; 32]>,
}

impl Keyring {
    /// The keys by agent id.
    pub closed spec fn keys(&self) -> Map<Seq<char>, Seq<u8>> {
        Map::new(|k: Seq<char>| self.keys@.dom().contains(k), |k: Seq<char>| self.keys@[k]@)
    }

    /// The invariant of the underlying map.
    pub closed spec fn wf(&self) -> bool {
        self.keys.wf()
    }

    /// An empty keyring.
    pub fn empty() -> (k: Self)
        ensures
            k.wf(),
            k.keys() == Map::<Seq<char>, Seq<u8>>::empty(),
    {
        let k = Keyring { keys: StrMap::new() };
        assert(k.keys() =~= Map::<Seq<char>, Seq<u8>>::empty());
        k
    }

    /// Registers (or replaces) the key of `agent_id`.
    pub fn register(&mut self, agent_id: &str, public_key: &[u8; 32])
        requires
            old(self).wf(),
        ensures
            final(self).wf(),
            final(self).keys() == old(self).keys().insert(agent_id@, public_key@),
    {
        self.keys.insert(agent_id, *public_key);
        assert(self.keys() =~= old(self).keys().insert(agent_id@, public_key@));
    }

    /// The key of `agent_id`, if registered.
    pub fn get_public_key(&self, agent_id: &str) -> (r: Option<[u8; 32]>)
        requires
            self.wf(),
        ensures
            match r {
                Some(k) => self.keys().dom().contains(agent_id@) && k@ == self.keys()[agent_id@],
                None => !self.keys().dom().contains(agent_id@),
            },
    {
        match self.keys.get(agent_id) {
            Some(k) => Some(*k),
            None => None,
        }
    }

    /// Whether `agent_id` is registered.
    pub fn contains(&self, agent_id: &str) -> (b: bool)
        requires
            self.wf(),
        ensures
            b == self.keys().dom().contains(agent_id@),
    {
        self.keys.contains_key(agent_id)
    }

    /// All registered agent ids, each once.
    pub fn agent_ids(&self) -> (r: Vec<String>)
        requires
            self.wf(),
        ensures
            r.deep_view().no_duplicates(),
            r.deep_view().to_set() == self.keys().dom(),
    {
        let r = self.keys.keys();
        assert(self.keys().dom() =~= self.keys@.dom());
        r
    }

    /// Builds a keyring from the entries of a keyring file; fails with the id
    /// of an agent whose key does not decode.
    pub fn from_file(file: &KeyringFile) -> (r: Result<Keyring, KeyringError>)
        requires
            distinct_ids(file.agents@),
        ensures
            match r {
                Ok(k) => k.wf() && all_keys_decode(file.agents@) && k.keys() == keys_of_file(file.agents@),
                Err(e) => match e {
                    KeyringError::InvalidKey(id) => exists|i: int| 0 <= i < file.agents@.len()
                        && (#[trigger] file.agents@[i]).0@ == id@
                        && public_key_of_hex(encode_utf8(file.agents@[i].1.public_key@)) is None,
                    _ => false,
                },
            },
    {
        let mut ring = Keyring::empty();
        let n = file.agents.len();
        let mut i: usize = 0;
        while i < n
            invariant
                n == file.agents@.len(),
                i <= n,
                ring.wf(),
                distinct_ids(file.agents@),
                forall|j: int| 0 <= j < i ==>
                    (public_key_of_hex(encode_utf8((#[trigger] file.agents@[j]).1.public_key@)) is Some),
                ring.keys() == keys_of_file(file.agents@.take(i as int)),
            decreases n - i,
        {
            let (id, key) = &file.agents[i];
            match parse_public_key(key.public_key.as_str()) {
                Ok(k) => {
                    let ghost before = ring.keys();
                    ring.register(id.as_str(), &k);
                    proof {
                        let s = file.agents@.take(i as int + 1);
                        let t = file.agents@.take(i as int);
                        assert(s[i as int] == file.agents@[i as int]);
                        assert forall|kk: Seq<char>| #![auto] ring.keys().dom().contains(kk)
                            == keys_of_file(s).dom().contains(kk) by {
                            if keys_of_file(s).dom().contains(kk) {
                                let j = choose|j: int| 0 <= j < s.len() && (#[trigger] s[j]).0@ == kk;
                                if j < i {
                                    assert(t[j] == s[j]);
                                }
                            }
                            if before.dom().contains(kk) {
                                let j = choose|j: int| 0 <= j < t.len() && (#[trigger] t[j]).0@ == kk;
                                assert(s[j] == t[j]);
                            }
                        }
                        assert forall|kk: Seq<char>| #[trigger] ring.keys().dom().contains(kk)
                            implies ring.keys()[kk] == keys_of_file(s)[kk] by {
                            let j = choose|j: int| 0 <= j < s.len() && (#[trigger] s[j]).0@ == kk;
                            if kk == id@ {
                                assert(s[i as int].0@ == kk);
                                if j != i {
                                    assert(file.agents@[j].0@ != file.agents@[i as int].0@);
                                }
                            } else {
                                assert(j < i);
                                assert(t[j] == s[j]);
                                let j2 = choose|j2: int| 0 <= j2 < t.len() && (#[trigger] t[j2]).0@ == kk;
                                assert(t[j2] == file.agents@[j2]);
                                assert(t[j] == file.agents@[j]);
                                if j2 != j {
                                    assert(file.agents@[j].0@ != file.agents@[j2].0@);
                                }
                            }
                        }
                        assert(ring.keys() =~= keys_of_file(s));
                    }
                },
                Err(_) => {
                    return Err(KeyringError::InvalidKey(id.clone()));
                },
            }
            i = i + 1;
        }
        assert(file.agents@.take(n as int) =~= file.agents@);
        Ok(ring)
    }

    /// The keyring file entries: each agent with the hex text of its key.
    pub fn to_file(&self) -> (f: KeyringFile)
        requires
            self.wf(),
        ensures
            distinct_ids(f.agents@),
            f.agents@.len() == self.keys().dom().len(),
            forall|i: int| 0 <= i < f.agents@.len() ==>
                self.keys().dom().contains((#[trigger] f.agents@[i]).0@)
                && f.agents@[i].1.public_key@ == hex_encode_spec(self.keys()[f.agents@[i].0@]),
            forall|k: Seq<char>| #[trigger] self.keys().dom().contains(k) ==>
                exists|i: int| 0 <= i < f.agents@.len() && f.agents@[i].0@ == k,
    {
        let ids = self.keys.keys();
        proof { assert(self.keys().dom() =~= self.keys@.dom()); }
        let n = ids.len();
        let mut agents: Vec<(String, AgentKey)> = Vec::new();
        let mut i: usize = 0;
        while i < n
            invariant
                self.wf(),
                n == ids@.len(),
                ids.deep_view().no_duplicates(),
                ids.deep_view().to_set() == self.keys@.dom(),
                i <= n,
                agents@.len() == i,
                forall|j: int| 0 <= j < i ==> (#[trigger] agents@[j]).0@ == ids@[j]@
                    && agents@[j].1.public_key@ == hex_encode_spec(self.keys@[ids@[j]@]@),
            decreases n - i,
        {
            let id = &ids[i];
            proof {
                assert(ids.deep_view()[i as int] == id@);
                assert(ids.deep_view().to_set().contains(id@));
            }
            let k = *self.keys.get(id.as_str()).unwrap();
            agents.push((id.clone(), AgentKey { public_key: hex_encode(&k) }));
            i = i + 1;
        }
        let f = KeyringFile { agents };
        proof {
            assert forall|a: int, b: int| 0 <= a < f.agents@.len() && 0 <= b < f.agents@.len() && a != b
                implies (#[trigger] f.agents@[a]).0@ != (#[trigger] f.agents@[b]).0@ by {
                assert(ids.deep_view()[a] == ids@[a]@);
                assert(ids.deep_view()[b] == ids@[b]@);
            }
            assert forall|j: int| 0 <= j < f.agents@.len() implies
                self.keys().dom().contains((#[trigger] f.agents@[j]).0@) by {
                assert(ids.deep_view()[j] == ids@[j]@);
                assert(ids.deep_view().to_set().contains(ids@[j]@));
            }
            assert forall|k: Seq<char>| #[trigger] self.keys().dom().contains(k) implies
                exists|j: int| 0 <= j < f.agents@.len() && f.agents@[j].0@ == k by {
                assert(ids.deep_view().to_set().contains(k));
                let j = choose|j: int| 0 <= j < ids.deep_view().len() && ids.deep_view()[j] == k;
                assert(f.agents@[j].0@ == k);
            }
            ids.deep_view().unique_seq_to_set();
            assert(self.keys().dom() =~= self.keys@.dom());
            assert(ids.deep_view().len() == ids@.len());
        }
        f
    }
}

/// Saving a keyring and loading the file again gives back the same keys,
/// when every registered key is a valid verifying key (as keys obtained
/// from seeds or parsed from text always are).
pub proof fn lemma_keyring_file_roundtrip(ring: &Keyring, f: &KeyringFile)
    requires
        ring.wf(),
        forall|k: Seq<char>| #[trigger] ring.keys().dom().contains(k) ==> ed25519_key_valid(ring.keys()[k]),
        forall|k: Seq<char>| #[trigger] ring.keys().dom().contains(k) ==> ring.keys()[k].len() == 32,
        distinct_ids(f.agents@),
        forall|i: int| 0 <= i < f.agents@.len() ==>
            ring.keys().dom().contains((#[trigger] f.agents@[i]).0@)
            && f.agents@[i].1.public_key@ == hex_encode_spec(ring.keys()[f.agents@[i].0@]),
        forall|k: Seq<char>| #[trigger] ring.keys().dom().contains(k) ==>
            exists|i: int| 0 <= i < f.agents@.len() && f.agents@[i].0@ == k,
    ensures
        all_keys_decode(f.agents@),
        keys_of_file(f.agents@) == ring.keys(),
{
    assert forall|i: int| 0 <= i < f.agents@.len() implies
        public_key_of_hex(encode_utf8((#[trigger] f.agents@[i]).1.public_key@))
            == Some(ring.keys()[f.agents@[i].0@]) by {
        lemma_hex_roundtrip(ring.keys()[f.agents@[i].0@]);
    }
    assert(keys_of_file(f.agents@) =~= ring.keys()) by {
        assert forall|k: Seq<char>| #[trigger] ring.keys().dom().contains(k) implies
            keys_of_file(f.agents@)[k] == ring.keys()[k] by {
            let i = choose|i: int| 0 <= i < f.agents@.len() && (#[trigger] f.agents@[i]).0@ == k;
            assert(public_key_of_hex(encode_utf8(f.agents@[i].1.public_key@)) == Some(ring.keys()[k]));
        }
    }
}

} // verus!
