//! Gates that admit or reject a connection by the peer's static key.

use crate::text::{self, push_hex};
use vstd::prelude::*;

verus! {

/// Authenticates an incoming connection by the remote static key.
///
/// Called once per connection, when the handshake is complete.
pub trait TransportGate: Send + Sync + 'static {
    /// `Ok` admits the connection; `Err` rejects it, with the reason.
    fn authenticate(&self, remote_static: &[u8; 32]) -> Result<(), String>;
}

/// Accepts every connection, and grants every request all scopes.
pub struct AllowAll;

impl TransportGate for AllowAll {
    fn authenticate(&self, _remote_static: &[u8; 32]) -> (r: Result<(), String>)
        ensures
            r is Ok,
    {
        Ok(())
    }
}

/// Who a request is made by, and what it may do.
#[derive(Debug)]
pub struct Subject {
    /// Names the subject.
    pub id: String,
    /// The scopes that it has.
    pub scopes: Vec<String>,
}

impl AllowAll {
    /// The subject that every request is made by.
    pub fn verify(&self) -> (s: Subject)
        ensures
            s.id@ == "obfs-client"@,
            s.scopes@.len() == 1,
            s.scopes@[0]@ == "*"@,
    {
        let mut scopes: Vec<String> = Vec::new();
        scopes.push("*".to_owned());
        Subject { id: "obfs-client".to_owned(), scopes }
    }
}

/// Accepts the connections of a fixed list of public keys.
pub struct KeyAllowList {
    allowed: Vec<[u8; 32]>,
}

impl View for KeyAllowList {
    type V = Seq<Seq<u8>>;

    closed spec fn view(&self) -> Seq<Seq<u8>> {
        keys_view(self.allowed@)
    }
}

/// The keys of a list, as byte sequences.
pub open spec fn keys_view(keys: Seq<[u8; 32]>) -> Seq<Seq<u8>> {
    Seq::new(keys.len(), |i: int| keys[i]@)
}

/// Why a key that is not on the list is rejected.
pub open spec fn rejection(key: Seq<u8>) -> Seq<char> {
    "public key not in allow-list: "@ + text::hex_text(key)
}

/// Whether two keys are equal.
fn same_key(a: &[u8; 32], b: &[u8; 32]) -> (same: bool)
    ensures
        same == (a@ == b@),
{
    let mut i: usize = 0;
    while i < 32
        invariant
            i <= 32,
            forall|k: int| 0 <= k < i ==> a@[k] == b@[k],
        decreases 32 - i,
    {
        if a[i] != b[i] {
            return false;
        }
        i += 1;
    }
    assert(a@ =~= b@);
    true
}

impl KeyAllowList {
    /// A gate that allows only the given public keys.
    pub fn new<const N: usize>(keys: [[u8; 32]; N]) -> (gate: Self)
        ensures
            gate@ == keys_view(keys@),
    {
        let mut allowed: Vec<[u8; 32]> = Vec::new();
        let mut i: usize = 0;
        while i < N
            invariant
                i <= N,
                allowed@ == keys@.take(i as int),
            decreases N - i,
        {
            allowed.push(keys[i]);
            i += 1;
        }
        assert(allowed@ =~= keys@);
        KeyAllowList { allowed }
    }

    /// A gate that allows only the public keys in `keys`.
    pub fn from_vec(keys: Vec<[u8; 32]>) -> (gate: Self)
        ensures
            gate@ == keys_view(keys@),
    {
        KeyAllowList { allowed: keys }
    }
}

impl TransportGate for KeyAllowList {
    fn authenticate(&self, remote_static: &[u8; 32]) -> (r: Result<(), String>)
        ensures
            r is Ok <==> self@.contains(remote_static@),
            r matches Err(e) ==> e@ == rejection(remote_static@),
    {
        let mut i: usize = 0;
        while i < self.allowed.len()
            invariant
                i <= self.allowed@.len(),
                forall|k: int| 0 <= k < i ==> (#[trigger] self.allowed@[k])@ != remote_static@,
            decreases self.allowed.len() - i,
        {
            if same_key(&self.allowed[i], remote_static) {
                assert(self@[i as int] == remote_static@);
                return Ok(());
            }
            i += 1;
        }
        proof {
            if self@.contains(remote_static@) {
                let k = choose|k: int| 0 <= k < self@.len() && self@[k] == remote_static@;
                assert(self.allowed@[k]@ != remote_static@);
            }
        }
        let mut reason: String = "public key not in allow-list: ".to_owned();
        push_hex(&mut reason, remote_static.as_slice());
        Err(reason)
    }
}

/// Whether a connection is admitted by the answer of its gate. A peer whose
/// key is unknown has nothing that a gate could reject.
pub open spec fn admitted(remote_key: Option<[u8; 32]>, verdict: Result<(), String>) -> bool {
    remote_key is None || verdict is Ok
}

/// Asks `gate` whether to admit the peer with the key `remote_key`.
pub fn lets_in<G: TransportGate>(gate: &G, remote_key: Option<[u8; 32]>) -> (b: bool)
    ensures
        match remote_key {
            None => b,
            Some(key) => exists|verdict: Result<(), String>| #[trigger]
                call_ensures(G::authenticate, (gate, &key), verdict) && b == admitted(
                    remote_key,
                    verdict,
                ),
        },
{
    match remote_key {
        None => true,
        Some(key) => {
            let verdict: Result<(), String> = gate.authenticate(&key);
            verdict.is_ok()
        },
    }
}

/// An allow-list admits exactly the keys that it was made of, and tells any
/// other key in hexadecimal why it is rejected.
pub proof fn law_list_admits_its_keys(
    keys: Vec<[u8; 32]>,
    gate: KeyAllowList,
    key: &[u8; 32],
    r: Result<(), String>,
    reason: &mut String,
    bytes: &[u8],
)
    requires
        call_ensures(KeyAllowList::from_vec, (keys,), gate),
        call_ensures(KeyAllowList::authenticate, (&gate, key), r),
        old(reason)@ == "public key not in allow-list: "@,
        bytes@ == key@,
        call_ensures(push_hex, (reason, bytes), ()),
    ensures
        r is Ok <==> exists|i: int| 0 <= i < keys@.len() && (#[trigger] keys@[i])@ == key@,
        r matches Err(e) ==> e@ == final(reason)@,
{
    if r is Ok {
        let i = choose|i: int| 0 <= i < gate@.len() && gate@[i] == key@;
        assert(keys@[i]@ == key@);
    }
    if exists|i: int| 0 <= i < keys@.len() && (#[trigger] keys@[i])@ == key@ {
        let i = choose|i: int| 0 <= i < keys@.len() && (#[trigger] keys@[i])@ == key@;
        assert(gate@[i] == key@);
    }
}

/// A list that is made of an array admits the same keys as one made of a vector.
pub proof fn law_array_makes_the_same_list<const N: usize>(
    keys: [[u8; 32]; N],
    vec: Vec<[u8; 32]>,
    a: KeyAllowList,
    b: KeyAllowList,
)
    requires
        call_ensures(KeyAllowList::new::<N>, (keys,), a),
        call_ensures(KeyAllowList::from_vec, (vec,), b),
        keys@ == vec@,
    ensures
        a@ == b@,
{
}

/// A transport gate that allows all admits every key.
pub proof fn law_allow_all_admits_everybody(key: &[u8; 32], r: Result<(), String>)
    requires
        call_ensures(AllowAll::authenticate, (&AllowAll, key), r),
    ensures
        r is Ok,
{
}

/// A peer is let in exactly if its key passes the transport gate; a peer without
/// a key is let in.
pub proof fn law_gate_is_obeyed<G: TransportGate>(gate: &G, remote_key: Option<[u8; 32]>, b: bool)
    requires
        call_ensures(lets_in::<G>, (gate, remote_key), b),
    ensures
        remote_key is None ==> b,
        remote_key matches Some(key) ==> exists|verdict: Result<(), String>| #[trigger]
            call_ensures(G::authenticate, (gate, &key), verdict) && b == (verdict is Ok),
{
}

/// Where all is allowed, every request is that of one subject with all scopes.
pub proof fn law_allow_all_grants_every_scope(s: Subject)
    requires
        call_ensures(AllowAll::verify, (&AllowAll,), s),
    ensures
        s.id@ == "obfs-client"@,
        s.scopes@.len() == 1 && s.scopes@[0]@ == "*"@,
{
}

} // verus!
