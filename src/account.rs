use vstd::prelude::*;
use vstd::string::StringExecFns;

verus! {

/// An on-chain address: 32 bytes.
#[derive(Clone, Copy, Debug)]
pub struct Address {
    pub bytes: [u8; 32],
}

impl View for Address {
    type V = Seq<u8>;

    open spec fn view(&self) -> Seq<u8> {
        self.bytes@
    }
}

impl Address {
    pub fn new(bytes: [u8; 32]) -> (r: Address)
        ensures
            r.bytes == bytes,
    {
        Address { bytes }
    }

    /// Whether both addresses hold the same bytes.
    pub fn same(&self, other: &Address) -> (r: bool)
        ensures
            r == (self@ == other@),
    {
        let mut i: usize = 0;
        while i < 32
            invariant
                0 <= i <= 32,
                self@.len() == 32,
                other@.len() == 32,
                forall|j: int| 0 <= j < i ==> self@[j] == other@[j],
            decreases 32 - i,
        {
            if self.bytes[i] != other.bytes[i] {
                return false;
            }
            i = i + 1;
        }
        proof {
            assert(self@ =~= other@);
        }
        true
    }
}

/// A snapshot of accounts: each address, at most once, with its raw bytes.
pub struct AccountMap {
    entries: Vec<(Address, Vec<u8>)>,
}

impl View for AccountMap {
    type V = Map<Seq<u8>, Seq<u8>>;

    closed spec fn view(&self) -> Map<Seq<u8>, Seq<u8>> {
        Map::new(
            |k: Seq<u8>| exists|i: int| 0 <= i < self.entries@.len() && self.entries@[i].0@ == k,
            |k: Seq<u8>|
                {
                    let i = choose|i: int| 0 <= i < self.entries@.len() && self.entries@[i].0@ == k;
                    self.entries@[i].1@
                },
        )
    }
}

impl AccountMap {
    /// No address is held twice.
    pub closed spec fn wf(&self) -> bool {
        forall|i: int, j: int|
            0 <= i < self.entries@.len() && 0 <= j < self.entries@.len() && i != j
                ==> self.entries@[i].0@ != self.entries@[j].0@
    }

    pub fn new() -> (r: AccountMap)
        ensures
            r.wf(),
            r@ == Map::<Seq<u8>, Seq<u8>>::empty(),
    {
        let r = AccountMap { entries: Vec::new() };
        proof {
            assert(r@ =~= Map::<Seq<u8>, Seq<u8>>::empty());
        }
        r
    }

    /// Position of `key` among the entries, if it is there.
    fn find(&self, key: &Address) -> (r: Option<usize>)
        requires
            self.wf(),
        ensures
            match r {
                Some(i) => i < self.entries@.len() && self.entries@[i as int].0@ == key@,
                None => forall|i: int|
                    0 <= i < self.entries@.len() ==> self.entries@[i].0@ != key@,
            },
    {
        let mut i: usize = 0;
        while i < self.entries.len()
            invariant
                0 <= i <= self.entries@.len(),
                forall|j: int| 0 <= j < i ==> self.entries@[j].0@ != key@,
            decreases self.entries@.len() - i,
        {
            if self.entries[i].0.same(key) {
                return Some(i);
            }
            i = i + 1;
        }
        None
    }

    proof fn lemma_entry_is_view(&self, i: int)
        requires
            self.wf(),
            0 <= i < self.entries@.len(),
        ensures
            self@.contains_key(self.entries@[i].0@),
            self@[self.entries@[i].0@] == self.entries@[i].1@,
    {
        let k = self.entries@[i].0@;
        assert(self@.dom().contains(k));
        let j = choose|j: int| 0 <= j < self.entries@.len() && self.entries@[j].0@ == k;
        assert(j == i);
    }

    /// The bytes stored for `key`.
    pub fn get(&self, key: &Address) -> (r: Option<&Vec<u8>>)
        requires
            self.wf(),
        ensures
            match r {
                Some(b) => self@.contains_key(key@) && b@ == self@[key@],
                None => !self@.contains_key(key@),
            },
    {
        match self.find(key) {
            Some(i) => {
                proof {
                    self.lemma_entry_is_view(i as int);
                }
                Some(&self.entries[i].1)
            },
            None => {
                proof {
                    assert(!self@.dom().contains(key@));
                }
                None
            },
        }
    }

    /// Stores `data` for `key`, replacing what was there.
    pub fn insert(&mut self, key: Address, data: Vec<u8>)
        requires
            old(self).wf(),
        ensures
            final(self).wf(),
            final(self)@ == old(self)@.insert(key@, data@),
    {
        let ghost k = key@;
        let ghost d = data@;
        let ghost pos: int;
        match self.find(&key) {
            Some(i) => {
                self.entries.set(i, (key, data));
                proof {
                    pos = i as int;
                }
            },
            None => {
                self.entries.push((key, data));
                proof {
                    pos = self.entries@.len() - 1;
                }
            },
        }
        proof {
            let m = old(self)@.insert(k, d);
            assert forall|x: Seq<u8>| #[trigger] m.contains_key(x) implies self@.contains_key(x)
                && self@[x] == m[x] by {
                if x == k {
                    self.lemma_entry_is_view(pos);
                } else {
                    let j = choose|j: int|
                        0 <= j < old(self).entries@.len() && old(self).entries@[j].0@ == x;
                    old(self).lemma_entry_is_view(j);
                    self.lemma_entry_is_view(j);
                }
            }
            assert forall|x: Seq<u8>| #[trigger] self@.contains_key(x) implies m.contains_key(x) by {
                let j = choose|j: int| 0 <= j < self.entries@.len() && self.entries@[j].0@ == x;
                if x != k {
                    old(self).lemma_entry_is_view(j);
                }
            }
            assert(self@ =~= m);
        }
    }
}

/// Why an account could not be read from a snapshot.
#[derive(Debug)]
pub enum AccountError {
    /// The address is not in the snapshot.
    NotFound { key: Address },
    /// The stored bytes do not decode to the expected account.
    Decode { key: Address, cause: String },
}

impl AccountError {
    pub open spec fn message_spec(&self) -> Seq<char> {
        match self {
            AccountError::NotFound { key } => "Account not found "@ + base58_of(key@),
            AccountError::Decode { key, cause } => "Account "@ + base58_of(key@)
                + " could not be decoded: "@ + cause@,
        }
    }

    /// The cause, in words, with the address in base 58.
    pub fn message(&self) -> (r: String)
        ensures
            r@ == self.message_spec(),
    {
        match self {
            AccountError::NotFound { key } => {
                let text = address_text(key);
                String::from_str("Account not found ").concat(text.as_str())
            },
            AccountError::Decode { key, cause } => {
                let text = address_text(key);
                String::from_str("Account ").concat(text.as_str()).concat(
                    " could not be decoded: ",
                ).concat(cause.as_str())
            },
        }
    }
}

/// The base-58 text of a 32-byte address.
pub uninterp spec fn base58_of(bytes: Seq<u8>) -> Seq<char>;

/// Relies on the `Display` of anchor_lang's `Pubkey`, which writes the
/// address's bytes in base 58.
#[verifier::external_body]
fn address_text(a: &Address) -> (r: String)
    ensures
        r@ == base58_of(a@),
{
    anchor_lang::prelude::Pubkey::new_from_array(a.bytes).to_string()
}

/// The result of decoding the bytes stored at `key` with `decode`: the value,
/// or a decode error naming `key` and carrying the decoder's cause.
pub open spec fn decoded<A, F: Fn(&[u8]) -> Result<A, String>>(
    decode: F,
    key: Address,
    data: Seq<u8>,
    r: Result<A, AccountError>,
) -> bool {
    exists|b: &[u8], out: Result<A, String>|
        b@ == data && decode.ensures((b,), out) && match out {
            Ok(a) => r == Ok::<A, AccountError>(a),
            Err(cause) => r == Err::<A, AccountError>(AccountError::Decode { key, cause }),
        }
}

/// Looks `key` up and decodes its bytes with `decode`.
fn lookup_decode<A, F: Fn(&[u8]) -> Result<A, String>>(
    account_map: &AccountMap,
    key: &Address,
    decode: F,
) -> (r: Result<A, AccountError>)
    requires
        account_map.wf(),
        forall|b: &[u8]| decode.requires((b,)),
    ensures
        !account_map@.contains_key(key@) ==> r == Err::<A, AccountError>(
            AccountError::NotFound { key: *key },
        ),
        account_map@.contains_key(key@) ==> decoded(decode, *key, account_map@[key@], r),
{
    match account_map.get(key) {
        None => Err(AccountError::NotFound { key: *key }),
        Some(data) => {
            let b = data.as_slice();
            let out = decode(b);
            match out {
                Ok(a) => Ok(a),
                Err(cause) => Err(AccountError::Decode { key: *key, cause }),
            }
        },
    }
}

/// Reads the account at `key` from the snapshot and decodes it with
/// `decode`, a reader of the self-describing, discriminated account layout.
pub fn account_map_get<A, F: Fn(&[u8]) -> Result<A, String>>(
    account_map: &AccountMap,
    key: &Address,
    decode: F,
) -> (r: Result<A, AccountError>)
    requires
        account_map.wf(),
        forall|b: &[u8]| decode.requires((b,)),
    ensures
        !account_map@.contains_key(key@) ==> r == Err::<A, AccountError>(
            AccountError::NotFound { key: *key },
        ),
        account_map@.contains_key(key@) ==> decoded(decode, *key, account_map@[key@], r),
        account_map@.contains_key(key@) ==> !(r matches Err(AccountError::NotFound { .. })),
{
    lookup_decode(account_map, key, decode)
}

/// Reads the account at `key` from the snapshot and decodes it with
/// `unpack`, a reader of the fixed, packed account layout that also refuses
/// an account not yet initialized.
pub fn account_spl_get<A, F: Fn(&[u8]) -> Result<A, String>>(
    account_map: &AccountMap,
    key: &Address,
    unpack: F,
) -> (r: Result<A, AccountError>)
    requires
        account_map.wf(),
        forall|b: &[u8]| unpack.requires((b,)),
    ensures
        !account_map@.contains_key(key@) ==> r == Err::<A, AccountError>(
            AccountError::NotFound { key: *key },
        ),
        account_map@.contains_key(key@) ==> decoded(unpack, *key, account_map@[key@], r),
        account_map@.contains_key(key@) ==> !(r matches Err(AccountError::NotFound { .. })),
{
    lookup_decode(account_map, key, unpack)
}

} // verus!
