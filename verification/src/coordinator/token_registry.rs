//! Canonical token identities and their per-chain representations.
//!
//! A registry is built once from a list of token definitions and is read-only
//! afterwards. Its model is a pair of maps: from a chain address (chain id and
//! lower-cased address) to a canonical id, and from a canonical id to the
//! token's mappings. The two agree: a chain address is known exactly where a
//! representation in the mappings stands at it.

use vstd::prelude::*;
use vstd::slice::*;
use vstd::string::*;
use vstd::utf8::*;
use crate::casing::{spec_lowercase, spec_uppercase};
use crate::hashing::{blake2b512, spec_blake2b512};
use crate::hexcode::{hex_encode, spec_hex_encode};
use crate::table::{Table, TableKey};
use crate::text::{clone_opt_string, opt_chars, str_eq};

verus! {

/// Canonical token identifier (chain-agnostic).
#[derive(Debug)]
pub struct CanonicalTokenId(pub String);

/// Token mappings across chains.
#[derive(Debug)]
pub struct TokenMappings {
    pub canonical_id: CanonicalTokenId,
    pub symbol: String,
    pub name: String,
    pub decimals: u8,
    pub representations: Vec<ChainToken>,
}

/// Token representation on a specific chain.
#[derive(Debug)]
pub struct ChainToken {
    pub chain_id: u64,
    pub chain_name: String,
    pub address: String,
    pub decimals: u8,
    pub native: bool,
    pub wrapped_version: Option<String>,
}

/// The list of token definitions a registry is built from.
#[derive(Debug)]
pub struct TokenConfig {
    pub tokens: Vec<TokenDefinition>,
}

#[derive(Debug)]
pub struct TokenDefinition {
    pub symbol: String,
    pub name: String,
    pub decimals: u8,
    pub representations: Vec<TokenRepresentation>,
}

#[derive(Debug)]
pub struct TokenRepresentation {
    pub chain_id: u64,
    pub chain_name: String,
    pub address: String,
    /// Overrides the token's decimals on this chain.
    pub decimals: Option<u8>,
    pub native: bool,
    pub wrapped_version: Option<String>,
}

#[derive(Debug, Clone, Copy, PartialEq, Eq, Structural)]
pub enum RegistryError {
    /// One chain address is listed under two canonical ids.
    ConfigError,
    /// The chain address, or the canonical id, is not registered.
    NotFound,
    /// The token has no representation on the chain asked for.
    NotOnChain,
}

/// A chain id with an address in lower case: the key of the reverse lookup.
pub struct ChainAddress {
    pub chain_id: u64,
    pub address: String,
}

impl TableKey for CanonicalTokenId {
    type Id = Seq<char>;

    open spec fn id(&self) -> Seq<char> {
        self.0@
    }

    fn same(&self, other: &Self) -> (r: bool) {
        self.0 == other.0
    }
}

impl TableKey for ChainAddress {
    type Id = (u64, Seq<char>);

    open spec fn id(&self) -> (u64, Seq<char>) {
        (self.chain_id, self.address@)
    }

    fn same(&self, other: &Self) -> (r: bool) {
        self.chain_id == other.chain_id && self.address == other.address
    }
}

impl CanonicalTokenId {
    pub fn duplicate(&self) -> (r: CanonicalTokenId)
        ensures
            r == *self,
    {
        CanonicalTokenId(self.0.clone())
    }
}

impl ChainToken {
    pub fn duplicate(&self) -> (r: ChainToken)
        ensures
            r == *self,
    {
        ChainToken {
            chain_id: self.chain_id,
            chain_name: self.chain_name.clone(),
            address: self.address.clone(),
            decimals: self.decimals,
            native: self.native,
            wrapped_version: clone_opt_string(&self.wrapped_version),
        }
    }
}

/// The canonical id of a symbol: the first 16 bytes of the BLAKE2b-512 digest
/// of the upper-cased symbol, in hexadecimal.
pub open spec fn spec_canonical_id(symbol: Seq<char>) -> Seq<char> {
    spec_hex_encode(spec_blake2b512(encode_utf8(spec_uppercase(symbol))).subrange(0, 16))
}

/// The reverse-lookup key of a chain id and an address as written.
pub open spec fn alias_key(chain_id: u64, address: Seq<char>) -> (u64, Seq<char>) {
    (chain_id, spec_lowercase(address))
}

/// Representation `r` of definition `d` exists, has the key `key`, and its
/// definition has the canonical id `id`.
pub open spec fn lists_at(tokens: Seq<TokenDefinition>, d: int, r: int, key: (u64, Seq<char>), id: Seq<char>) -> bool {
    &&& 0 <= d < tokens.len()
    &&& 0 <= r < tokens[d].representations@.len()
    &&& alias_key(tokens[d].representations@[r].chain_id, tokens[d].representations@[r].address@) == key
    &&& spec_canonical_id(tokens[d].symbol@) == id
}

/// Some representation among those that come before place `(d, r)` has the
/// key `key` under the canonical id `id`.
pub open spec fn lists_before(
    tokens: Seq<TokenDefinition>,
    d: int,
    r: int,
    key: (u64, Seq<char>),
    id: Seq<char>,
) -> bool {
    exists|a: int, b: int| #[trigger] lists_at(tokens, a, b, key, id) && (a < d || (a == d && b < r))
}

/// The definitions list the chain address `key` under the canonical id `id`.
pub open spec fn lists(tokens: Seq<TokenDefinition>, key: (u64, Seq<char>), id: Seq<char>) -> bool {
    lists_before(tokens, tokens.len() as int, 0, key, id)
}

/// Some chain address is listed under two different canonical ids.
pub open spec fn has_alias_conflict(tokens: Seq<TokenDefinition>) -> bool {
    exists|key: (u64, Seq<char>), id1: Seq<char>, id2: Seq<char>|
        #[trigger] lists(tokens, key, id1) && #[trigger] lists(tokens, key, id2) && id1 != id2
}

/// The last definition among the first `n` whose symbol has the canonical id
/// `id`, if there is one: a later definition of a symbol replaces an earlier.
pub open spec fn defined_by(tokens: Seq<TokenDefinition>, n: int, id: Seq<char>) -> Option<int>
    decreases n,
{
    if n <= 0 {
        None
    } else if spec_canonical_id(tokens[n - 1].symbol@) == id {
        Some(n - 1)
    } else {
        defined_by(tokens, n - 1, id)
    }
}

/// The last definition of a symbol is one of the definitions, and the symbol
/// is its own.
pub proof fn lemma_defined_by(tokens: Seq<TokenDefinition>, n: int, id: Seq<char>)
    requires
        0 <= n <= tokens.len(),
        defined_by(tokens, n, id) is Some,
    ensures
        0 <= defined_by(tokens, n, id)->0 < n,
        spec_canonical_id(tokens[defined_by(tokens, n, id)->0].symbol@) == id,
    decreases n,
{
    if n > 0 && spec_canonical_id(tokens[n - 1].symbol@) != id {
        lemma_defined_by(tokens, n - 1, id);
    }
}

/// The definition in force for the canonical id `id`, the last one of its
/// symbol, lists the chain address `key`.
pub open spec fn lists_in_force(tokens: Seq<TokenDefinition>, key: (u64, Seq<char>), id: Seq<char>) -> bool {
    match defined_by(tokens, tokens.len() as int, id) {
        Some(d) => exists|r: int| #[trigger] lists_at(tokens, d, r, key, id),
        None => false,
    }
}

/// No canonical id is defined twice: no two definitions are of one symbol,
/// or of symbols with one canonical id.
pub open spec fn defined_once(tokens: Seq<TokenDefinition>) -> bool {
    forall|a: int, b: int|
        0 <= a < b < tokens.len() ==> spec_canonical_id((#[trigger] tokens[a]).symbol@) != spec_canonical_id(
            (#[trigger] tokens[b]).symbol@,
        )
}

/// Among the first `n` definitions, the last one of a symbol that is
/// defined there exists and does not come before any of them.
pub proof fn lemma_defined_by_finds(tokens: Seq<TokenDefinition>, n: int, a: int)
    requires
        0 <= a < n <= tokens.len(),
    ensures
        defined_by(tokens, n, spec_canonical_id(tokens[a].symbol@)) is Some,
        defined_by(tokens, n, spec_canonical_id(tokens[a].symbol@))->0 >= a,
    decreases n,
{
    if spec_canonical_id(tokens[n - 1].symbol@) != spec_canonical_id(tokens[a].symbol@) {
        lemma_defined_by_finds(tokens, n - 1, a);
    }
}

/// Where no canonical id is defined twice, every definition is in force:
/// what the definitions list is what the definitions in force list.
pub proof fn lemma_defined_once(tokens: Seq<TokenDefinition>, key: (u64, Seq<char>), id: Seq<char>)
    requires
        defined_once(tokens),
    ensures
        lists(tokens, key, id) <==> lists_in_force(tokens, key, id),
{
    let n = tokens.len() as int;
    if lists(tokens, key, id) {
        let (a, b) = choose|a: int, b: int| #[trigger] lists_at(tokens, a, b, key, id) && (a < n || (a == n && b < 0));
        lemma_defined_by_finds(tokens, n, a);
        lemma_defined_by(tokens, n, id);
        let d = defined_by(tokens, n, id)->0;
        if a < d {
            assert(spec_canonical_id(tokens[a].symbol@) != spec_canonical_id(tokens[d].symbol@));
        }
        assert(lists_at(tokens, d, b, key, id));
    }
    if lists_in_force(tokens, key, id) {
        lemma_defined_by(tokens, n, id);
        let d = defined_by(tokens, n, id)->0;
        let r = choose|r: int| #[trigger] lists_at(tokens, d, r, key, id);
        assert(lists_at(tokens, d, r, key, id) && (d < n || (d == n && r < 0)));
    }
}

/// Some definition has a representation on the chain whose address is
/// `address` when both are put in lower case.
pub open spec fn names_address(tokens: Seq<TokenDefinition>, chain_id: u64, address: Seq<char>) -> bool {
    exists|d: int, r: int|
        0 <= d < tokens.len() && 0 <= r < tokens[d].representations@.len() && (
        #[trigger] tokens[d].representations@[r]).chain_id == chain_id && spec_lowercase(
            tokens[d].representations@[r].address@,
        ) == spec_lowercase(address)
}

/// The representation stands at the chain address `key`: it is on the key's
/// chain, and its address in lower case is the key's.
pub open spec fn stands_at(token: ChainToken, key: (u64, Seq<char>)) -> bool {
    alias_key(token.chain_id, token.address@) == key
}

/// Some representation stands at the chain address `key`.
pub open spec fn has_at(representations: Seq<ChainToken>, key: (u64, Seq<char>)) -> bool {
    exists|i: int| 0 <= i < representations.len() && stands_at(#[trigger] representations[i], key)
}

/// Place `i` holds the first representation that stands at `key`.
pub open spec fn is_first_at(representations: Seq<ChainToken>, key: (u64, Seq<char>), i: int) -> bool {
    &&& 0 <= i < representations.len()
    &&& stands_at(representations[i], key)
    &&& forall|j: int| 0 <= j < i ==> !stands_at(#[trigger] representations[j], key)
}

/// The place of the first representation that stands at `key`. Meaningful
/// where there is one.
pub open spec fn first_at(representations: Seq<ChainToken>, key: (u64, Seq<char>)) -> int {
    choose|i: int| is_first_at(representations, key, i)
}

/// The first representation at a chain address is at one place only.
pub proof fn lemma_first_at(representations: Seq<ChainToken>, key: (u64, Seq<char>), i: int)
    requires
        is_first_at(representations, key, i),
    ensures
        has_at(representations, key),
        first_at(representations, key) == i,
{
    let j = first_at(representations, key);
    assert(is_first_at(representations, key, j));
    if j < i {
        assert(!stands_at(representations[j], key));
    }
    if i < j {
        assert(!stands_at(representations[i], key));
    }
}

/// Where some representation stands at `key`, one of them is the first.
pub proof fn lemma_has_first_at(representations: Seq<ChainToken>, key: (u64, Seq<char>), n: int)
    requires
        0 <= n < representations.len(),
        stands_at(representations[n], key),
    ensures
        is_first_at(representations, key, first_at(representations, key)),
    decreases n,
{
    if exists|j: int| 0 <= j < n && stands_at(#[trigger] representations[j], key) {
        let j = choose|j: int| 0 <= j < n && stands_at(#[trigger] representations[j], key);
        lemma_has_first_at(representations, key, j);
    } else {
        assert(is_first_at(representations, key, n));
    }
}

/// Representation `b` of the mappings at place `a` of `order` stands at
/// `key`, and the mappings are those of the canonical id `id`.
pub open spec fn held_at(
    order: Seq<Seq<char>>,
    held: Map<Seq<char>, TokenMappings>,
    a: int,
    b: int,
    key: (u64, Seq<char>),
    id: Seq<char>,
) -> bool {
    &&& 0 <= a < order.len()
    &&& order[a] == id
    &&& held.dom().contains(id)
    &&& 0 <= b < held[id].representations@.len()
    &&& stands_at(held[id].representations@[b], key)
}

/// Some representation among those that come before place `(a, b)` stands
/// at `key` in the mappings of `id`.
pub open spec fn held_before(
    order: Seq<Seq<char>>,
    held: Map<Seq<char>, TokenMappings>,
    a: int,
    b: int,
    key: (u64, Seq<char>),
    id: Seq<char>,
) -> bool {
    exists|x: int, y: int| #[trigger] held_at(order, held, x, y, key, id) && (x < a || (x == a && y < b))
}

/// The mappings are those that the definitions in force give.
pub open spec fn holds_definitions(held: Map<Seq<char>, TokenMappings>, tokens: Seq<TokenDefinition>) -> bool {
    forall|id: Seq<char>|
        match #[trigger] defined_by(tokens, tokens.len() as int, id) {
            Some(d) => held.dom().contains(id) && built_from(held[id], tokens[d]),
            None => !held.dom().contains(id),
        }
}

/// A representation in the mappings was listed by the definition in force.
pub proof fn lemma_held_is_listed(
    tokens: Seq<TokenDefinition>,
    held: Map<Seq<char>, TokenMappings>,
    id: Seq<char>,
    b: int,
    key: (u64, Seq<char>),
)
    requires
        holds_definitions(held, tokens),
        held.dom().contains(id),
        0 <= b < held[id].representations@.len(),
        stands_at(held[id].representations@[b], key),
    ensures
        held[id].canonical_id.0@ == id,
        lists_in_force(tokens, key, id),
        lists(tokens, key, id),
{
    let n = tokens.len() as int;
    assert(defined_by(tokens, n, id) is Some);
    let d = defined_by(tokens, n, id)->0;
    lemma_defined_by(tokens, n, id);
    assert(built_from(held[id], tokens[d]));
    assert(token_from(held[id].representations@[b], tokens[d].representations@[b], tokens[d].decimals));
    assert(lists_at(tokens, d, b, key, id) && (d < n || (d == n && b < 0)));
}

/// `token` is what the registry makes of `rep`, in a definition whose own
/// decimals are `decimals`.
pub open spec fn token_from(token: ChainToken, rep: TokenRepresentation, decimals: u8) -> bool {
    &&& token.chain_id == rep.chain_id
    &&& token.chain_name@ == rep.chain_name@
    &&& token.address@ == rep.address@
    &&& token.decimals == match rep.decimals {
        Some(own) => own,
        None => decimals,
    }
    &&& token.native == rep.native
    &&& opt_chars(token.wrapped_version) == opt_chars(rep.wrapped_version)
}

/// `mappings` is what the registry makes of the definition `def`.
pub open spec fn built_from(mappings: TokenMappings, def: TokenDefinition) -> bool {
    &&& mappings.canonical_id.0@ == spec_canonical_id(def.symbol@)
    &&& mappings.symbol@ == def.symbol@
    &&& mappings.name@ == def.name@
    &&& mappings.decimals == def.decimals
    &&& mappings.representations@.len() == def.representations@.len()
    &&& forall|r: int|
        0 <= r < def.representations@.len() ==> token_from(
            #[trigger] mappings.representations@[r],
            def.representations@[r],
            def.decimals,
        )
}

/// Some representation is on `chain_id`.
pub open spec fn on_chain(representations: Seq<ChainToken>, chain_id: u64) -> bool {
    exists|i: int| 0 <= i < representations.len() && #[trigger] representations[i].chain_id == chain_id
}

/// Place `i` holds the first representation on `chain_id`.
pub open spec fn is_first_on_chain(representations: Seq<ChainToken>, chain_id: u64, i: int) -> bool {
    &&& 0 <= i < representations.len()
    &&& representations[i].chain_id == chain_id
    &&& forall|j: int| 0 <= j < i ==> #[trigger] representations[j].chain_id != chain_id
}

/// The place of the first representation on `chain_id`. Meaningful where
/// there is one.
pub open spec fn first_index(representations: Seq<ChainToken>, chain_id: u64) -> int {
    choose|i: int| is_first_on_chain(representations, chain_id, i)
}

/// The first representation on a chain is at one place only.
pub proof fn lemma_first_on_chain(representations: Seq<ChainToken>, chain_id: u64, i: int)
    requires
        is_first_on_chain(representations, chain_id, i),
    ensures
        on_chain(representations, chain_id),
        first_index(representations, chain_id) == i,
{
    let j = first_index(representations, chain_id);
    assert(is_first_on_chain(representations, chain_id, j));
    if j < i {
        assert(representations[j].chain_id != chain_id);
    }
    if i < j {
        assert(representations[i].chain_id != chain_id);
    }
}

/// The chain ids of a token's representations, in order.
pub open spec fn chain_ids(representations: Seq<ChainToken>) -> Seq<u64> {
    representations.map_values(|token: ChainToken| token.chain_id)
}

/// Token registry managing canonical token identifiers.
pub struct TokenRegistry {
    mappings: Table<CanonicalTokenId, TokenMappings>,
    reverse_lookup: Table<ChainAddress, CanonicalTokenId>,
}

impl TokenRegistry {
    /// The mappings of each canonical id.
    pub closed spec fn tokens(&self) -> Map<Seq<char>, TokenMappings> {
        self.mappings@
    }

    /// The canonical id of each registered chain address. The address in a
    /// key is in lower case.
    pub closed spec fn canonical_ids(&self) -> Map<(u64, Seq<char>), Seq<char>> {
        self.reverse_lookup@.map_values(|id: CanonicalTokenId| id.0@)
    }

    /// What `get_token_by_id` finds: the first representation on the chain
    /// of the token with the canonical id, if there is one.
    pub open spec fn spec_token_by_id(&self, canonical_id: Seq<char>, chain_id: u64) -> Option<ChainToken> {
        if self.tokens().dom().contains(canonical_id) && on_chain(
            self.tokens()[canonical_id].representations@,
            chain_id,
        ) {
            Some(
                self.tokens()[canonical_id].representations@[first_index(
                    self.tokens()[canonical_id].representations@,
                    chain_id,
                )],
            )
        } else {
            None
        }
    }

    /// What `get_token_for_chain` finds: the chain address leads to a
    /// canonical id, and the id to the first of the token's representations
    /// that stands at that chain address.
    pub open spec fn spec_token_for_chain(&self, chain_id: u64, address: Seq<char>) -> Option<ChainToken> {
        let key = alias_key(chain_id, address);
        if self.canonical_ids().dom().contains(key) {
            let representations = self.tokens()[self.canonical_ids()[key]].representations@;
            Some(representations[first_at(representations, key)])
        } else {
            None
        }
    }

    /// The registry is what `load` makes of the definitions: it knows each
    /// canonical id with the mappings of the definition in force, and each
    /// chain address that a definition in force lists, under that
    /// definition's canonical id.
    pub open spec fn loaded_from(&self, tokens: Seq<TokenDefinition>) -> bool {
        &&& self.wf()
        &&& forall|key: (u64, Seq<char>), id: Seq<char>|
            (self.canonical_ids().dom().contains(key) && self.canonical_ids()[key] == id)
                <==> #[trigger] lists_in_force(tokens, key, id)
        &&& holds_definitions(self.tokens(), tokens)
    }

    /// Every registered chain address leads to a canonical id whose mappings
    /// hold a representation at that address, and every representation in
    /// the mappings is registered at its chain address under their id.
    pub closed spec fn wf(&self) -> bool {
        &&& self.mappings.wf()
        &&& self.reverse_lookup.wf()
        &&& forall|key: (u64, Seq<char>)| #[trigger]
            self.reverse_lookup@.dom().contains(key) ==> {
                &&& self.mappings@.dom().contains(self.reverse_lookup@[key].0@)
                &&& has_at(self.mappings@[self.reverse_lookup@[key].0@].representations@, key)
            }
        &&& forall|id: Seq<char>, i: int|
            self.mappings@.dom().contains(id) && 0 <= i < self.mappings@[id].representations@.len() ==> {
                &&& self.reverse_lookup@.dom().contains(
                    alias_key(
                        (#[trigger] self.mappings@[id].representations@[i]).chain_id,
                        self.mappings@[id].representations@[i].address@,
                    ),
                )
                &&& self.reverse_lookup@[alias_key(
                    self.mappings@[id].representations@[i].chain_id,
                    self.mappings@[id].representations@[i].address@,
                )].0@ == id
            }
    }

    /// A chain address is registered exactly where some token has a
    /// representation on that chain whose address is the same in lower case;
    /// the token is then the one that the address leads to, and the
    /// representation found stands at the address asked for.
    pub proof fn lemma_registered(&self, chain_id: u64, address: Seq<char>)
        requires
            self.wf(),
        ensures
            self.canonical_ids().dom().contains(alias_key(chain_id, address)) <==> exists|id: Seq<char>|
                #![trigger self.tokens()[id]]
                self.tokens().dom().contains(id) && has_at(
                    self.tokens()[id].representations@,
                    alias_key(chain_id, address),
                ),
            forall|id: Seq<char>|
                #![trigger self.tokens()[id]]
                self.tokens().dom().contains(id) && has_at(
                    self.tokens()[id].representations@,
                    alias_key(chain_id, address),
                ) ==> self.canonical_ids()[alias_key(chain_id, address)] == id,
            self.spec_token_for_chain(chain_id, address) is Some <==> self.canonical_ids().dom().contains(
                alias_key(chain_id, address),
            ),
            self.spec_token_for_chain(chain_id, address) matches Some(token) ==> {
                &&& token.chain_id == chain_id
                &&& spec_lowercase(token.address@) == spec_lowercase(address)
            },
    {
        let key = alias_key(chain_id, address);
        assert(self.canonical_ids().dom() =~= self.reverse_lookup@.dom());
        if self.canonical_ids().dom().contains(key) {
            let id = self.canonical_ids()[key];
            assert(self.reverse_lookup@.dom().contains(key));
            assert(self.tokens().dom().contains(id));
            let reps = self.tokens()[id].representations@;
            assert(has_at(reps, key));
            let n = choose|i: int| 0 <= i < reps.len() && stands_at(#[trigger] reps[i], key);
            lemma_has_first_at(reps, key, n);
        }
        assert forall|id: Seq<char>|
            #![trigger self.tokens()[id]]
            self.tokens().dom().contains(id) && has_at(self.tokens()[id].representations@, key) implies {
            &&& self.canonical_ids().dom().contains(key)
            &&& self.canonical_ids()[key] == id
        } by {
            let reps = self.tokens()[id].representations@;
            let i = choose|i: int| 0 <= i < reps.len() && stands_at(#[trigger] reps[i], key);
            assert(stands_at(self.mappings@[id].representations@[i], key));
        }
    }

    /// What was loaded is found, and nothing else. In a registry that was
    /// loaded from definitions of which no two are of one canonical id, a
    /// chain address is found exactly where some definition has a
    /// representation on that chain with that address, both in lower case.
    /// Where a canonical id is defined more than once, the same holds of the
    /// definitions in force.
    pub proof fn lemma_loaded_is_found(&self, tokens: Seq<TokenDefinition>, chain_id: u64, address: Seq<char>)
        requires
            self.loaded_from(tokens),
        ensures
            self.spec_token_for_chain(chain_id, address) is Some <==> exists|id: Seq<char>| #[trigger]
                lists_in_force(tokens, alias_key(chain_id, address), id),
            defined_once(tokens) ==> (self.spec_token_for_chain(chain_id, address) is Some <==> names_address(
                tokens,
                chain_id,
                address,
            )),
    {
        let key = alias_key(chain_id, address);
        self.lemma_registered(chain_id, address);
        if self.canonical_ids().dom().contains(key) {
            assert(lists_in_force(tokens, key, self.canonical_ids()[key]));
        }
        if defined_once(tokens) {
            if self.canonical_ids().dom().contains(key) {
                let id = self.canonical_ids()[key];
                lemma_defined_once(tokens, key, id);
                let n = tokens.len() as int;
                let (a, b) = choose|a: int, b: int| #[trigger]
                    lists_at(tokens, a, b, key, id) && (a < n || (a == n && b < 0));
                assert(tokens[a].representations@[b].chain_id == chain_id);
            }
            if names_address(tokens, chain_id, address) {
                let (d, r) = choose|d: int, r: int|
                    0 <= d < tokens.len() && 0 <= r < tokens[d].representations@.len() && (
                    #[trigger] tokens[d].representations@[r]).chain_id == chain_id && spec_lowercase(
                        tokens[d].representations@[r].address@,
                    ) == spec_lowercase(address);
                let id = spec_canonical_id(tokens[d].symbol@);
                assert(lists_at(tokens, d, r, key, id) && (d < tokens.len() || (d == tokens.len() && r < 0)));
                lemma_defined_once(tokens, key, id);
            }
        }
    }

    /// Compute canonical token ID from symbol.
    pub fn compute_canonical_id(symbol: &str) -> (id: CanonicalTokenId)
        ensures
            id.0@ == spec_canonical_id(symbol@),
    {
        let upper = symbol.to_uppercase();
        let digest = blake2b512(upper.as_str().as_bytes());
        let head = slice_subrange(digest.as_slice(), 0, 16);
        CanonicalTokenId(hex_encode(head))
    }

    fn build_token(rep: &TokenRepresentation, decimals: u8) -> (token: ChainToken)
        ensures
            token_from(token, *rep, decimals),
    {
        ChainToken {
            chain_id: rep.chain_id,
            chain_name: rep.chain_name.clone(),
            address: rep.address.clone(),
            decimals: match rep.decimals {
                Some(own) => own,
                None => decimals,
            },
            native: rep.native,
            wrapped_version: clone_opt_string(&rep.wrapped_version),
        }
    }

    /// Builds the registry from its definitions.
    ///
    /// Fails exactly when some chain address (chain id and lower-cased
    /// address) is listed under two different canonical ids. Otherwise the
    /// registry knows each canonical id with the mappings of the last
    /// definition of its symbol, and each chain address that such a
    /// definition lists under its canonical id.
    pub fn load(config: &TokenConfig) -> (r: Result<TokenRegistry, RegistryError>)
        ensures
            r is Err <==> has_alias_conflict(config.tokens@),
            r is Err ==> r->Err_0 == RegistryError::ConfigError,
            r is Ok ==> r->Ok_0.loaded_from(config.tokens@),
    {
        let mut mappings: Table<CanonicalTokenId, TokenMappings> = Table::new();
        let mut seen: Table<ChainAddress, CanonicalTokenId> = Table::new();
        let ghost tokens = config.tokens@;
        let mut d: usize = 0;
        while d < config.tokens.len()
            invariant
                d <= config.tokens.len(),
                tokens == config.tokens@,
                mappings.wf(),
                seen.wf(),
                forall|key: (u64, Seq<char>), id: Seq<char>|
                    (seen@.dom().contains(key) && seen@[key].0@ == id) <==> #[trigger] lists_before(
                        tokens,
                        d as int,
                        0,
                        key,
                        id,
                    ),
                forall|id: Seq<char>|
                    match #[trigger] defined_by(tokens, d as int, id) {
                        Some(a) => mappings@.dom().contains(id) && built_from(mappings@[id], tokens[a]),
                        None => !mappings@.dom().contains(id),
                    },
            decreases config.tokens.len() - d,
        {
            let def = &config.tokens[d];
            let canonical_id = Self::compute_canonical_id(def.symbol.as_str());
            let ghost cid = canonical_id.0@;
            let ghost mappings_before = mappings;
            let mut representations: Vec<ChainToken> = Vec::new();
            let mut r: usize = 0;
            while r < def.representations.len()
                invariant
                    d < config.tokens.len(),
                    r <= def.representations.len(),
                    tokens == config.tokens@,
                    *def == tokens[d as int],
                    cid == spec_canonical_id(def.symbol@),
                    canonical_id.0@ == cid,
                    mappings == mappings_before,
                    seen.wf(),
                    representations@.len() == r,
                    forall|b: int|
                        0 <= b < r ==> token_from(
                            #[trigger] representations@[b],
                            def.representations@[b],
                            def.decimals,
                        ),
                    forall|key: (u64, Seq<char>), id: Seq<char>|
                        (seen@.dom().contains(key) && seen@[key].0@ == id)
                            <==> #[trigger] lists_before(tokens, d as int, r as int, key, id),
                decreases def.representations.len() - r,
            {
                let rep = &def.representations[r];
                let token = Self::build_token(rep, def.decimals);
                let key = ChainAddress { chain_id: rep.chain_id, address: rep.address.as_str().to_lowercase() };
                let ghost k = key.id();
                assert(k == alias_key(rep.chain_id, rep.address@));
                assert(lists_at(tokens, d as int, r as int, k, cid));
                match seen.get(&key) {
                    Some(existing) => {
                        if !existing.same(&canonical_id) {
                            proof {
                                let other = existing.0@;
                                assert(lists_before(tokens, d as int, r as int, k, other));
                                let (a, b) = choose|a: int, b: int| #[trigger]
                                    lists_at(tokens, a, b, k, other) && (a < d || (a == d && b < r));
                                assert(lists_at(tokens, a, b, k, other) && (a < tokens.len() || (a == tokens.len()
                                    && b < 0)));
                                assert(lists(tokens, k, other));
                                assert(lists_at(tokens, d as int, r as int, k, cid) && (d < tokens.len() || (d
                                    == tokens.len() && r < 0)));
                                assert(lists(tokens, k, cid));
                                assert(has_alias_conflict(tokens));
                            }
                            return Err(RegistryError::ConfigError);
                        }
                    },
                    None => {},
                }
                let ghost reverse_before = seen;
                seen.insert(key, canonical_id.duplicate());
                representations.push(token);
                proof {
                    assert forall|key2: (u64, Seq<char>), id: Seq<char>|
                        (seen@.dom().contains(key2) && seen@[key2].0@ == id)
                            <==> #[trigger] lists_before(tokens, d as int, r as int + 1, key2, id) by {
                        if seen@.dom().contains(key2) && seen@[key2].0@ == id {
                            if key2 == k {
                                assert(lists_at(tokens, d as int, r as int, key2, id) && (d < d || (d == d && r < r
                                    + 1)));
                            } else {
                                assert(lists_before(tokens, d as int, r as int, key2, id));
                                let (a, b) = choose|a: int, b: int| #[trigger]
                                    lists_at(tokens, a, b, key2, id) && (a < d || (a == d && b < r));
                                assert(lists_at(tokens, a, b, key2, id) && (a < d || (a == d && b < r + 1)));
                            }
                        }
                        if lists_before(tokens, d as int, r as int + 1, key2, id) {
                            let (a, b) = choose|a: int, b: int| #[trigger]
                                lists_at(tokens, a, b, key2, id) && (a < d || (a == d && b < r + 1));
                            if a == d && b == r {
                            } else {
                                assert(lists_at(tokens, a, b, key2, id) && (a < d || (a == d && b < r)));
                                assert(lists_before(tokens, d as int, r as int, key2, id));
                            }
                        }
                    }
                }
                r += 1;
            }
            let token_mappings = TokenMappings {
                canonical_id: canonical_id.duplicate(),
                symbol: def.symbol.clone(),
                name: def.name.clone(),
                decimals: def.decimals,
                representations,
            };
            assert(built_from(token_mappings, tokens[d as int]));
            mappings.insert(canonical_id, token_mappings);
            let ghost done = d as int;
            d += 1;
            proof {
                assert forall|key: (u64, Seq<char>), id: Seq<char>|
                    (seen@.dom().contains(key) && seen@[key].0@ == id)
                        <==> #[trigger] lists_before(tokens, d as int, 0, key, id) by {
                    if lists_before(tokens, done, r as int, key, id) {
                        let (a, b) = choose|a: int, b: int| #[trigger]
                            lists_at(tokens, a, b, key, id) && (a < done || (a == done && b < r));
                        assert(lists_at(tokens, a, b, key, id) && (a < d || (a == d && b < 0)));
                    }
                    if lists_before(tokens, d as int, 0, key, id) {
                        let (a, b) = choose|a: int, b: int| #[trigger]
                            lists_at(tokens, a, b, key, id) && (a < d || (a == d && b < 0));
                        assert(lists_at(tokens, a, b, key, id) && (a < done || (a == done && b < r)));
                        assert(lists_before(tokens, done, r as int, key, id));
                    }
                }
                assert forall|id: Seq<char>|
                    match #[trigger] defined_by(tokens, d as int, id) {
                        Some(a) => mappings@.dom().contains(id) && built_from(mappings@[id], tokens[a]),
                        None => !mappings@.dom().contains(id),
                    } by {
                    assert(defined_by(tokens, d as int, id) == if cid == id {
                        Some(done)
                    } else {
                        defined_by(tokens, done, id)
                    });
                }
            }
        }
        proof {
            if has_alias_conflict(tokens) {
                let (key, id1, id2) = choose|key: (u64, Seq<char>), id1: Seq<char>, id2: Seq<char>|
                    #[trigger] lists(tokens, key, id1) && #[trigger] lists(tokens, key, id2) && id1 != id2;
                assert(seen@[key].0@ == id1);
                assert(seen@[key].0@ == id2);
            }
            assert(holds_definitions(mappings@, tokens));
            mappings.lemma_ids();
        }
        let ghost order = mappings.ids();
        let ghost held = mappings@;
        let mut reverse_lookup: Table<ChainAddress, CanonicalTokenId> = Table::new();
        let mut m: usize = 0;
        while m < mappings.len()
            invariant
                m <= order.len(),
                order == mappings.ids(),
                held == mappings@,
                mappings.wf(),
                reverse_lookup.wf(),
                !has_alias_conflict(tokens),
                holds_definitions(held, tokens),
                forall|i: int| 0 <= i < order.len() ==> held.dom().contains(#[trigger] order[i]),
                forall|key: (u64, Seq<char>), id: Seq<char>|
                    (reverse_lookup@.dom().contains(key) && reverse_lookup@[key].0@ == id) <==> #[trigger] held_before(
                        order,
                        held,
                        m as int,
                        0,
                        key,
                        id,
                    ),
            decreases order.len() - m,
        {
            let entry = mappings.value_at(m);
            let ghost id = order[m as int];
            let mut r: usize = 0;
            while r < entry.representations.len()
                invariant
                    m < order.len(),
                    r <= entry.representations.len(),
                    id == order[m as int],
                    held.dom().contains(id),
                    *entry == held[id],
                    reverse_lookup.wf(),
                    !has_alias_conflict(tokens),
                    holds_definitions(held, tokens),
                    forall|key: (u64, Seq<char>), id2: Seq<char>|
                        (reverse_lookup@.dom().contains(key) && reverse_lookup@[key].0@ == id2)
                            <==> #[trigger] held_before(order, held, m as int, r as int, key, id2),
                decreases entry.representations.len() - r,
            {
                let rep = &entry.representations[r];
                let key = ChainAddress { chain_id: rep.chain_id, address: rep.address.as_str().to_lowercase() };
                let ghost k = key.id();
                let owner = entry.canonical_id.duplicate();
                proof {
                    assert(stands_at(held[id].representations@[r as int], k));
                    assert(held_at(order, held, m as int, r as int, k, id));
                    lemma_held_is_listed(tokens, held, id, r as int, k);
                    if reverse_lookup@.dom().contains(k) && reverse_lookup@[k].0@ != id {
                        let other = reverse_lookup@[k].0@;
                        assert(held_before(order, held, m as int, r as int, k, other));
                        let (x, y) = choose|x: int, y: int| #[trigger]
                            held_at(order, held, x, y, k, other) && (x < m || (x == m && y < r));
                        lemma_held_is_listed(tokens, held, other, y, k);
                        assert(has_alias_conflict(tokens));
                    }
                }
                reverse_lookup.insert(key, owner);
                proof {
                    assert forall|key2: (u64, Seq<char>), id2: Seq<char>|
                        (reverse_lookup@.dom().contains(key2) && reverse_lookup@[key2].0@ == id2)
                            <==> #[trigger] held_before(order, held, m as int, r as int + 1, key2, id2) by {
                        if reverse_lookup@.dom().contains(key2) && reverse_lookup@[key2].0@ == id2 {
                            if key2 == k {
                                assert(held_at(order, held, m as int, r as int, key2, id2) && (m < m || (m == m && r
                                    < r + 1)));
                            } else {
                                assert(held_before(order, held, m as int, r as int, key2, id2));
                                let (x, y) = choose|x: int, y: int| #[trigger]
                                    held_at(order, held, x, y, key2, id2) && (x < m || (x == m && y < r));
                                assert(held_at(order, held, x, y, key2, id2) && (x < m || (x == m && y < r + 1)));
                            }
                        }
                        if held_before(order, held, m as int, r as int + 1, key2, id2) {
                            let (x, y) = choose|x: int, y: int| #[trigger]
                                held_at(order, held, x, y, key2, id2) && (x < m || (x == m && y < r + 1));
                            if x == m && y == r {
                            } else {
                                assert(held_at(order, held, x, y, key2, id2) && (x < m || (x == m && y < r)));
                                assert(held_before(order, held, m as int, r as int, key2, id2));
                            }
                        }
                    }
                }
                r += 1;
            }
            let ghost done = m as int;
            m += 1;
            proof {
                assert forall|key: (u64, Seq<char>), id2: Seq<char>|
                    (reverse_lookup@.dom().contains(key) && reverse_lookup@[key].0@ == id2)
                        <==> #[trigger] held_before(order, held, m as int, 0, key, id2) by {
                    if held_before(order, held, done, r as int, key, id2) {
                        let (x, y) = choose|x: int, y: int| #[trigger]
                            held_at(order, held, x, y, key, id2) && (x < done || (x == done && y < r));
                        assert(held_at(order, held, x, y, key, id2) && (x < m || (x == m && y < 0)));
                    }
                    if held_before(order, held, m as int, 0, key, id2) {
                        let (x, y) = choose|x: int, y: int| #[trigger]
                            held_at(order, held, x, y, key, id2) && (x < m || (x == m && y < 0));
                        assert(held_at(order, held, x, y, key, id2) && (x < done || (x == done && y < r)));
                        assert(held_before(order, held, done, r as int, key, id2));
                    }
                }
            }
        }
        let ghost n = order.len() as int;
        let registry = TokenRegistry { mappings, reverse_lookup };
        proof {
            assert(registry.canonical_ids().dom() =~= reverse_lookup@.dom());
            assert forall|key: (u64, Seq<char>)| #[trigger] reverse_lookup@.dom().contains(key) implies {
                &&& held.dom().contains(reverse_lookup@[key].0@)
                &&& has_at(held[reverse_lookup@[key].0@].representations@, key)
            } by {
                let id = reverse_lookup@[key].0@;
                assert(held_before(order, held, n, 0, key, id));
                let (x, y) = choose|x: int, y: int| #[trigger]
                    held_at(order, held, x, y, key, id) && (x < n || (x == n && y < 0));
                assert(stands_at(held[id].representations@[y], key));
            }
            assert forall|id: Seq<char>, i: int|
                held.dom().contains(id) && 0 <= i < held[id].representations@.len() implies {
                &&& reverse_lookup@.dom().contains(
                    alias_key(
                        (#[trigger] held[id].representations@[i]).chain_id,
                        held[id].representations@[i].address@,
                    ),
                )
                &&& reverse_lookup@[alias_key(
                    held[id].representations@[i].chain_id,
                    held[id].representations@[i].address@,
                )].0@ == id
            } by {
                let key = alias_key(held[id].representations@[i].chain_id, held[id].representations@[i].address@);
                assert(order.to_set().contains(id));
                let x = order.index_of(id);
                assert(held_at(order, held, x, i, key, id) && (x < n || (x == n && i < 0)));
                assert(held_before(order, held, n, 0, key, id));
            }
            assert forall|key: (u64, Seq<char>), id: Seq<char>|
                (registry.canonical_ids().dom().contains(key) && registry.canonical_ids()[key] == id)
                    <==> #[trigger] lists_in_force(tokens, key, id) by {
                if reverse_lookup@.dom().contains(key) && reverse_lookup@[key].0@ == id {
                    assert(held_before(order, held, n, 0, key, id));
                    let (x, y) = choose|x: int, y: int| #[trigger]
                        held_at(order, held, x, y, key, id) && (x < n || (x == n && y < 0));
                    lemma_held_is_listed(tokens, held, id, y, key);
                }
                if lists_in_force(tokens, key, id) {
                    let d = defined_by(tokens, tokens.len() as int, id)->0;
                    let b = choose|b: int| #[trigger] lists_at(tokens, d, b, key, id);
                    assert(held.dom().contains(id) && built_from(held[id], tokens[d]));
                    assert(token_from(held[id].representations@[b], tokens[d].representations@[b], tokens[d].decimals));
                    assert(order.to_set().contains(id));
                    let x = order.index_of(id);
                    assert(held_at(order, held, x, b, key, id) && (x < n || (x == n && b < 0)));
                    assert(held_before(order, held, n, 0, key, id));
                }
            }
        }
        Ok(registry)
    }

    fn find_on_chain(representations: &Vec<ChainToken>, chain_id: u64) -> (r: Option<usize>)
        ensures
            match r {
                Some(i) => is_first_on_chain(representations@, chain_id, i as int),
                None => !on_chain(representations@, chain_id),
            },
    {
        let mut i: usize = 0;
        while i < representations.len()
            invariant
                i <= representations.len(),
                forall|j: int| 0 <= j < i ==> #[trigger] representations@[j].chain_id != chain_id,
            decreases representations.len() - i,
        {
            if representations[i].chain_id == chain_id {
                return Some(i);
            }
            i += 1;
        }
        None
    }

    /// Get canonical ID from chain-specific address. The address is looked
    /// up in lower case; the id found is that of the token with a
    /// representation at the chain address.
    pub fn get_canonical_id(&self, chain_id: u64, token_address: &str) -> (r: Option<&CanonicalTokenId>)
        requires
            self.wf(),
        ensures
            match r {
                Some(id) => {
                    &&& self.canonical_ids().dom().contains(alias_key(chain_id, token_address@))
                    &&& id.0@ == self.canonical_ids()[alias_key(chain_id, token_address@)]
                    &&& self.tokens().dom().contains(id.0@)
                    &&& has_at(self.tokens()[id.0@].representations@, alias_key(chain_id, token_address@))
                },
                None => !self.canonical_ids().dom().contains(alias_key(chain_id, token_address@)),
            },
    {
        let key = ChainAddress { chain_id, address: token_address.to_lowercase() };
        self.reverse_lookup.get(&key)
    }

    /// Get all representations for a token.
    pub fn get_all_representations(&self, canonical_id: &CanonicalTokenId) -> (r: Option<&TokenMappings>)
        requires
            self.wf(),
        ensures
            match r {
                Some(mappings) => self.tokens().dom().contains(canonical_id.0@) && *mappings == self.tokens()[canonical_id.0@],
                None => !self.tokens().dom().contains(canonical_id.0@),
            },
    {
        self.mappings.get(canonical_id)
    }

    /// Check if token is supported on a chain: whether the chain address is
    /// registered, so that `get_token_for_chain` finds a representation.
    pub fn is_supported(&self, chain_id: u64, token_address: &str) -> (r: bool)
        requires
            self.wf(),
        ensures
            r == self.canonical_ids().dom().contains(alias_key(chain_id, token_address@)),
            r == self.spec_token_for_chain(chain_id, token_address@) is Some,
    {
        proof {
            self.lemma_registered(chain_id, token_address@);
        }
        let key = ChainAddress { chain_id, address: token_address.to_lowercase() };
        self.reverse_lookup.contains_key(&key)
    }

    /// Get number of tokens.
    pub fn token_count(&self) -> (n: usize)
        requires
            self.wf(),
        ensures
            n == self.tokens().dom().len(),
    {
        self.mappings.len()
    }

    /// Get token by canonical ID for a specific chain: the first of the
    /// token's representations that is on the chain.
    pub fn get_token_by_id(&self, canonical_id: &CanonicalTokenId, chain_id: u64) -> (r: Result<
        ChainToken,
        RegistryError,
    >)
        requires
            self.wf(),
        ensures
            match r {
                Ok(token) => self.spec_token_by_id(canonical_id.0@, chain_id) == Some(token),
                Err(_) => self.spec_token_by_id(canonical_id.0@, chain_id) is None,
            },
            match r {
                Ok(token) => {
                    &&& self.tokens().dom().contains(canonical_id.0@)
                    &&& exists|i: int|
                        {
                            &&& #[trigger] is_first_on_chain(
                                self.tokens()[canonical_id.0@].representations@,
                                chain_id,
                                i,
                            )
                            &&& token == self.tokens()[canonical_id.0@].representations@[i]
                        }
                },
                Err(RegistryError::NotFound) => !self.tokens().dom().contains(canonical_id.0@),
                Err(RegistryError::NotOnChain) => {
                    &&& self.tokens().dom().contains(canonical_id.0@)
                    &&& !on_chain(self.tokens()[canonical_id.0@].representations@, chain_id)
                },
                Err(RegistryError::ConfigError) => false,
            },
    {
        match self.mappings.get(canonical_id) {
            None => Err(RegistryError::NotFound),
            Some(mappings) => match Self::find_on_chain(&mappings.representations, chain_id) {
                None => Err(RegistryError::NotOnChain),
                Some(i) => {
                    assert(is_first_on_chain(self.tokens()[canonical_id.0@].representations@, chain_id, i as int));
                    proof {
                        lemma_first_on_chain(self.tokens()[canonical_id.0@].representations@, chain_id, i as int);
                    }
                    Ok(mappings.representations[i].duplicate())
                },
            },
        }
    }

    fn find_at(representations: &Vec<ChainToken>, chain_id: u64, lowered: &str) -> (r: Option<usize>)
        ensures
            match r {
                Some(i) => is_first_at(representations@, (chain_id, lowered@), i as int),
                None => !has_at(representations@, (chain_id, lowered@)),
            },
    {
        let mut i: usize = 0;
        while i < representations.len()
            invariant
                i <= representations.len(),
                forall|j: int| 0 <= j < i ==> !stands_at(#[trigger] representations@[j], (chain_id, lowered@)),
            decreases representations.len() - i,
        {
            if representations[i].chain_id == chain_id {
                let folded = representations[i].address.as_str().to_lowercase();
                if str_eq(folded.as_str(), lowered) {
                    return Some(i);
                }
            }
            i += 1;
        }
        None
    }

    /// Get token for a specific chain: the representation that is registered
    /// at the chain address, that is, the one on `chain_id` whose address is
    /// `token_address` when both are put in lower case. Where a token has
    /// several such representations, it is the first of them.
    ///
    /// Fails with `NotFound` exactly where the chain address is not
    /// registered; the same address on another chain does not count.
    pub fn get_token_for_chain(&self, chain_id: u64, token_address: &str) -> (r: Result<ChainToken, RegistryError>)
        requires
            self.wf(),
        ensures
            match r {
                Ok(token) => {
                    &&& self.spec_token_for_chain(chain_id, token_address@) == Some(token)
                    &&& self.canonical_ids().dom().contains(alias_key(chain_id, token_address@))
                    &&& token.chain_id == chain_id
                    &&& spec_lowercase(token.address@) == spec_lowercase(token_address@)
                },
                Err(e) => {
                    &&& e == RegistryError::NotFound
                    &&& self.spec_token_for_chain(chain_id, token_address@) is None
                    &&& !self.canonical_ids().dom().contains(alias_key(chain_id, token_address@))
                },
            },
    {
        let key = ChainAddress { chain_id, address: token_address.to_lowercase() };
        let ghost k = alias_key(chain_id, token_address@);
        match self.reverse_lookup.get(&key) {
            None => Err(RegistryError::NotFound),
            Some(canonical_id) => match self.mappings.get(canonical_id) {
                None => Err(RegistryError::NotFound),
                Some(mappings) => match Self::find_at(&mappings.representations, chain_id, key.address.as_str()) {
                    None => Err(RegistryError::NotFound),
                    Some(i) => {
                        proof {
                            lemma_first_at(mappings.representations@, k, i as int);
                        }
                        Ok(mappings.representations[i].duplicate())
                    },
                },
            },
        }
    }

    /// Get all supported chains for a token: the chain ids of its
    /// representations in order, or nothing for an unknown token.
    pub fn get_supported_chains(&self, canonical_id: &CanonicalTokenId) -> (chains: Vec<u64>)
        requires
            self.wf(),
        ensures
            chains@ == if self.tokens().dom().contains(canonical_id.0@) {
                chain_ids(self.tokens()[canonical_id.0@].representations@)
            } else {
                Seq::<u64>::empty()
            },
    {
        let mut chains: Vec<u64> = Vec::new();
        match self.mappings.get(canonical_id) {
            None => {},
            Some(mappings) => {
                let mut i: usize = 0;
                while i < mappings.representations.len()
                    invariant
                        i <= mappings.representations.len(),
                        chains@ == chain_ids(mappings.representations@).take(i as int),
                    decreases mappings.representations.len() - i,
                {
                    chains.push(mappings.representations[i].chain_id);
                    assert(chains@ =~= chain_ids(mappings.representations@).take(i as int + 1));
                    i += 1;
                }
                assert(chains@ =~= chain_ids(mappings.representations@));
            },
        }
        chains
    }
}

} // verus!
