//! The decisions of looking up an NFT's metadata: which standard to ask by, with
//! which contract address and token number, and the record built from the replies.

use vstd::prelude::*;
use vstd::string::*;
use vstd::arithmetic::power2::pow2;
use crate::erc165::erc165_interfaces::{Erc165Interface, Erc165InterfaceSet};
use crate::erc165::service::Erc165Res;
use crate::ethdto::dto::{NewEthDto, Timestamp};
use crate::ethereum::{address_from_str, be_value, parse_address_text, u256_from_dec_str};
use crate::text::{all_decimal_digits, decimal_value};
use super::ethnftid::{EthNftId, EthNftIdView};
use super::{log_ids, well_formed_record, lemma_log_ids_parse_back};
use crate::events::log::Log;

verus! {

/// The interfaces recorded for a contract text, none when it has no entry.
pub open spec fn traits_of(res: Map<Seq<char>, Set<Erc165Interface>>, contract: Seq<char>) -> Set<
    Erc165Interface,
> {
    if res.contains_key(contract) {
        res[contract]
    } else {
        Set::empty()
    }
}

/// Where the lookup has an answer: a token of an ERC-721 or ERC-1155 contract needs
/// a parseable contract and a decimal token id below 2^256.
pub open spec fn uri_lookup_defined(res: Map<Seq<char>, Set<Erc165Interface>>, id: EthNftIdView) -> bool {
    let traits = traits_of(res, id.contract);
    traits.contains(Erc165Interface::ERC721) || traits.contains(Erc165Interface::ERC1155) ==> {
        &&& parse_address_text(id.contract) is Some
        &&& all_decimal_digits(id.token_id)
        &&& decimal_value(id.token_id) < pow2(256)
    }
}

/// Whether the lookup of `id` has an answer (`uri_lookup_defined`).
pub fn uri_lookup_ok(res: &Erc165Res, id: &EthNftId) -> (r: bool)
    ensures
        r == uri_lookup_defined(res@, id@),
{
    let empty = Erc165InterfaceSet::new();
    let traits = match res.get(&id.contract) {
        Some(t) => t,
        None => &empty,
    };
    assert(traits@ == traits_of(res@, id@.contract));
    if traits.contains(&Erc165Interface::ERC721) || traits.contains(&Erc165Interface::ERC1155) {
        address_from_str(id.contract.as_str()).is_some() && u256_from_dec_str(
            id.token_id.as_str(),
        ).is_some()
    } else {
        true
    }
}

/// How to look up an NFT's metadata.
#[derive(Debug)]
pub enum UriLookup {
    /// Ask the ERC-721 contract for name, symbol and `tokenURI(token)`.
    Erc721 { contract: [u8; 20], token: [u8; 32] },
    /// Ask the ERC-1155 contract for `uri(token)`.
    Erc1155 { contract: [u8; 20], token: [u8; 32] },
    /// The contract supports neither; there is no record.
    Unsupported,
}

/// The lookup for an NFT record, by the interfaces its contract supports: ERC-721
/// first, then ERC-1155; the token id is read as decimal either way.
pub fn plan_uri_lookup(res: &Erc165Res, id: &EthNftId) -> (l: UriLookup)
    requires
        uri_lookup_defined(res@, id@),
    ensures
        traits_of(res@, id@.contract).contains(Erc165Interface::ERC721) ==> (l matches UriLookup::Erc721 {
            contract,
            token,
        } && Some(contract@) == parse_address_text(id@.contract) && be_value(token@)
            == decimal_value(id@.token_id)),
        !traits_of(res@, id@.contract).contains(Erc165Interface::ERC721) && traits_of(
            res@,
            id@.contract,
        ).contains(Erc165Interface::ERC1155) ==> (l matches UriLookup::Erc1155 { contract, token }
            && Some(contract@) == parse_address_text(id@.contract) && be_value(token@)
            == decimal_value(id@.token_id)),
        !traits_of(res@, id@.contract).contains(Erc165Interface::ERC721) && !traits_of(
            res@,
            id@.contract,
        ).contains(Erc165Interface::ERC1155) ==> l is Unsupported,
{
    let empty = Erc165InterfaceSet::new();
    let traits = match res.get(&id.contract) {
        Some(t) => t,
        None => &empty,
    };
    assert(traits@ == traits_of(res@, id@.contract));
    if traits.contains(&Erc165Interface::ERC721) {
        let contract = match address_from_str(id.contract.as_str()) {
            Some(a) => a,
            None => {
                assert(false);
                [0u8; 20]
            },
        };
        let token = match u256_from_dec_str(id.token_id.as_str()) {
            Some(t) => t,
            None => {
                assert(false);
                [0u8; 32]
            },
        };
        UriLookup::Erc721 { contract, token }
    } else if traits.contains(&Erc165Interface::ERC1155) {
        let contract = match address_from_str(id.contract.as_str()) {
            Some(a) => a,
            None => {
                assert(false);
                [0u8; 20]
            },
        };
        let token = match u256_from_dec_str(id.token_id.as_str()) {
            Some(t) => t,
            None => {
                assert(false);
                [0u8; 32]
            },
        };
        UriLookup::Erc1155 { contract, token }
    } else {
        UriLookup::Unsupported
    }
}

/// The view of an optional text.
pub open spec fn opt_view(o: Option<String>) -> Option<Seq<char>> {
    match o {
        Some(t) => Some(t@),
        None => None,
    }
}

/// A contract call's text reply, where an empty or failed reply counts as absent.
pub open spec fn present_text(reply: Option<Seq<char>>) -> Option<Seq<char>> {
    match reply {
        Some(t) => if t.len() == 0 {
            None
        } else {
            Some(t)
        },
        None => None,
    }
}

/// A reply is kept whole unless it is absent or empty: present, non-empty text is
/// exactly what is stored; an empty or failed reply stores nothing.
pub proof fn lemma_present_text_keeps_replies(reply: Option<Seq<char>>)
    ensures
        reply matches Some(t) ==> (t.len() > 0 ==> present_text(reply) == reply),
        reply matches Some(t) ==> (t.len() == 0 ==> present_text(reply) is None),
        reply is None ==> present_text(reply) is None,
{
}

/// A call's reply (`None`: the call failed), empty text read as absent.
pub fn non_empty(reply: Option<String>) -> (r: Option<String>)
    ensures
        opt_view(r) == present_text(opt_view(reply)),
        reply matches Some(t) ==> (t@.len() > 0 ==> (r matches Some(u) && u@ == t@)),
        reply matches Some(t) ==> (t@.len() == 0 ==> r is None),
        reply is None ==> r is None,
{
    match reply {
        Some(s) => if s.as_str().is_empty() {
            None
        } else {
            Some(s)
        },
        None => None,
    }
}

/// The record of an ERC-721 token from its contract's replies (`None`: the call
/// failed), observed at `now`.
pub fn record_for_erc721(
    id: EthNftId,
    name: Option<String>,
    symbol: Option<String>,
    uri: Option<String>,
    now: Timestamp,
) -> (r: NewEthDto)
    ensures
        r.chain_id == id.chain_id,
        r.contract == id.contract,
        r.owner == id.owner,
        r.token_id == id.token_id,
        r.contract_type@ == "ERC721"@,
        opt_view(r.name) == present_text(opt_view(name)),
        opt_view(r.symbol) == present_text(opt_view(symbol)),
        opt_view(r.uri) == present_text(opt_view(uri)),
        r.updated_at == now,
        name matches Some(t) ==> (t@.len() > 0 ==> (r.name matches Some(u) && u@ == t@)),
        symbol matches Some(t) ==> (t@.len() > 0 ==> (r.symbol matches Some(u) && u@ == t@)),
        uri matches Some(t) ==> (t@.len() > 0 ==> (r.uri matches Some(u) && u@ == t@)),
{
    NewEthDto {
        chain_id: id.chain_id,
        contract: id.contract,
        contract_type: String::from_str("ERC721"),
        name: non_empty(name),
        symbol: non_empty(symbol),
        uri: non_empty(uri),
        owner: id.owner,
        token_id: id.token_id,
        updated_at: now,
    }
}

/// The record of an ERC-1155 token from its contract's `uri` reply (`None`: the call
/// failed), observed at `now`.
pub fn record_for_erc1155(id: EthNftId, uri: Option<String>, now: Timestamp) -> (r: NewEthDto)
    ensures
        r.chain_id == id.chain_id,
        r.contract == id.contract,
        r.owner == id.owner,
        r.token_id == id.token_id,
        r.contract_type@ == "ERC1155"@,
        r.name is None,
        r.symbol is None,
        opt_view(r.uri) == present_text(opt_view(uri)),
        r.updated_at == now,
        uri matches Some(t) ==> (t@.len() > 0 ==> (r.uri matches Some(u) && u@ == t@)),
{
    NewEthDto {
        chain_id: id.chain_id,
        contract: id.contract,
        contract_type: String::from_str("ERC1155"),
        name: None,
        symbol: None,
        uri: non_empty(uri),
        owner: id.owner,
        token_id: id.token_id,
        updated_at: now,
    }
}

/// Every record that the listener yields from a log can be looked up, whichever
/// standard its contract supports.
pub proof fn lemma_listener_records_can_be_looked_up(
    res: Map<Seq<char>, Set<Erc165Interface>>,
    log: &Log,
    chain_id: i64,
    j: int,
)
    requires
        0 <= j < log_ids(log, chain_id).len(),
    ensures
        uri_lookup_defined(res, log_ids(log, chain_id)[j]),
{
    lemma_log_ids_parse_back(log, chain_id);
    assert(well_formed_record(log_ids(log, chain_id)[j], chain_id, log.address@));
}

} // verus!
