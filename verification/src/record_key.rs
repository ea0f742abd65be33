//! ENSIP-25 text record keys:
//!
//! ```text
//! agent-registration[<registry>][<agentId>]
//! ```
//!
//! where `<registry>` is the ERC-7930 interoperable address of the registry
//! contract, as `0x`-prefixed hex, and `<agentId>` the registry-defined agent
//! identifier.
use vstd::prelude::*;

use crate::erc7930::{
    evm_model, from_hex_spec, lemma_evm_model, lemma_hex_injective, InteropAddress,
    InteropAddressModel,
};
use crate::hex::lemma_hex_lower_digits;
use crate::error::Error;
use crate::text::{decimal, lemma_decimal_digits, u64_to_decimal};

verus! {

/// The text holds a `[` or a `]`.
pub open spec fn has_bracket(s: Seq<char>) -> bool {
    s.contains('[') || s.contains(']')
}

/// The record key for a registry written as `registry_hex` and an agent id.
pub open spec fn record_key_text(registry_hex: Seq<char>, agent_id: Seq<char>) -> Seq<char> {
    "agent-registration["@ + registry_hex + "]["@ + agent_id + "]"@
}

/// An agent id is refused exactly when one of its characters is `[` or `]`.
pub proof fn lemma_has_bracket(s: Seq<char>)
    ensures
        has_bracket(s) <==> exists|i: int| 0 <= i < s.len() && (s[i] == '[' || s[i] == ']'),
{
    if exists|i: int| 0 <= i < s.len() && (s[i] == '[' || s[i] == ']') {
        let i = choose|i: int| 0 <= i < s.len() && (s[i] == '[' || s[i] == ']');
        if s[i] == '[' {
            assert(s.contains('['));
        } else {
            assert(s.contains(']'));
        }
    }
}

/// A record key splits back into its registry text and its agent id when
/// the registry text holds no `]`.
pub proof fn lemma_record_key_text_injective(
    h1: Seq<char>,
    i1: Seq<char>,
    h2: Seq<char>,
    i2: Seq<char>,
)
    requires
        !h1.contains(']'),
        !h2.contains(']'),
        record_key_text(h1, i1) == record_key_text(h2, i2),
    ensures
        h1 == h2,
        i1 == i2,
{
    reveal_strlit("agent-registration[");
    reveal_strlit("][");
    reveal_strlit("]");
    let s = record_key_text(h1, i1);
    let s2 = record_key_text(h2, i2);
    let p = "agent-registration["@;
    assert(p.len() == 19);
    let k1 = h1.len() as int;
    let k2 = h2.len() as int;
    if h1.len() < h2.len() {
        assert(s[19 + k1] == ']');
        assert(s2[19 + k1] == h2[k1]);
        assert(h2.contains(']'));
    } else if h2.len() < h1.len() {
        assert(s2[19 + k2] == ']');
        assert(s[19 + k2] == h1[k2]);
        assert(h1.contains(']'));
    }
    assert(h1 =~= s.subrange(19, 19 + k1));
    assert(h2 =~= s2.subrange(19, 19 + k2));
    assert(i1 =~= s.subrange(19 + k1 + 2, s.len() - 1));
    assert(i2 =~= s2.subrange(19 + k2 + 2, s2.len() - 1));
}

/// The hex text of an address holds no bracket.
proof fn lemma_hex_has_no_bracket(m: InteropAddressModel)
    ensures
        !has_bracket(m.hex()),
{
    lemma_hex_lower_digits(m.encoding());
    let h = m.hex();
    assert forall|j: int| 0 <= j < h.len() implies #[trigger] h[j] != '[' && h[j] != ']' by {
        if j >= 2 {
            assert(h[j] == crate::hex::hex_lower(m.encoding())[j - 2]);
        }
    }
}

/// Distinct pairs of an encodable registry address and an agent id have
/// distinct record keys: the key determines both.
pub proof fn lemma_record_key_injective(
    m1: InteropAddressModel,
    i1: Seq<char>,
    m2: InteropAddressModel,
    i2: Seq<char>,
)
    requires
        m1.encodable(),
        m2.encodable(),
        record_key_text(m1.hex(), i1) == record_key_text(m2.hex(), i2),
    ensures
        m1 == m2,
        i1 == i2,
{
    lemma_hex_has_no_bracket(m1);
    lemma_hex_has_no_bracket(m2);
    lemma_record_key_text_injective(m1.hex(), i1, m2.hex(), i2);
    lemma_hex_injective(m1, m2);
}

/// Check that an agent id holds no `[` or `]`.
fn validate_agent_id(agent_id: &str) -> (res: Result<(), Error>)
    ensures
        match res {
            Ok(()) => !has_bracket(agent_id@),
            Err(e) => has_bracket(agent_id@) && (e matches Error::InvalidAgentId { agent_id: a }
                && a@ == agent_id@),
        },
{
    let n = agent_id.unicode_len();
    let mut i: usize = 0;
    while i < n
        invariant
            n == agent_id@.len(),
            i <= n,
            forall|j: int| 0 <= j < i ==> agent_id@[j] != '[' && agent_id@[j] != ']',
        decreases n - i,
    {
        let c = agent_id.get_char(i);
        if c == '[' || c == ']' {
            assert(agent_id@[i as int] == c);
            return Err(Error::InvalidAgentId { agent_id: agent_id.to_owned() });
        }
        i = i + 1;
    }
    Ok(())
}

/// Build an ENSIP-25 text record key from an interoperable address and an
/// agent id.
///
/// Fails with [`Error::InvalidAgentId`] exactly when the agent id holds a
/// `[` or a `]`. The registry's variable fields must fit a one-byte length.
pub fn record_key(registry: &InteropAddress, agent_id: &str) -> (res: Result<String, Error>)
    requires
        !has_bracket(agent_id@) ==> registry@.encodable(),
    ensures
        match res {
            Ok(key) => !has_bracket(agent_id@) && key@ == record_key_text(registry@.hex(), agent_id@),
            Err(e) => has_bracket(agent_id@) && (e matches Error::InvalidAgentId { agent_id: a }
                && a@ == agent_id@),
        },
        res is Ok <==> forall|i: int|
            0 <= i < agent_id@.len() ==> agent_id@[i] != '[' && agent_id@[i] != ']',
{
    proof {
        lemma_has_bracket(agent_id@);
    }
    if let Err(e) = validate_agent_id(agent_id) {
        return Err(e);
    }
    let mut key = String::from_str("agent-registration[");
    let hex = registry.to_hex();
    key.append(hex.as_str());
    key.append("][");
    key.append(agent_id);
    key.append("]");
    assert(key@ =~= record_key_text(registry@.hex(), agent_id@));
    Ok(key)
}

/// Build an ENSIP-25 text record key for an EVM registry: the registry
/// address with `chain_id` as an ERC-7930 address, and the agent id in
/// decimal. A decimal id holds no bracket, so this always succeeds.
pub fn evm_record_key(chain_id: u64, registry: [u8; 20], agent_id: u64) -> (res: Result<String, Error>)
    ensures
        res matches Ok(key) && key@ == record_key_text(
            evm_model(chain_id, registry@).hex(),
            decimal(agent_id as nat),
        ),
{
    let ia = InteropAddress::evm(chain_id, registry);
    let id_str = u64_to_decimal(agent_id);
    proof {
        lemma_evm_model(chain_id, registry@);
        lemma_decimal_digits(agent_id as nat);
        assert(!id_str@.contains('['));
        assert(!id_str@.contains(']'));
    }
    record_key(&ia, id_str.as_str())
}

} // verus!
