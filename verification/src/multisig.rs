use vstd::prelude::*;

use crate::message::{Coin, ExecuteMessage, MessageBody, ProposalAction};

verus! {

/// What base64-encoding a string yields. The encoding (standard alphabet,
/// padded) is a pure function of the input characters; its definition is
/// left to the encoder relied on below.
pub uninterp spec fn b64_of(s: Seq<char>) -> Seq<char>;

/// Relies on `base64::encode`: standard-alphabet, padded base64 of the
/// UTF-8 bytes of `s` — a function of the input characters alone.
#[verifier::external_body]
fn base64_encode(s: &String) -> (r: String)
    ensures
        r@ == b64_of(s@),
{
    base64::encode(s.as_bytes())
}

/// Builds governance proposals: an execute call is not sent to the
/// contract itself but wrapped as the single action of a "propose" message
/// addressed to the group's multisig contract.
pub struct Multisig;

impl Multisig {
    /// Wrap the already-serialized payload `json_msg` as a governance
    /// proposal: an execute message addressed to `multisig_addr`, sent by
    /// `sender_addr`, carrying no funds of its own, whose proposal holds
    /// exactly one action — executing the base64 encoding of the payload
    /// against `contract_addr` with the given coins. Title and description
    /// are left empty by policy.
    ///
    /// Nothing of the proposal's content is validated here; a malformed
    /// payload surfaces only when the chain rejects the proposal.
    pub fn create_proposal(
        json_msg: &String,
        _group_name: &String,
        contract_addr: &String,
        multisig_addr: &String,
        sender_addr: &String,
        coins: Vec<Coin>,
    ) -> (r: ExecuteMessage)
        ensures
            r.sender@ == sender_addr@,
            r.contract@ == multisig_addr@,
            r.coins@.len() == 0,
            r.body matches MessageBody::Proposal { title, description, actions } && ({
                &&& title@ == Seq::<char>::empty()
                &&& description@ == Seq::<char>::empty()
                &&& actions@.len() == 1
                &&& actions@[0].contract_addr@ == contract_addr@
                &&& actions@[0].msg_b64@ == b64_of(json_msg@)
                &&& actions@[0].funds == coins
            }),
    {
        let encoded = base64_encode(json_msg);
        let action = ProposalAction {
            contract_addr: contract_addr.clone(),
            msg_b64: encoded,
            funds: coins,
        };
        let mut actions: Vec<ProposalAction> = Vec::new();
        actions.push(action);
        ExecuteMessage {
            sender: sender_addr.clone(),
            contract: multisig_addr.clone(),
            body: MessageBody::Proposal {
                title: String::new(),
                description: String::new(),
                actions,
            },
            coins: Vec::new(),
        }
    }
}

} // verus!
