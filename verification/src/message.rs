use vstd::prelude::*;

verus! {

/// An amount of one denomination, attached to a message as funds. Amounts
/// are carried in their canonical decimal string form.
#[derive(Debug, Clone, PartialEq, Eq)]
pub struct Coin {
    pub denom: String,
    pub amount: String,
}

/// The single action a governance proposal carries: execute the
/// base64-encoded payload against `contract_addr` with the given funds.
#[derive(Debug, PartialEq, Eq)]
pub struct ProposalAction {
    pub contract_addr: String,
    pub msg_b64: String,
    pub funds: Vec<Coin>,
}

/// What an execute message asks the addressed contract to do: run a
/// payload directly, or open a governance proposal whose one action runs
/// the payload on another contract.
#[derive(Debug, PartialEq, Eq)]
pub enum MessageBody {
    /// The payload, in its canonical serialized form, executed as-is.
    Direct { payload: String },
    /// A "propose" call: title, description and the proposed actions.
    Proposal { title: String, description: String, actions: Vec<ProposalAction> },
}

/// A contract-execute message ready for the signer: who sends it, which
/// contract it is addressed to, what it asks for, and the attached funds.
#[derive(Debug, PartialEq, Eq)]
pub struct ExecuteMessage {
    pub sender: String,
    pub contract: String,
    pub body: MessageBody,
    pub coins: Vec<Coin>,
}

/// Everything the chain client needs for an instantiate transaction.
#[derive(Debug, PartialEq, Eq)]
pub struct InstantiateRequest {
    pub code_id: u64,
    pub payload: String,
    pub admin: Option<String>,
    pub coins: Vec<Coin>,
    pub memo: String,
}

/// Everything the chain client needs for a code-upload transaction.
#[derive(Debug, PartialEq, Eq)]
pub struct UploadRequest {
    pub wasm_path: String,
    pub memo: String,
}

/// Everything the chain client needs for a read-only contract query.
#[derive(Debug, PartialEq, Eq)]
pub struct QueryRequest {
    pub contract_addr: String,
    pub payload: String,
}

} // verus!
