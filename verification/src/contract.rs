use vstd::prelude::*;

use crate::confirm::{
    first_attr_spec, parse_u64_spec, first_attribute, parse_u64_decimal, TxConfirmation,
    TxOutcome,
};
use crate::error::ScriptError;
use crate::message::{
    Coin, ExecuteMessage, InstantiateRequest, MessageBody, QueryRequest, UploadRequest,
};
use crate::multisig::{b64_of, Multisig};
use crate::network::{Network, WaitPolicy};
use crate::state::{addr_of, code_id_of, scaffold_spec, set_addr_spec, set_code_id_spec, StateDoc};

verus! {

/// How many times the confirmation poll asks for a transaction by hash
/// before giving up.
pub const CONFIRM_ATTEMPTS: u64 = 15;

/// How many seconds the confirmation poll waits between attempts.
pub const CONFIRM_INTERVAL_SECS: u64 = 2;

/// A named collection of contracts sharing one signer policy: whether
/// executes must go through a governance proposal, which network class the
/// group deploys to, the settling delays, and where the state document is
/// persisted. Immutable for an orchestrator's lifetime.
#[derive(Debug, Clone)]
pub struct GroupConfig {
    pub name: String,
    pub proposal: bool,
    pub network: Network,
    pub wait_policy: WaitPolicy,
    pub file_path: String,
}

/// The per-contract orchestrator: bound to a contract name and its group,
/// it turns operation requests into messages for the chain client, reads
/// confirmations back, and keeps the state document current. The signing
/// and transport themselves belong to the chain client.
#[derive(Debug, Clone)]
pub struct ContractInstance {
    pub name: String,
    pub group_config: GroupConfig,
}

/// The memo attached to upload and instantiate transactions.
pub open spec fn memo_spec(name: Seq<char>, group: Seq<char>) -> Seq<char> {
    "Contract: "@ + name + ", Group: "@ + group
}

/// The bytecode path used when none is given explicitly: the artifact
/// directory, a separator, and `<name>.wasm`.
pub open spec fn wasm_path_spec(dir: Seq<char>, name: Seq<char>) -> Seq<char> {
    dir + "/"@ + name + ".wasm"@
}

/// The bytecode file an upload reads: an explicit `path` wins; otherwise
/// the environment-provided artifact directory is required, and its absence
/// is a configuration error.
pub fn resolve_wasm_path(name: &String, path: Option<String>, wasm_dir: Option<String>) -> (r:
    Result<String, ScriptError>)
    ensures
        match path {
            Some(p) => r matches Ok(s) && s@ == p@,
            None => match wasm_dir {
                Some(d) => r matches Ok(s) && s@ == wasm_path_spec(d@, name@),
                None => r matches Err(e) && e == ScriptError::ConfigurationError,
            },
        },
{
    match path {
        Some(p) => Ok(p),
        None => match wasm_dir {
            Some(d) => Ok(d.concat("/").concat(name.as_str()).concat(".wasm")),
            None => Err(ScriptError::ConfigurationError),
        },
    }
}

impl ContractInstance {
    /// Bind an orchestrator to a contract name and its group, scaffolding
    /// the contract's leaf in the state document so every later operation
    /// finds it.
    pub fn new(name: String, group_config: GroupConfig, doc: &mut StateDoc) -> (r:
        ContractInstance)
        requires
            old(doc).well_formed(),
        ensures
            r.name == name,
            r.group_config == group_config,
            final(doc)@ == scaffold_spec(old(doc)@, group_config.name@, name@),
            final(doc).well_formed(),
    {
        let instance = ContractInstance { name, group_config };
        instance.check_scaffold(doc);
        instance
    }

    /// Insert this contract's leaf into the state document if it is
    /// absent; a no-op otherwise. Idempotent.
    pub fn check_scaffold(&self, doc: &mut StateDoc)
        requires
            old(doc).well_formed(),
        ensures
            final(doc)@ == scaffold_spec(old(doc)@, self.group_config.name@, self.name@),
            final(doc).well_formed(),
    {
        doc.ensure_scaffold(&self.group_config.name, &self.name);
    }

    /// This contract's recorded address; `NotFound` when none has been
    /// recorded yet.
    pub fn get_address(&self, doc: &StateDoc) -> (r: Result<String, ScriptError>)
        requires
            doc.well_formed(),
        ensures
            match addr_of(doc@, self.group_config.name@, self.name@) {
                Some(a) => r matches Ok(s) && s@ == a,
                None => r matches Err(e) && e == ScriptError::NotFound,
            },
    {
        doc.get_addr(&self.group_config.name, &self.name)
    }

    /// This contract's recorded code id; `NotFound` when none has been
    /// recorded yet.
    pub fn get_code_id(&self, doc: &StateDoc) -> (r: Result<u64, ScriptError>)
        requires
            doc.well_formed(),
        ensures
            match code_id_of(doc@, self.group_config.name@, self.name@) {
                Some(id) => r matches Ok(got) && got == id,
                None => r matches Err(e) && e == ScriptError::NotFound,
            },
    {
        doc.get_code_id(&self.group_config.name, &self.name)
    }

    /// Record this contract's code id in the state document.
    pub fn save_code_id(&self, doc: &mut StateDoc, code_id: u64)
        requires
            old(doc).well_formed(),
        ensures
            final(doc)@ == set_code_id_spec(
                old(doc)@,
                self.group_config.name@,
                self.name@,
                code_id,
            ),
            final(doc).well_formed(),
    {
        doc.set_code_id(&self.group_config.name, &self.name, code_id);
    }

    /// Record this contract's address in the state document.
    pub fn save_contract_address(&self, doc: &mut StateDoc, contract_address: String)
        requires
            old(doc).well_formed(),
        ensures
            final(doc)@ == set_addr_spec(
                old(doc)@,
                self.group_config.name@,
                self.name@,
                contract_address@,
            ),
            final(doc).well_formed(),
    {
        doc.set_addr(&self.group_config.name, &self.name, contract_address);
    }

    /// Record the address of another contract of the same group.
    pub fn save_other_contract_address(
        &self,
        doc: &mut StateDoc,
        contract_name: &String,
        contract_address: String,
    )
        requires
            old(doc).well_formed(),
        ensures
            final(doc)@ == set_addr_spec(
                old(doc)@,
                self.group_config.name@,
                contract_name@,
                contract_address@,
            ),
            final(doc).well_formed(),
    {
        doc.set_addr(&self.group_config.name, contract_name, contract_address);
    }

    /// The descriptive memo attached to this contract's upload and
    /// instantiate transactions.
    pub fn transaction_memo(&self) -> (r: String)
        ensures
            r@ == memo_spec(self.name@, self.group_config.name@),
    {
        String::from_str("Contract: ").concat(self.name.as_str()).concat(", Group: ").concat(
            self.group_config.name.as_str(),
        )
    }

    /// Everything the chain client needs to upload this contract's
    /// bytecode: the resolved artifact path and the memo. A missing
    /// artifact directory when no explicit path is given is a
    /// configuration error.
    pub fn prepare_upload(
        &self,
        name: &String,
        path: Option<String>,
        wasm_dir: Option<String>,
    ) -> (r: Result<UploadRequest, ScriptError>)
        ensures
            match path {
                Some(p) => r matches Ok(req) && req.wasm_path@ == p@ && req.memo@ == memo_spec(
                    self.name@,
                    self.group_config.name@,
                ),
                None => match wasm_dir {
                    Some(d) => r matches Ok(req) && req.wasm_path@ == wasm_path_spec(d@, name@)
                        && req.memo@ == memo_spec(self.name@, self.group_config.name@),
                    None => r matches Err(e) && e == ScriptError::ConfigurationError,
                },
            },
    {
        let wasm_path = match resolve_wasm_path(name, path, wasm_dir) {
            Ok(p) => p,
            Err(e) => {
                return Err(e);
            },
        };
        Ok(UploadRequest { wasm_path, memo: self.transaction_memo() })
    }

    /// Read an upload's result out of its confirmation: the `code_id`
    /// attribute of the `store_code` event, parsed as an unsigned integer,
    /// is recorded in the state document and returned. An absent or
    /// unparseable attribute is a malformed chain response and records
    /// nothing.
    pub fn finish_upload(&self, confirmation: &TxConfirmation, doc: &mut StateDoc) -> (r: Result<
        u64,
        ScriptError,
    >)
        requires
            old(doc).well_formed(),
        ensures
            final(doc).well_formed(),
            ({
                let attr = first_attr_spec(confirmation@.attributes, "store_code"@, "code_id"@);
                match attr {
                    Some(v) => match parse_u64_spec(v) {
                        Some(id) => r matches Ok(got) && got == id && final(doc)@
                            == set_code_id_spec(
                            old(doc)@,
                            self.group_config.name@,
                            self.name@,
                            id,
                        ),
                        None => r matches Err(e) && e == ScriptError::MalformedChainResponse
                            && final(doc)@ == old(doc)@,
                    },
                    None => r matches Err(e) && e == ScriptError::MalformedChainResponse
                        && final(doc)@ == old(doc)@,
                }
            }),
    {
        let event = String::from_str("store_code");
        let key = String::from_str("code_id");
        match first_attribute(&confirmation.attributes, &event, &key) {
            Some(v) => match parse_u64_decimal(v.as_str()) {
                Some(id) => {
                    self.save_code_id(doc, id);
                    Ok(id)
                },
                None => Err(ScriptError::MalformedChainResponse),
            },
            None => Err(ScriptError::MalformedChainResponse),
        }
    }

    /// Everything the chain client needs to instantiate this contract:
    /// the recorded code id, the serialized init payload, funds, the
    /// optional admin, and the memo. `NotFound` when no code id has been
    /// recorded.
    pub fn prepare_instantiate(
        &self,
        doc: &StateDoc,
        init_json: String,
        admin: Option<String>,
        coins: Vec<Coin>,
    ) -> (r: Result<InstantiateRequest, ScriptError>)
        requires
            doc.well_formed(),
        ensures
            match code_id_of(doc@, self.group_config.name@, self.name@) {
                Some(id) => r matches Ok(req) && ({
                    &&& req.code_id == id
                    &&& req.payload == init_json
                    &&& req.admin == admin
                    &&& req.coins == coins
                    &&& req.memo@ == memo_spec(self.name@, self.group_config.name@)
                }),
                None => r matches Err(e) && e == ScriptError::NotFound,
            },
    {
        let code_id = match self.get_code_id(doc) {
            Ok(id) => id,
            Err(e) => {
                return Err(e);
            },
        };
        Ok(
            InstantiateRequest {
                code_id,
                payload: init_json,
                admin,
                coins,
                memo: self.transaction_memo(),
            },
        )
    }

    /// Read an instantiation's result out of its confirmation: the
    /// `contract_address` attribute of the `instantiate_contract` event is
    /// recorded as this contract's address and returned. An absent
    /// attribute is a malformed chain response and records nothing.
    pub fn finish_instantiate(&self, confirmation: &TxConfirmation, doc: &mut StateDoc) -> (r:
        Result<String, ScriptError>)
        requires
            old(doc).well_formed(),
        ensures
            final(doc).well_formed(),
            ({
                let attr = first_attr_spec(
                    confirmation@.attributes,
                    "instantiate_contract"@,
                    "contract_address"@,
                );
                match attr {
                    Some(a) => r matches Ok(got) && got@ == a && final(doc)@ == set_addr_spec(
                        old(doc)@,
                        self.group_config.name@,
                        self.name@,
                        a,
                    ),
                    None => r matches Err(e) && e == ScriptError::MalformedChainResponse
                        && final(doc)@ == old(doc)@,
                }
            }),
    {
        let event = String::from_str("instantiate_contract");
        let key = String::from_str("contract_address");
        match first_attribute(&confirmation.attributes, &event, &key) {
            Some(a) => {
                self.save_contract_address(doc, a.clone());
                Ok(a)
            },
            None => Err(ScriptError::MalformedChainResponse),
        }
    }

    /// The one message an execute transaction carries. Without a recorded
    /// address there is nothing to execute: `NotFound`. When the group
    /// routes executes through governance, the payload is wrapped as a
    /// proposal to the group's multisig contract, whose address the caller
    /// resolves from its configuration — a missing one is a configuration
    /// error. Otherwise the payload is executed directly.
    pub fn prepare_execute(
        &self,
        doc: &StateDoc,
        exec_json: &String,
        coins: Vec<Coin>,
        sender_addr: &String,
        multisig_addr: Option<&String>,
    ) -> (r: Result<ExecuteMessage, ScriptError>)
        requires
            doc.well_formed(),
        ensures
            match addr_of(doc@, self.group_config.name@, self.name@) {
                None => r matches Err(e) && e == ScriptError::NotFound,
                Some(a) => if self.group_config.proposal {
                    match multisig_addr {
                        None => r matches Err(e) && e == ScriptError::ConfigurationError,
                        Some(m) => r matches Ok(msg) && ({
                            &&& msg.sender@ == sender_addr@
                            &&& msg.contract@ == m@
                            &&& msg.coins@.len() == 0
                            &&& msg.body matches MessageBody::Proposal {
                                title,
                                description,
                                actions,
                            } && ({
                                &&& title@ == Seq::<char>::empty()
                                &&& description@ == Seq::<char>::empty()
                                &&& actions@.len() == 1
                                &&& actions@[0].contract_addr@ == a
                                &&& actions@[0].msg_b64@ == b64_of(exec_json@)
                                &&& actions@[0].funds == coins
                            })
                        }),
                    }
                } else {
                    r matches Ok(msg) && ({
                        &&& msg.sender@ == sender_addr@
                        &&& msg.contract@ == a
                        &&& msg.coins == coins
                        &&& msg.body matches MessageBody::Direct { payload } && payload@
                            == exec_json@
                    })
                },
            },
    {
        let contract = match self.get_address(doc) {
            Ok(a) => a,
            Err(e) => {
                return Err(e);
            },
        };
        if self.group_config.proposal {
            match multisig_addr {
                Some(m) => Ok(
                    Multisig::create_proposal(
                        exec_json,
                        &self.group_config.name,
                        &contract,
                        m,
                        sender_addr,
                        coins,
                    ),
                ),
                None => Err(ScriptError::ConfigurationError),
            }
        } else {
            Ok(
                ExecuteMessage {
                    sender: sender_addr.clone(),
                    contract,
                    body: MessageBody::Direct { payload: exec_json.clone() },
                    coins,
                },
            )
        }
    }

    /// Accept a synchronous broadcast response as this execute's outcome.
    /// A nonzero error code is not grounds for retry or abort — remediation
    /// needs human inspection of the chain error — so the outcome is
    /// returned to the caller regardless, hash and code intact, and success
    /// here means mempool acceptance, not block confirmation.
    pub fn finish_execute(&self, outcome: TxOutcome) -> (r: Result<TxOutcome, ScriptError>)
        ensures
            r matches Ok(o) && o == outcome,
    {
        Ok(outcome)
    }

    /// Everything the chain client needs for a read-only query of this
    /// contract: its recorded address and the serialized payload.
    /// `NotFound` when no address has been recorded. No state is written
    /// and no settling delay applies afterwards.
    pub fn prepare_query(&self, doc: &StateDoc, query_json: String) -> (r: Result<
        QueryRequest,
        ScriptError,
    >)
        requires
            doc.well_formed(),
        ensures
            match addr_of(doc@, self.group_config.name@, self.name@) {
                Some(a) => r matches Ok(req) && req.contract_addr@ == a && req.payload
                    == query_json,
                None => r matches Err(e) && e == ScriptError::NotFound,
            },
    {
        let contract_addr = match self.get_address(doc) {
            Ok(a) => a,
            Err(e) => {
                return Err(e);
            },
        };
        Ok(QueryRequest { contract_addr, payload: query_json })
    }
}

} // verus!
