use vstd::prelude::*;

use crate::error::ScriptError;

verus! {

/// One key-value pair emitted in the logs of a confirmed transaction,
/// tagged with the event type it belongs to. Side-channel results of an
/// operation (the new contract address, the new code id) arrive only here,
/// never in the synchronous broadcast response.
#[derive(Debug, Clone, PartialEq, Eq)]
pub struct LogAttribute {
    pub event_type: String,
    pub key: String,
    pub value: String,
}

/// Mathematical model of a [`LogAttribute`].
pub struct AttrModel {
    pub event_type: Seq<char>,
    pub key: Seq<char>,
    pub value: Seq<char>,
}

impl View for LogAttribute {
    type V = AttrModel;

    open spec fn view(&self) -> AttrModel {
        AttrModel { event_type: self.event_type@, key: self.key@, value: self.value@ }
    }
}

/// A transaction found by the confirmation poll: its hash and the log
/// attributes the chain recorded for it.
#[derive(Debug, Clone, PartialEq, Eq)]
pub struct TxConfirmation {
    pub txhash: String,
    pub attributes: Vec<LogAttribute>,
}

/// Mathematical model of a [`TxConfirmation`].
pub struct ConfirmationModel {
    pub txhash: Seq<char>,
    pub attributes: Seq<AttrModel>,
}

impl View for TxConfirmation {
    type V = ConfirmationModel;

    open spec fn view(&self) -> ConfirmationModel {
        ConfirmationModel {
            txhash: self.txhash@,
            attributes: self.attributes@.map_values(|a: LogAttribute| a@),
        }
    }
}

/// What a synchronous broadcast reports: the chain-assigned hash and, when
/// the transaction was rejected by CheckTx, a nonzero error code. Mempool
/// acceptance only; block confirmation is a separate poll.
#[derive(Debug, Clone, PartialEq, Eq)]
pub struct TxOutcome {
    pub txhash: String,
    pub error_code: Option<u64>,
}

/// The value of the first logged attribute with this event type and key,
/// in log order.
pub open spec fn first_attr_spec(
    attrs: Seq<AttrModel>,
    event: Seq<char>,
    key: Seq<char>,
) -> Option<Seq<char>>
    decreases attrs.len(),
{
    if attrs.len() == 0 {
        None
    } else if attrs[0].event_type == event && attrs[0].key == key {
        Some(attrs[0].value)
    } else {
        first_attr_spec(attrs.drop_first(), event, key)
    }
}

/// The value of the first attribute of `attrs` whose event type and key are
/// the given ones, if any.
pub fn first_attribute(attrs: &Vec<LogAttribute>, event: &String, key: &String) -> (r: Option<
    String,
>)
    ensures
        match r {
            Some(v) => first_attr_spec(
                attrs@.map_values(|a: LogAttribute| a@),
                event@,
                key@,
            ) == Some(v@),
            None => first_attr_spec(
                attrs@.map_values(|a: LogAttribute| a@),
                event@,
                key@,
            ) is None,
        },
{
    let ghost model = attrs@.map_values(|a: LogAttribute| a@);
    proof {
        assert(model.skip(0) =~= model);
    }
    let mut i: usize = 0;
    while i < attrs.len()
        invariant
            i <= attrs.len(),
            model == attrs@.map_values(|a: LogAttribute| a@),
            model.len() == attrs@.len(),
            first_attr_spec(model, event@, key@) == first_attr_spec(
                model.skip(i as int),
                event@,
                key@,
            ),
        decreases attrs.len() - i,
    {
        let a = &attrs[i];
        proof {
            assert(model.skip(i as int)[0] == model[i as int]);
            assert(model.skip(i as int).drop_first() =~= model.skip(i as int + 1));
        }
        if a.event_type == *event && a.key == *key {
            return Some(a.value.clone());
        }
        i += 1;
    }
    proof {
        assert(model.skip(i as int).len() == 0);
    }
    None
}

/// Whether `c` is a decimal digit.
pub open spec fn is_digit(c: char) -> bool {
    48 <= c as u32 && c as u32 <= 57
}

/// The numeric value of the digit `c`.
pub open spec fn digit_val(c: char) -> nat {
    (c as u32 - 48) as nat
}

/// Whether every character of `s` is a decimal digit.
pub open spec fn all_digits(s: Seq<char>) -> bool {
    forall|i: int| 0 <= i < s.len() ==> #[trigger] is_digit(s[i])
}

/// The number the digit string `s` denotes, most significant digit first.
pub open spec fn digits_val(s: Seq<char>) -> nat
    decreases s.len(),
{
    if s.len() == 0 {
        0
    } else {
        digits_val(s.drop_last()) * 10 + digit_val(s.last())
    }
}

/// What parsing `s` as an unsigned 64-bit decimal yields: the denoted
/// number when `s` is nonempty, all digits, and in range; nothing
/// otherwise.
pub open spec fn parse_u64_spec(s: Seq<char>) -> Option<u64> {
    if s.len() > 0 && all_digits(s) && digits_val(s) <= u64::MAX {
        Some(digits_val(s) as u64)
    } else {
        None
    }
}

/// The value a digit string denotes only grows as digits are appended.
proof fn lemma_digits_val_prefix_le(s: Seq<char>, i: int)
    requires
        0 <= i <= s.len(),
    ensures
        digits_val(s.take(i)) <= digits_val(s),
    decreases s.len() - i,
{
    if i == s.len() {
        assert(s.take(i) =~= s);
    } else {
        assert(s.take(i + 1).drop_last() =~= s.take(i));
        assert(s.take(i + 1).last() == s[i]);
        assert(digits_val(s.take(i + 1)) == digits_val(s.take(i)) * 10 + digit_val(s[i]));
        lemma_digits_val_prefix_le(s, i + 1);
    }
}

/// Parse a decimal unsigned 64-bit integer, exactly as [`parse_u64_spec`]
/// describes: any non-digit, an empty string, or an out-of-range value
/// yields `None`.
pub fn parse_u64_decimal(s: &str) -> (r: Option<u64>)
    ensures
        r == parse_u64_spec(s@),
{
    let n = s.unicode_len();
    if n == 0 {
        return None;
    }
    let mut acc: u64 = 0;
    let mut i: usize = 0;
    while i < n
        invariant
            n == s@.len(),
            0 < n,
            i <= n,
            all_digits(s@.take(i as int)),
            acc == digits_val(s@.take(i as int)),
        decreases n - i,
    {
        let c = s.get_char(i);
        let u = c as u32;
        proof {
            assert(s@.take(i as int + 1).drop_last() =~= s@.take(i as int));
            assert(s@.take(i as int + 1).last() == s@[i as int]);
        }
        if u < 48 || u > 57 {
            proof {
                assert(!is_digit(s@[i as int]));
                assert(!all_digits(s@));
            }
            return None;
        }
        let d = (u - 48) as u64;
        let stepped = match acc.checked_mul(10) {
            Some(t) => t.checked_add(d),
            None => None,
        };
        match stepped {
            Some(next) => {
                acc = next;
            },
            None => {
                proof {
                    assert(digits_val(s@.take(i as int + 1)) > u64::MAX);
                    lemma_digits_val_prefix_le(s@, i as int + 1);
                    assert(digits_val(s@) > u64::MAX);
                }
                return None;
            },
        }
        i += 1;
    }
    proof {
        assert(s@.take(n as int) =~= s@);
    }
    Some(acc)
}

/// What one decision of the confirmation-poll loop yields.
pub enum PollStep {
    /// The transaction was found; polling ends with its confirmation.
    Confirmed(TxConfirmation),
    /// The transaction was not found and attempts remain: wait one interval
    /// and poll again with this many attempts left.
    Retry(u64),
    /// The transaction was not found and the budget is spent.
    TimedOut,
}

/// One decision of the bounded confirmation-poll loop. The driver performs
/// the actual chain query and the waiting; it hands in how many attempts
/// remain and what the chain returned for the hash on this attempt.
pub fn poll_step(attempts_left: u64, response: Option<TxConfirmation>) -> (r: PollStep)
    ensures
        match response {
            Some(c) => r matches PollStep::Confirmed(got) && got == c,
            None => if attempts_left > 1 {
                r matches PollStep::Retry(left) && left == attempts_left - 1
            } else {
                r matches PollStep::TimedOut
            },
        },
{
    match response {
        Some(c) => PollStep::Confirmed(c),
        None => {
            if attempts_left > 1 {
                PollStep::Retry(attempts_left - 1)
            } else {
                PollStep::TimedOut
            }
        },
    }
}

/// The first confirmation within the attempt budget among the poll
/// responses, in order; nothing when the budget or the responses run out
/// first.
pub open spec fn poll_outcome_spec(
    responses: Seq<Option<ConfirmationModel>>,
    budget: nat,
) -> Option<ConfirmationModel>
    decreases budget,
{
    if budget == 0 || responses.len() == 0 {
        None
    } else {
        match responses[0] {
            Some(c) => Some(c),
            None => poll_outcome_spec(responses.drop_first(), (budget - 1) as nat),
        }
    }
}

/// The model of a run of poll responses.
pub open spec fn responses_model(rs: Seq<Option<TxConfirmation>>) -> Seq<
    Option<ConfirmationModel>,
> {
    rs.map_values(
        |o: Option<TxConfirmation>|
            match o {
                Some(c) => Some(c@),
                None => None,
            },
    )
}

/// Replay a recorded run of poll responses against the attempt budget:
/// the first confirmation within budget, or `ConfirmationTimeout` when the
/// budget (or the run) is exhausted before one appears.
pub fn resolve_confirmation(responses: Vec<Option<TxConfirmation>>, budget: u64) -> (r: Result<
    TxConfirmation,
    ScriptError,
>)
    ensures
        match poll_outcome_spec(responses_model(responses@), budget as nat) {
            Some(c) => r matches Ok(got) && got@ == c,
            None => r matches Err(e) && e == ScriptError::ConfirmationTimeout,
        },
{
    let mut rs = responses;
    let mut left: u64 = budget;
    loop
        invariant
            poll_outcome_spec(responses_model(responses@), budget as nat) == poll_outcome_spec(
                responses_model(rs@),
                left as nat,
            ),
        decreases left,
    {
        if left == 0 || rs.len() == 0 {
            return Err(ScriptError::ConfirmationTimeout);
        }
        let ghost before = rs@;
        let head = rs.remove(0);
        proof {
            assert(responses_model(rs@) =~= responses_model(before).drop_first());
        }
        match head {
            Some(c) => {
                return Ok(c);
            },
            None => {
                left = left - 1;
            },
        }
    }
}

/// Polling that never finds the transaction within the attempt budget
/// yields no confirmation, however long the run of responses is.
pub proof fn lemma_poll_budget_exhausted(
    responses: Seq<Option<ConfirmationModel>>,
    budget: nat,
)
    requires
        forall|i: int| 0 <= i < responses.len() ==> responses[i] is None,
    ensures
        poll_outcome_spec(responses, budget) is None,
    decreases budget,
{
    if budget == 0 || responses.len() == 0 {
    } else {
        assert(responses[0] is None);
        lemma_poll_budget_exhausted(responses.drop_first(), (budget - 1) as nat);
    }
}

} // verus!
