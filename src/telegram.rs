use vstd::prelude::*;
use vstd::string::StringExecFns;

verus! {

/// Why a notification was not delivered. None of these is fatal: the caller
/// logs it and goes on.
#[derive(Debug, Clone, Copy, PartialEq, Eq, Structural)]
pub enum DeliveryError {
    /// No bot token is configured.
    MissingBotToken,
    /// No destination chat is configured.
    MissingChatId,
    /// The request could not be sent or its answer not read.
    Transport,
    /// The messaging API answered with this HTTP status, outside 200..=299.
    Rejected(u16),
}

/// Whether an HTTP status reports success (the 2xx class).
pub open spec fn is_success_status(status: u16) -> bool {
    200 <= status <= 299
}

/// The outcome of a delivery from the HTTP status the messaging API gave.
pub fn delivery_outcome(status: u16) -> (r: Result<(), DeliveryError>)
    ensures
        is_success_status(status) ==> r == Ok::<(), DeliveryError>(()),
        !is_success_status(status) ==> r == Err::<(), DeliveryError>(
            DeliveryError::Rejected(status),
        ),
{
    if 200 <= status && status <= 299 {
        Ok(())
    } else {
        Err(DeliveryError::Rejected(status))
    }
}

/// `https://api.telegram.org/bot<token>/<method>`, the endpoint of one
/// method of the Bot API.
pub open spec fn bot_api_url(token: Seq<char>, method: Seq<char>) -> Seq<char> {
    "https://api.telegram.org/bot"@ + token + "/"@ + method
}

/// The endpoint of `method` for the bot with `token`.
pub fn api_url(token: &str, method: &str) -> (r: String)
    ensures
        r@ == bot_api_url(token@, method@),
{
    proof {
        reveal_strlit("https://api.telegram.org/bot");
        reveal_strlit("/");
    }
    String::from_str("https://api.telegram.org/bot").concat(token).concat("/").concat(method)
}

/// The chat ids that occur in `ids` (a `None` is an update without a message),
/// each once, in the order of their first occurrence.
pub open spec fn distinct_ids_of(ids: Seq<Option<i64>>) -> Seq<i64>
    decreases ids.len(),
{
    if ids.len() == 0 {
        Seq::empty()
    } else {
        let rest = distinct_ids_of(ids.drop_last());
        match ids.last() {
            Some(id) => if rest.contains(id) {
                rest
            } else {
                rest.push(id)
            },
            None => rest,
        }
    }
}

fn contains_id(ids: &Vec<i64>, id: i64) -> (r: bool)
    ensures
        r == ids@.contains(id),
{
    let mut i: usize = 0;
    while i < ids.len()
        invariant
            i <= ids@.len(),
            forall|j: int| 0 <= j < i ==> ids@[j] != id,
        decreases ids@.len() - i,
    {
        if ids[i] == id {
            return true;
        }
        i = i + 1;
    }
    false
}

/// The chat ids of the updates that carry a message, without repetition, in
/// the order in which they first occur.
pub fn distinct_chat_ids(updates: &Vec<Option<i64>>) -> (r: Vec<i64>)
    ensures
        r@ == distinct_ids_of(updates@),
{
    let mut out: Vec<i64> = Vec::new();
    let mut i: usize = 0;
    while i < updates.len()
        invariant
            i <= updates@.len(),
            out@ == distinct_ids_of(updates@.subrange(0, i as int)),
        decreases updates@.len() - i,
    {
        proof {
            assert(updates@.subrange(0, i + 1).drop_last() =~= updates@.subrange(0, i as int));
        }
        if let Some(id) = updates[i] {
            if !contains_id(&out, id) {
                out.push(id);
            }
        }
        i = i + 1;
    }
    assert(updates@.subrange(0, updates@.len() as int) =~= updates@);
    out
}

} // verus!
