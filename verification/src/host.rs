use vstd::prelude::*;
use crate::text::{chars_of, decode_lossy, lossy_text, same_text};

verus! {

/// The error type of `serde_json`.
#[verifier::external_type_specification]
#[verifier::external_body]
pub struct ExJsonError(serde_json::Error);

/// The JSON text that `serde_json::to_vec` writes for a list of strings.
pub uninterp spec fn json_string_list(items: Seq<Seq<char>>) -> Seq<u8>;

/// Calls `serde_json::to_vec` on a list of strings. Trusted: it succeeds, with the named
/// `json_string_list` of the strings. In serde_json's source, serialising a sequence of
/// strings fails only when its writer fails, and `to_vec` writes into a `Vec<u8>`, which
/// std documents as growing as needed.
#[verifier::external_body]
fn strings_to_json(items: &Vec<String>) -> (r: Result<Vec<u8>, serde_json::Error>)
    ensures
        r is Ok,
        r matches Ok(v) ==> v@ == json_string_list(items.deep_view()),
{
    serde_json::to_vec(items)
}

/// The only key of the local state that the host answers.
pub open spec fn banned_key() -> Seq<char> {
    "banned_binaries"@
}

/// `value` cut to the room the guest offers: `out_len` bytes, or all of it when `out_len` is
/// negative (a negative room reads as an unbounded one).
pub open spec fn truncated(value: Seq<u8>, out_len: i32) -> Seq<u8> {
    if out_len < 0 || value.len() <= out_len {
        value
    } else {
        value.take(out_len as int)
    }
}

/// Cuts a reply to the room the guest offers.
pub fn truncate_reply(value: Vec<u8>, out_len: i32) -> (r: Vec<u8>)
    ensures
        r@ == truncated(value@, out_len),
{
    if out_len < 0 || value.len() <= out_len as usize {
        return value;
    }
    let n = out_len as usize;
    let mut r: Vec<u8> = Vec::new();
    let mut i: usize = 0;
    while i < n
        invariant
            n < value@.len(),
            n == out_len,
            i <= n,
            r@ == value@.take(i as int),
        decreases n - i,
    {
        r.push(value[i]);
        i = i + 1;
        assert(r@ =~= value@.take(i as int));
    }
    r
}

/// The reply for the banned-binaries key, from the outcome of serialising the list: the
/// JSON cut to the room offered, or nothing when serialising failed.
pub fn reply_from_json(json: Result<Vec<u8>, serde_json::Error>, out_len: i32) -> (r: Vec<u8>)
    ensures
        json matches Ok(v) ==> r@ == truncated(v@, out_len),
        json is Err ==> r@.len() == 0,
{
    match json {
        Ok(v) => truncate_reply(v, out_len),
        Err(_) => Vec::new(),
    }
}

/// Answers the guest's request for a piece of host state. The key is read as lossy UTF-8;
/// `banned_binaries` is answered with the banned list as JSON, any other key with nothing.
/// The reply holds at most `out_len` bytes when `out_len` is not negative.
pub fn local_state_reply(key: &[u8], banned: &Vec<String>, out_len: i32) -> (r: Vec<u8>)
    ensures
        lossy_text(key@) != banned_key() ==> r@.len() == 0,
        lossy_text(key@) == banned_key() ==> r@ == truncated(
            json_string_list(banned.deep_view()),
            out_len,
        ),
        out_len >= 0 ==> r@.len() <= out_len,
{
    let key_text = decode_lossy(key);
    let wanted = chars_of("banned_binaries");
    if same_text(&chars_of(key_text.as_str()), &wanted) {
        reply_from_json(strings_to_json(banned), out_len)
    } else {
        Vec::new()
    }
}

} // verus!
