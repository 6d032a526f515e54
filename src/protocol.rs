//! What a request to the service can fail with, the decisions taken on a
//! request before the backing store is touched, and the replies it gets.
use vstd::prelude::*;

use crate::ident::{is_slot_id, push_char, spec_is_slot_id};
use crate::query::{
    all_digits, digits_value, form_pairs, offset_digits, spec_offset_of, spec_parse_offset,
    write_offset,
};

verus! {

/// Why a request against a slot fails.
#[derive(Debug, Clone, Copy, PartialEq, Eq, Structural)]
pub enum UploadError {
    /// The `position` parameter is not a non-negative integer.
    MalformedOffset,
    /// No slot is stored under the identifier.
    UnknownSlot,
    /// The backing store could not be created, opened, read or written.
    Storage,
}

/// The reply to a request.
#[derive(Debug, PartialEq, Eq)]
pub enum Reply {
    /// Temporary redirect to the given location.
    Redirect(String),
    /// Success with no body.
    Empty,
    /// Success with a plain-text body.
    Text(String),
    /// The request is malformed.
    BadRequest,
    /// The addressed slot does not exist.
    NotFound,
    /// The backing store failed.
    ServerError,
}

/// The decimal digit for a value below ten.
pub open spec fn digit_char(n: nat) -> char {
    ((n + 48) as u8) as char
}

/// The decimal text of `n`, without leading zeros.
pub open spec fn decimal_text(n: nat) -> Seq<char>
    decreases n,
{
    if n < 10 {
        seq![digit_char(n)]
    } else {
        decimal_text(n / 10).push(digit_char(n % 10))
    }
}

/// The path under which a slot takes its writes.
pub open spec fn upload_path(id: Seq<char>) -> Seq<char> {
    seq!['/', 'u', 'p', 'l', 'o', 'a', 'd', '/'] + id
}

pub open spec fn spec_error_reply(e: UploadError) -> Reply {
    match e {
        UploadError::MalformedOffset => Reply::BadRequest,
        UploadError::UnknownSlot => Reply::NotFound,
        UploadError::Storage => Reply::ServerError,
    }
}

/// Where a segment write to slot `id` with query string `query` starts, or
/// why it is refused before the store is opened.
pub open spec fn spec_upload_target(id: Seq<char>, query: Seq<char>) -> Result<u64, UploadError> {
    if !spec_is_slot_id(id) {
        Err(UploadError::UnknownSlot)
    } else {
        spec_offset_of(form_pairs(query))
    }
}

fn append_decimal(out: &mut String, n: u64)
    ensures
        final(out)@ == old(out)@ + decimal_text(n as nat),
    decreases n,
{
    if n >= 10 {
        append_decimal(out, n / 10);
    }
    push_char(out, ((n % 10) as u8 + 48) as char);
    assert(final(out)@ =~= old(out)@ + decimal_text(n as nat));
}

/// The decimal text of `n`.
pub fn decimal(n: u64) -> (r: String)
    ensures
        r@ == decimal_text(n as nat),
{
    let mut out = String::new();
    append_decimal(&mut out, n);
    assert(out@ =~= decimal_text(n as nat));
    out
}

proof fn lemma_decimal_digits(n: nat)
    ensures
        decimal_text(n).len() > 0,
        decimal_text(n)[0] != '+',
        all_digits(decimal_text(n)),
        digits_value(decimal_text(n)) == n,
    decreases n,
{
    let t = decimal_text(n);
    if n >= 10 {
        lemma_decimal_digits(n / 10);
        let p = decimal_text(n / 10);
        assert(t.drop_last() =~= p);
        assert(t.last() == digit_char(n % 10));
        assert(digits_value(t) == digits_value(p) * 10 + (n % 10));
        assert(t[0] == p[0]);
        assert forall|i: int| 0 <= i < t.len() implies #[trigger] t[i] >= '0' && t[i] <= '9' by {
            if i < p.len() {
                assert(t[i] == p[i]);
            }
        }
    } else {
        assert(t.drop_last() =~= Seq::<char>::empty());
        assert(digits_value(t) == digits_value(t.drop_last()) * 10 + n);
    }
}

/// The size that the service reports for a slot reads back, as a write
/// offset, as that same size: a client can resume at the reported size.
pub proof fn lemma_reported_size_is_offset(n: u64)
    ensures
        spec_parse_offset(decimal_text(n as nat)) == Ok::<u64, UploadError>(n),
{
    lemma_decimal_digits(n as nat);
    assert(offset_digits(decimal_text(n as nat)) == decimal_text(n as nat));
}

/// Decides where a segment write to slot `id` starts, given its raw query
/// string. An identifier that no allocation can have produced names no slot;
/// a malformed `position` is refused; neither opens the store.
pub fn upload_target(id: &str, query: &str) -> (r: Result<u64, UploadError>)
    ensures
        r == spec_upload_target(id@, query@),
{
    if !is_slot_id(id) {
        return Err(UploadError::UnknownSlot);
    }
    write_offset(query)
}

/// Checks the identifier of a size query before the store is looked up.
pub fn size_target(id: &str) -> (r: Result<(), UploadError>)
    ensures
        r is Ok <==> spec_is_slot_id(id@),
        r is Err ==> r == Err::<(), UploadError>(UploadError::UnknownSlot),
{
    if is_slot_id(id) {
        Ok(())
    } else {
        Err(UploadError::UnknownSlot)
    }
}

/// The reply to a failed request: a malformed offset is the client's fault,
/// an unknown slot is not found, a failing store is the server's fault.
pub fn error_reply(e: UploadError) -> (r: Reply)
    ensures
        r == spec_error_reply(e),
{
    match e {
        UploadError::MalformedOffset => Reply::BadRequest,
        UploadError::UnknownSlot => Reply::NotFound,
        UploadError::Storage => Reply::ServerError,
    }
}

/// The reply to an allocation: a redirect to the new slot's upload path.
pub fn allocated_reply(id: &str) -> (r: Reply)
    ensures
        r matches Reply::Redirect(loc) && loc@ == upload_path(id@),
{
    let loc = String::from_str("/upload/");
    proof {
        reveal_strlit("/upload/");
    }
    let loc = loc.concat(id);
    assert(loc@ =~= upload_path(id@));
    Reply::Redirect(loc)
}

/// The reply to a segment write: an empty acknowledgement on success.
pub fn write_reply(outcome: Result<(), UploadError>) -> (r: Reply)
    ensures
        match outcome {
            Ok(()) => r == Reply::Empty,
            Err(e) => r == spec_error_reply(e),
        },
{
    match outcome {
        Ok(()) => Reply::Empty,
        Err(e) => error_reply(e),
    }
}

/// The reply to a size query: the store's length as decimal text.
pub fn size_reply(outcome: Result<u64, UploadError>) -> (r: Reply)
    ensures
        match outcome {
            Ok(n) => r matches Reply::Text(t) && t@ == decimal_text(n as nat),
            Err(e) => r == spec_error_reply(e),
        },
{
    match outcome {
        Ok(n) => Reply::Text(decimal(n)),
        Err(e) => error_reply(e),
    }
}

} // verus!
