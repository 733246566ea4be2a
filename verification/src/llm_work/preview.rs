//! Short previews of long texts and payloads for logging.

use crate::text::{chars_of, slice_chars, string_of};
use bytes::Bytes;
use vstd::prelude::*;
use vstd::slice::slice_subrange;

verus! {

/// The `bytes::Bytes` buffer, carried as an opaque value.
#[verifier::external_type_specification]
#[verifier::external_body]
pub struct ExBytes(bytes::Bytes);

/// The bytes that a `Bytes` buffer holds.
pub uninterp spec fn bytes_content(b: Bytes) -> Seq<u8>;

/// Calls `Bytes::copy_from_slice`: the buffer holds a copy of `data`.
#[verifier::external_body]
fn bytes_copy_from_slice(data: &[u8]) -> (res: Bytes)
    ensures
        bytes_content(res) == data@,
{
    Bytes::copy_from_slice(data)
}

/// Calls `Bytes::len`: the number of bytes held.
#[verifier::external_body]
fn bytes_len(b: &Bytes) -> (res: usize)
    ensures
        res == bytes_content(*b).len(),
{
    b.len()
}

/// Calls `Bytes::slice(..end)`: the first `end` bytes; it panics beyond the
/// length, which `requires` rules out.
#[verifier::external_body]
fn bytes_slice_to(b: &Bytes, end: usize) -> (res: Bytes)
    requires
        end <= bytes_content(*b).len(),
    ensures
        bytes_content(res) == bytes_content(*b).take(end as int),
{
    b.slice(..end)
}

/// The length of a preview: at most eighty.
pub open spec fn preview_len(n: int) -> int {
    if n < 80 {
        n
    } else {
        80
    }
}

/// Preview of the first 80 bytes.
pub fn preview(file_content: &[u8]) -> (res: Bytes)
    ensures
        bytes_content(res) == file_content@.take(preview_len(file_content@.len() as int)),
{
    let n = if file_content.len() < 80 {
        file_content.len()
    } else {
        80
    };
    let data = slice_subrange(file_content, 0, n);
    assert(data@ =~= file_content@.take(n as int));
    bytes_copy_from_slice(data)
}

/// Preview of the first 80 bytes of a buffer.
pub fn preview_bytes(file_content: &Bytes) -> (res: Bytes)
    ensures
        bytes_content(res) == bytes_content(*file_content).take(
            preview_len(bytes_content(*file_content).len() as int),
        ),
{
    let len = bytes_len(file_content);
    let n = if len < 80 {
        len
    } else {
        80
    };
    bytes_slice_to(file_content, n)
}

/// Preview of the first 80 characters.
pub fn preview_str(content: &str) -> (res: String)
    ensures
        res@ == content@.take(preview_len(content@.len() as int)),
{
    let c = chars_of(content);
    let n = if c.len() < 80 {
        c.len()
    } else {
        80
    };
    let head = slice_chars(c.as_slice(), 0, n);
    assert(c@.subrange(0, n as int) =~= content@.take(n as int));
    string_of(head.as_slice())
}

} // verus!
