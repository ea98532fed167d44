use crate::library::commit::{Commit, CommitDate, CommitView};
use std::collections::hash_map::DefaultHasher;
use std::hash::Hasher;
use vstd::bytes::{spec_u32_to_le_bytes, spec_u64_to_le_bytes, u32_to_le_bytes, u64_to_le_bytes};
use vstd::prelude::*;
use vstd::std_specs::hash::DefaultHasherAdditionalSpecFns;

verus! {

/// How far `secs` lies from zero on its side of it, counted from 0 on either
/// side: `secs` itself, or `-1 - secs` where it is negative.
pub open spec fn secs_offset(secs: i64) -> u64 {
    if secs >= 0 {
        secs as u64
    } else {
        (-1 - secs) as u64
    }
}

/// The byte strings that stand for a commit, in the order in which they are
/// hashed: the parent (a mark, then the identifier), the message (its length
/// in bytes, then its text), the branch-origin flag, the root path (length,
/// text), and the date (sign, seconds, nanoseconds).
pub open spec fn commit_bytes(c: CommitView) -> Seq<Seq<u8>> {
    seq![
        seq![if c.parent.is_some() { 1u8 } else { 0u8 }],
        spec_u64_to_le_bytes(if c.parent.is_some() { c.parent.unwrap() } else { 0 }),
        spec_u64_to_le_bytes(vstd::utf8::encode_utf8(c.message).len() as u64),
        vstd::utf8::encode_utf8(c.message),
        seq![if c.is_first_in_branch { 1u8 } else { 0u8 }],
        spec_u64_to_le_bytes(vstd::utf8::encode_utf8(c.root_path).len() as u64),
        vstd::utf8::encode_utf8(c.root_path),
        seq![if c.date.secs >= 0 { 0u8 } else { 1u8 }],
        spec_u64_to_le_bytes(secs_offset(c.date.secs)),
        spec_u32_to_le_bytes(c.date.nanos),
    ]
}

/// The identifier of a commit: the digest of its fields, the date among them,
/// and of nothing else. No file content enters it.
pub open spec fn commit_id(c: CommitView) -> u64 {
    DefaultHasher::spec_finish(commit_bytes(c))
}

/// Feeds one byte to the hasher.
fn write_byte(state: &mut DefaultHasher, byte: u8)
    ensures
        final(state)@ == old(state)@.push(seq![byte]),
{
    let mut bytes: Vec<u8> = Vec::new();
    bytes.push(byte);
    assert(bytes@ =~= seq![byte]);
    state.write(bytes.as_slice());
}

/// Feeds the eight bytes of `value` to the hasher, lowest first.
fn write_u64(state: &mut DefaultHasher, value: u64)
    ensures
        final(state)@ == old(state)@.push(spec_u64_to_le_bytes(value)),
{
    let bytes = u64_to_le_bytes(value);
    state.write(bytes.as_slice());
}

/// Feeds a text to the hasher: its length in bytes, then its bytes.
fn write_str(state: &mut DefaultHasher, text: &str)
    ensures
        final(state)@ == old(state)@.push(
            spec_u64_to_le_bytes(vstd::utf8::encode_utf8(text@).len() as u64),
        ).push(vstd::utf8::encode_utf8(text@)),
{
    let bytes = text.as_bytes();
    write_u64(state, bytes.len() as u64);
    state.write(bytes);
}

/// Feeds a date to the hasher: the sign of the seconds, their offset, and the
/// nanoseconds.
fn write_date(state: &mut DefaultHasher, date: CommitDate)
    ensures
        final(state)@ == old(state)@.push(seq![if date.secs >= 0 { 0u8 } else { 1u8 }]).push(
            spec_u64_to_le_bytes(secs_offset(date.secs)),
        ).push(spec_u32_to_le_bytes(date.nanos)),
{
    if date.secs >= 0 {
        write_byte(state, 0u8);
        write_u64(state, date.secs as u64);
    } else {
        write_byte(state, 1u8);
        write_u64(state, (-1 - date.secs) as u64);
    }
    let bytes = u32_to_le_bytes(date.nanos);
    state.write(bytes.as_slice());
}

/// Calculates the identifier of the given commit.
pub fn calculate_hash(t: &Commit) -> (hash: u64)
    ensures
        hash == commit_id(t@),
{
    let mut s = DefaultHasher::new();
    match t.get_parent_hash() {
        Ok(parent) => {
            write_byte(&mut s, 1u8);
            write_u64(&mut s, parent);
        },
        Err(_) => {
            write_byte(&mut s, 0u8);
            write_u64(&mut s, 0);
        },
    }
    write_str(&mut s, t.get_msg());
    write_byte(&mut s, if t.is_first() { 1u8 } else { 0u8 });
    write_str(&mut s, t.get_root_path());
    write_date(&mut s, t.get_date());
    assert(s@ =~= commit_bytes(t@));
    s.finish()
}

} // verus!
