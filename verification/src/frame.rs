//! The wire form of an object: a header that names its type and length,
//! a zero byte, and the payload.

use vstd::prelude::*;

verus! {

/// Pack entry type of a commit.
pub const KIND_COMMIT: u8 = 1;

/// Pack entry type of a tree.
pub const KIND_TREE: u8 = 2;

/// Pack entry type of a blob.
pub const KIND_BLOB: u8 = 3;

/// Pack entry type of a tag.
pub const KIND_TAG: u8 = 4;

/// The ASCII name of an object type: `commit`, `tree`, `blob` or `tag` for
/// the types 1 to 4, and none for any other number.
pub open spec fn kind_name(kind: u8) -> Option<Seq<u8>> {
    if kind == 1 {
        Some(seq![0x63u8, 0x6f, 0x6d, 0x6d, 0x69, 0x74])
    } else if kind == 2 {
        Some(seq![0x74u8, 0x72, 0x65, 0x65])
    } else if kind == 3 {
        Some(seq![0x62u8, 0x6c, 0x6f, 0x62])
    } else if kind == 4 {
        Some(seq![0x74u8, 0x61, 0x67])
    } else {
        None
    }
}

/// `n` in ASCII decimal digits, without leading zeros.
pub open spec fn decimal(n: nat) -> Seq<u8>
    decreases n,
{
    if n < 10 {
        seq![(0x30 + n) as u8]
    } else {
        decimal(n / 10).push((0x30 + n % 10) as u8)
    }
}

/// The uncompressed wire form of an object: its type name, a space, the
/// length of the payload in decimal, a zero byte, and the payload.
pub open spec fn wire(kind: u8, payload: Seq<u8>) -> Option<Seq<u8>> {
    match kind_name(kind) {
        Some(name) => Some(name + seq![0x20u8] + decimal(payload.len()) + seq![0u8] + payload),
        None => None,
    }
}

/// Appends `n` in decimal digits to `out`.
fn push_decimal(out: &mut Vec<u8>, n: usize)
    ensures
        final(out)@ == old(out)@ + decimal(n as nat),
    decreases n,
{
    if n >= 10 {
        push_decimal(out, n / 10);
    }
    let digit: u8 = (n % 10) as u8;
    out.push(0x30 + digit);
    assert(out@ =~= old(out)@ + decimal(n as nat));
}

/// Frames `content` as an object of type `kind` in its uncompressed wire
/// form. `None` when `kind` is not one of the four object types.
pub fn wire_form(kind: u8, content: &[u8]) -> (r: Option<Vec<u8>>)
    ensures
        match wire(kind, content@) {
            Some(w) => r matches Some(v) && v@ == w,
            None => r is None,
        },
{
    let mut out: Vec<u8> = Vec::new();
    if kind == KIND_COMMIT {
        out.push(0x63);
        out.push(0x6f);
        out.push(0x6d);
        out.push(0x6d);
        out.push(0x69);
        out.push(0x74);
    } else if kind == KIND_TREE {
        out.push(0x74);
        out.push(0x72);
        out.push(0x65);
        out.push(0x65);
    } else if kind == KIND_BLOB {
        out.push(0x62);
        out.push(0x6c);
        out.push(0x6f);
        out.push(0x62);
    } else if kind == KIND_TAG {
        out.push(0x74);
        out.push(0x61);
        out.push(0x67);
    } else {
        return None;
    }
    assert(out@ =~= kind_name(kind)->0);
    out.push(0x20);
    push_decimal(&mut out, content.len());
    out.push(0);
    out.extend_from_slice(content);
    assert(out@ =~= wire(kind, content@)->0);
    Some(out)
}

} // verus!
