//! The script signature that carries a witness in a legacy spend.

use vstd::prelude::*;

verus! {

/// `elements::script::Builder`: a script under construction.
#[verifier::external_type_specification]
#[verifier::external_body]
pub struct ExBuilder(elements::script::Builder);

/// `elements::script::Script`: a finished script.
#[verifier::external_type_specification]
#[verifier::external_body]
pub struct ExScript(elements::script::Script);

/// The bytes that a script builder holds.
pub uninterp spec fn builder_bytes(b: elements::script::Builder) -> Seq<u8>;

/// The bytes of a script.
pub uninterp spec fn script_bytes(s: elements::script::Script) -> Seq<u8>;

/// The bytes by which a script pushes the number `n`, for `n` below 2^31 in magnitude.
pub uninterp spec fn int_push(n: i64) -> Seq<u8>;

/// The byte of `bytes` at position `i`, and zero behind the last.
pub open spec fn byte_at(bytes: Seq<u8>, i: int) -> int {
    if 0 <= i < bytes.len() {
        bytes[i] as int
    } else {
        0
    }
}

/// The number that a stack element of at most four bytes stands for: the
/// bytes are its magnitude, the lowest first, but for the top bit of the
/// last byte, which is its sign. An element without bytes stands for zero.
pub open spec fn scriptint_value(bytes: Seq<u8>) -> int {
    let raw = byte_at(bytes, 0) + 0x100 * byte_at(bytes, 1) + 0x1_0000 * byte_at(bytes, 2)
        + 0x100_0000 * byte_at(bytes, 3);
    let sign: int = if bytes.len() <= 1 {
        0x80
    } else if bytes.len() == 2 {
        0x8000
    } else if bytes.len() == 3 {
        0x80_0000
    } else {
        0x8000_0000
    };
    if bytes.len() > 0 && bytes.last() >= 0x80 {
        sign - raw
    } else {
        raw
    }
}

/// The number of a stack element of at most four bytes is below 2^31 in magnitude.
pub proof fn lemma_scriptint_small(bytes: Seq<u8>)
    requires
        bytes.len() <= 4,
    ensures
        -0x8000_0000 < scriptint_value(bytes) < 0x8000_0000,
{
}

/// The opcode bytes that announce a push of `len` bytes.
pub open spec fn push_prefix(len: int) -> Seq<u8> {
    if len < 0x4c {
        seq![len as u8]
    } else if len < 0x100 {
        seq![0x4cu8, len as u8]
    } else if len < 0x10000 {
        seq![0x4du8, (len % 0x100) as u8, (len / 0x100) as u8]
    } else {
        seq![
            0x4eu8,
            (len % 0x100) as u8,
            ((len / 0x100) % 0x100) as u8,
            ((len / 0x10000) % 0x100) as u8,
            (len / 0x1000000) as u8,
        ]
    }
}

/// The bytes by which a script pushes `data`.
pub open spec fn slice_push(data: Seq<u8>) -> Seq<u8> {
    push_prefix(data.len() as int) + data
}

/// The bytes by which a script signature pushes one witness element: as a
/// number where the element reads as one, as data otherwise.
pub open spec fn element_push(element: Seq<u8>) -> Seq<u8> {
    if element.len() <= 4 {
        int_push(scriptint_value(element) as i64)
    } else {
        slice_push(element)
    }
}

/// The script signature that pushes the first `n` elements of `witness` in order.
pub open spec fn scriptsig_bytes(witness: Seq<Vec<u8>>, n: int) -> Seq<u8>
    decreases n,
{
    if n <= 0 {
        Seq::empty()
    } else {
        scriptsig_bytes(witness, n - 1) + element_push(witness[n - 1]@)
    }
}

/// A script signature is at least as long as each element that it pushes as data.
pub proof fn lemma_scriptsig_covers(witness: Seq<Vec<u8>>, n: int, i: int)
    requires
        0 <= i < n <= witness.len(),
        witness[i]@.len() > 4,
    ensures
        scriptsig_bytes(witness, n).len() > witness[i]@.len(),
    decreases n,
{
    if i < n - 1 {
        lemma_scriptsig_covers(witness, n - 1, i);
    }
}

/// `elements::script::Builder::new`: a builder that holds no bytes.
#[verifier::external_body]
fn builder_new() -> (b: elements::script::Builder)
    ensures
        builder_bytes(b) == Seq::<u8>::empty(),
{
    elements::script::Builder::new()
}

/// `elements::script::read_scriptint`: succeeds on elements of at most four
/// bytes, and then gives the number that the element stands for: the sum of
/// its bytes, the lowest first, with the top bit of the last byte taken out
/// and read as the sign. Its error says no more than that the element is longer.
#[verifier::external_body]
fn read_scriptint(v: &[u8]) -> (r: Option<i64>)
    ensures
        r is Some <==> v@.len() <= 4,
        r matches Some(n) ==> n == scriptint_value(v@),
{
    elements::script::read_scriptint(v).ok()
}

/// `elements::script::Builder::push_int`: appends the bytes that push `n`.
/// Numbers of 2^31 and more in magnitude are left out: the function brings
/// them into a machine word, so their bytes depend on its width, and the
/// least 64-bit number cannot be negated.
#[verifier::external_body]
fn builder_push_int(b: elements::script::Builder, n: i64) -> (r: elements::script::Builder)
    requires
        -0x8000_0000 < n < 0x8000_0000,
    ensures
        builder_bytes(r) == builder_bytes(b) + int_push(n),
{
    b.push_int(n)
}

/// `elements::script::Builder::push_slice`: appends the push opcode for the
/// length of `data`, then `data`. It panics on four gigabytes and more.
#[verifier::external_body]
fn builder_push_slice(b: elements::script::Builder, data: &[u8]) -> (r: elements::script::Builder)
    requires
        data@.len() < 0x1_0000_0000,
    ensures
        builder_bytes(r) == builder_bytes(b) + slice_push(data@),
{
    b.push_slice(data)
}

/// `elements::script::Builder::into_script`: the script of the bytes that the builder holds.
#[verifier::external_body]
fn builder_into_script(b: elements::script::Builder) -> (s: elements::script::Script)
    ensures
        script_bytes(s) == builder_bytes(b),
{
    b.into_script()
}

/// `elements::script::Script::len`: the number of bytes of the script.
#[verifier::external_body]
pub(crate) fn script_len(s: &elements::script::Script) -> (n: usize)
    ensures
        n == script_bytes(*s).len(),
{
    s.len()
}

/// The script signature that pushes the elements of `witness` in order,
/// each as a number where it reads as one and as data otherwise.
pub fn witness_to_scriptsig(witness: &[Vec<u8>]) -> (s: elements::script::Script)
    requires
        forall|i: int| 0 <= i < witness@.len() ==> (#[trigger] witness@[i])@.len() < 0x1_0000_0000,
    ensures
        script_bytes(s) == scriptsig_bytes(witness@, witness@.len() as int),
{
    let mut b = builder_new();
    let mut i: usize = 0;
    while i < witness.len()
        invariant
            i <= witness@.len(),
            forall|j: int|
                0 <= j < witness@.len() ==> (#[trigger] witness@[j])@.len() < 0x1_0000_0000,
            builder_bytes(b) == scriptsig_bytes(witness@, i as int),
        decreases witness@.len() - i,
    {
        let wit = &witness[i];
        match read_scriptint(wit.as_slice()) {
            Some(n) => {
                proof {
                    lemma_scriptint_small(wit@);
                }
                b = builder_push_int(b, n);
            },
            None => {
                b = builder_push_slice(b, wit.as_slice());
            },
        }
        i += 1;
    }
    builder_into_script(b)
}

} // verus!
