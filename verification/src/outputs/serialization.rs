//! Fixed-width integer encodings with selectable byte order, and the two
//! traits through which every structure of the object file turns into bytes.

use vstd::prelude::*;
use vstd::string::StrSliceExecFns;

verus! {

/// The `width` least significant base-256 digits of `value`, least significant first.
pub open spec fn le_bytes(value: nat, width: nat) -> Seq<u8>
    decreases width,
{
    if width == 0 {
        Seq::empty()
    } else {
        le_bytes(value, (width - 1) as nat).push(digit(value, (width - 1) as nat))
    }
}

/// Base-256 digit number `index` of `value`, counted from the least significant.
pub open spec fn digit(value: nat, index: nat) -> u8
    decreases index,
{
    if index == 0 {
        (value % 256) as u8
    } else {
        digit(value / 256, (index - 1) as nat)
    }
}

/// The `width` least significant base-256 digits of `value`, most significant first.
pub open spec fn be_bytes(value: nat, width: nat) -> Seq<u8> {
    le_bytes(value, width).reverse()
}

/// The encoding of `value` in `width` bytes in the chosen byte order.
pub open spec fn int_bytes(value: nat, width: nat, big_endian: bool) -> Seq<u8> {
    if big_endian {
        be_bytes(value, width)
    } else {
        le_bytes(value, width)
    }
}

/// The `length` bytes of `bytes` from `offset` on.
pub open spec fn range(bytes: Seq<u8>, offset: nat, length: nat) -> Seq<u8> {
    bytes.subrange(offset as int, (offset + length) as int)
}

/// The number that a little-endian digit string stands for.
pub open spec fn le_value(bytes: Seq<u8>) -> nat
    decreases bytes.len(),
{
    if bytes.len() == 0 {
        0
    } else {
        bytes[0] as nat + 256 * le_value(bytes.drop_first())
    }
}

/// The number that a digit string stands for in the chosen byte order.
pub open spec fn int_value(bytes: Seq<u8>, big_endian: bool) -> nat {
    if big_endian {
        le_value(bytes.reverse())
    } else {
        le_value(bytes)
    }
}

/// 256 to the power `width`: the number of values that `width` bytes can tell apart.
pub open spec fn capacity(width: nat) -> nat
    decreases width,
{
    if width == 0 {
        1
    } else {
        256 * capacity((width - 1) as nat)
    }
}

/// An encoding has exactly the requested width, whatever the byte order.
pub proof fn lemma_int_bytes_len(value: nat, width: nat, big_endian: bool)
    ensures
        int_bytes(value, width, big_endian).len() == width,
    decreases width,
{
    if width > 0 {
        lemma_int_bytes_len(value, (width - 1) as nat, false);
    }
}

/// Byte `i` of a little-endian encoding is digit `i` of the value.
pub proof fn lemma_le_bytes_index(value: nat, width: nat, i: int)
    requires
        0 <= i < width,
    ensures
        le_bytes(value, width).len() == width,
        le_bytes(value, width)[i] == digit(value, i as nat),
    decreases width,
{
    lemma_int_bytes_len(value, width, false);
    lemma_int_bytes_len(value, (width - 1) as nat, false);
    if i < width - 1 {
        lemma_le_bytes_index(value, (width - 1) as nat, i);
    }
}

/// Dropping the first byte of a little-endian encoding encodes the value divided by 256.
proof fn lemma_le_bytes_drop_first(value: nat, width: nat)
    requires
        width > 0,
    ensures
        le_bytes(value, width).drop_first() == le_bytes(value / 256, (width - 1) as nat),
        le_bytes(value, width)[0] == (value % 256) as u8,
{
    let a = le_bytes(value, width).drop_first();
    let b = le_bytes(value / 256, (width - 1) as nat);
    lemma_int_bytes_len(value, width, false);
    lemma_int_bytes_len(value / 256, (width - 1) as nat, false);
    assert forall|i: int| 0 <= i < a.len() implies a[i] == b[i] by {
        lemma_le_bytes_index(value, width, i + 1);
        lemma_le_bytes_index(value / 256, (width - 1) as nat, i);
    }
    lemma_le_bytes_index(value, width, 0);
}

/// Decoding an encoding gives the value back, reduced to what the width can hold.
pub proof fn lemma_int_value_of_bytes(value: nat, width: nat, big_endian: bool)
    ensures
        int_value(int_bytes(value, width, big_endian), big_endian) == value % capacity(width),
        capacity(width) > 0,
    decreases width,
{
    let le = le_bytes(value, width);
    assert(le.reverse().reverse() =~= le);
    if width == 0 {
    } else {
        let rest = (width - 1) as nat;
        lemma_le_bytes_drop_first(value, width);
        lemma_int_value_of_bytes(value / 256, rest, false);
        lemma_int_bytes_len(value, width, false);
        let c = capacity(rest);
        assert((value % 256) + 256 * ((value / 256) % c) == value % (256 * c)) by {
            vstd::arithmetic::div_mod::lemma_breakdown(value as int, 256, c as int);
            assert(256 * c == c * 256) by (nonlinear_arith);
        }
    }
}

/// The unsigned 64-bit number with the same bits as `value` in two's complement.
pub open spec fn twos_complement(value: i64) -> nat {
    if value >= 0 {
        value as nat
    } else {
        (value + 0x1_0000_0000_0000_0000) as nat
    }
}

/// Encodes the `width` low bytes of `value` in the chosen byte order.
fn encode(value: u64, width: usize, big_endian: bool) -> (bytes: Vec<u8>)
    ensures
        bytes@ == int_bytes(value as nat, width as nat, big_endian),
{
    let mut little: Vec<u8> = Vec::new();
    let mut rest: u64 = value;
    let mut i: usize = 0;
    while i < width
        invariant
            i <= width,
            little@ == le_bytes(value as nat, i as nat),
            forall|k: nat| digit(rest as nat, k) == digit(value as nat, i as nat + k),
        decreases width - i,
    {
        let ghost before = rest;
        assert(digit(before as nat, 0) == digit(value as nat, i as nat + 0));
        little.push((rest % 256) as u8);
        rest = rest / 256;
        i = i + 1;
        assert forall|k: nat| digit(rest as nat, k) == digit(value as nat, i as nat + k) by {
            assert(digit(before as nat, k + 1) == digit(value as nat, (i - 1) as nat + (k + 1)));
        }
    }
    if !big_endian {
        return little;
    }
    let mut big: Vec<u8> = Vec::new();
    let mut j: usize = width;
    proof {
        lemma_int_bytes_len(value as nat, width as nat, false);
    }
    while j > 0
        invariant
            j <= width,
            little@.len() == width,
            big@.len() == width - j,
            forall|k: int| 0 <= k < big@.len() ==> big@[k] == little@[width - 1 - k],
        decreases j,
    {
        j = j - 1;
        big.push(little[j]);
    }
    big
}

/// A fixed-width integer that knows its byte representation.
pub trait ToBytes {
    /// The bytes that stand for `self` in the chosen byte order.
    spec fn spec_to_bytes(&self, big_endian: bool) -> Seq<u8>;

    /// Produces the byte representation of `self`.
    fn to_bytes(&self, big_endian: bool) -> (bytes: Vec<u8>)
        ensures
            bytes@ == self.spec_to_bytes(big_endian),
    ;
}

impl ToBytes for u8 {
    open spec fn spec_to_bytes(&self, big_endian: bool) -> Seq<u8> {
        int_bytes(*self as nat, 1, big_endian)
    }

    fn to_bytes(&self, big_endian: bool) -> (bytes: Vec<u8>) {
        assert(self.spec_to_bytes(big_endian) == int_bytes(*self as nat, 1, big_endian));
        encode(*self as u64, 1, big_endian)
    }
}

impl ToBytes for u16 {
    open spec fn spec_to_bytes(&self, big_endian: bool) -> Seq<u8> {
        int_bytes(*self as nat, 2, big_endian)
    }

    fn to_bytes(&self, big_endian: bool) -> (bytes: Vec<u8>) {
        assert(self.spec_to_bytes(big_endian) == int_bytes(*self as nat, 2, big_endian));
        encode(*self as u64, 2, big_endian)
    }
}

impl ToBytes for u32 {
    open spec fn spec_to_bytes(&self, big_endian: bool) -> Seq<u8> {
        int_bytes(*self as nat, 4, big_endian)
    }

    fn to_bytes(&self, big_endian: bool) -> (bytes: Vec<u8>) {
        assert(self.spec_to_bytes(big_endian) == int_bytes(*self as nat, 4, big_endian));
        encode(*self as u64, 4, big_endian)
    }
}

impl ToBytes for u64 {
    open spec fn spec_to_bytes(&self, big_endian: bool) -> Seq<u8> {
        int_bytes(*self as nat, 8, big_endian)
    }

    fn to_bytes(&self, big_endian: bool) -> (bytes: Vec<u8>) {
        assert(self.spec_to_bytes(big_endian) == int_bytes(*self as nat, 8, big_endian));
        encode(*self, 8, big_endian)
    }
}

impl ToBytes for i64 {
    open spec fn spec_to_bytes(&self, big_endian: bool) -> Seq<u8> {
        int_bytes(twos_complement(*self), 8, big_endian)
    }

    fn to_bytes(&self, big_endian: bool) -> (bytes: Vec<u8>) {
        let value: i64 = *self;
        let bits: u64 = if value >= 0 {
            value as u64
        } else {
            ((value + 1) + i64::MAX) as u64 + 0x8000_0000_0000_0000
        };
        assert(self.spec_to_bytes(big_endian) == int_bytes(twos_complement(value), 8, big_endian));
        encode(bits, 8, big_endian)
    }
}

/// Appends the byte representation of `val` to `vec`.
pub fn add_bytes<T: ToBytes>(vec: &mut Vec<u8>, val: T, be: bool)
    ensures
        final(vec)@ == old(vec)@ + val.spec_to_bytes(be),
{
    let mut bytes = val.to_bytes(be);
    vec.append(&mut bytes);
}

/// Appends `bytes` to `vec` as they are.
pub fn add_raw(vec: &mut Vec<u8>, bytes: &[u8])
    ensures
        final(vec)@ == old(vec)@ + bytes@,
{
    let mut i: usize = 0;
    while i < bytes.len()
        invariant
            i <= bytes@.len(),
            vec@ == old(vec)@ + bytes@.take(i as int),
        decreases bytes@.len() - i,
    {
        vec.push(bytes[i]);
        i = i + 1;
    }
}

/// A structure with an exact binary encoding.
pub trait Serializable {
    /// The bytes that encode `self`, integers in the chosen byte order.
    spec fn spec_serialize(&self, big_endian: bool) -> Seq<u8>;

    /// The byte order changes the bytes of an encoding, never their number.
    proof fn lemma_length_ignores_byte_order(&self)
        ensures
            self.spec_serialize(true).len() == self.spec_serialize(false).len(),
    ;

    /// Encodes `self`.
    fn serialize(&self, big_endian: bool) -> (bytes: Vec<u8>)
        ensures
            bytes@ == self.spec_serialize(big_endian),
    ;

    /// The number of bytes that `serialize` produces, in either byte order.
    fn serialized_length(&self) -> (len: usize)
        ensures
            len == self.spec_serialize(true).len(),
            len == self.spec_serialize(false).len(),
    {
        proof {
            self.lemma_length_ignores_byte_order();
        }
        self.serialize(true).len()
    }
}

/// The bytes of a null-terminated text: its UTF-8 encoding and one zero byte.
pub open spec fn c_string_bytes(text: Seq<char>) -> Seq<u8> {
    vstd::utf8::encode_utf8(text).push(0u8)
}

impl Serializable for String {
    open spec fn spec_serialize(&self, big_endian: bool) -> Seq<u8> {
        c_string_bytes(self@)
    }

    proof fn lemma_length_ignores_byte_order(&self) {
    }

    fn serialize(&self, big_endian: bool) -> (bytes: Vec<u8>) {
        let mut vec = self.as_str().as_bytes_vec();
        vec.push(0x00);
        vec
    }

    fn serialized_length(&self) -> (len: usize) {
        let text_length = self.as_str().as_bytes().len();
        if text_length < usize::MAX {
            text_length + 1
        } else {
            // No text is this long; the branch keeps the addition above total.
            self.serialize(true).len()
        }
    }
}

/// The encodings of `items`, one after the other.
pub open spec fn concat_serialized<T: Serializable>(items: Seq<T>, big_endian: bool) -> Seq<u8>
    decreases items.len(),
{
    if items.len() == 0 {
        Seq::empty()
    } else {
        concat_serialized(items.drop_last(), big_endian) + items.last().spec_serialize(big_endian)
    }
}

/// The length of a run of encodings does not depend on the byte order either.
pub proof fn lemma_concat_length_ignores_byte_order<T: Serializable>(items: Seq<T>)
    ensures
        concat_serialized(items, true).len() == concat_serialized(items, false).len(),
    decreases items.len(),
{
    if items.len() > 0 {
        lemma_concat_length_ignores_byte_order(items.drop_last());
        items.last().lemma_length_ignores_byte_order();
    }
}

/// Encoding a run of items that ends in `item` encodes the run before it, then `item`.
pub proof fn lemma_concat_serialized_push<T: Serializable>(items: Seq<T>, item: T, big_endian: bool)
    ensures
        concat_serialized(items.push(item), big_endian) == concat_serialized(items, big_endian)
            + item.spec_serialize(big_endian),
{
    assert(items.push(item).drop_last() =~= items);
}

/// A run of items that all encode to `size` bytes encodes to `size` bytes for each item.
pub proof fn lemma_concat_of_equal_sizes<T: Serializable>(
    items: Seq<T>,
    size: nat,
    big_endian: bool,
)
    requires
        forall|i: int|
            0 <= i < items.len() ==> (#[trigger] items[i]).spec_serialize(big_endian).len() == size,
    ensures
        concat_serialized(items, big_endian).len() == size * items.len(),
    decreases items.len(),
{
    if items.len() > 0 {
        let before = items.drop_last();
        assert forall|i: int| 0 <= i < before.len() implies (#[trigger] before[i]).spec_serialize(
            big_endian,
        ).len() == size by {}
        lemma_concat_of_equal_sizes(before, size, big_endian);
        assert(size * items.len() == size * before.len() + size) by (nonlinear_arith)
            requires
                items.len() == before.len() + 1,
        ;
    } else {
        assert(size * items.len() == 0) by (nonlinear_arith)
            requires
                items.len() == 0,
        ;
    }
}

/// In a run of items that all encode to `size` bytes, item `index` is encoded
/// at `size * index`.
pub proof fn lemma_concat_item_at<T: Serializable>(
    items: Seq<T>,
    size: nat,
    index: int,
    big_endian: bool,
)
    requires
        forall|i: int|
            0 <= i < items.len() ==> (#[trigger] items[i]).spec_serialize(big_endian).len() == size,
        0 <= index < items.len(),
    ensures
        size * index + size <= concat_serialized(items, big_endian).len(),
        range(concat_serialized(items, big_endian), (size * index) as nat, size)
            == items[index].spec_serialize(big_endian),
    decreases items.len(),
{
    let before = items.drop_last();
    assert forall|i: int| 0 <= i < before.len() implies (#[trigger] before[i]).spec_serialize(
        big_endian,
    ).len() == size by {}
    lemma_concat_of_equal_sizes(before, size, big_endian);
    lemma_concat_of_equal_sizes(items, size, big_endian);
    if index < items.len() - 1 {
        lemma_concat_item_at(before, size, index, big_endian);
        assert(size * index + size <= size * before.len()) by (nonlinear_arith)
            requires
                index + 1 <= before.len(),
                0 <= index,
        ;
    }
}

impl<T: Serializable> Serializable for Vec<T> {
    open spec fn spec_serialize(&self, big_endian: bool) -> Seq<u8> {
        concat_serialized(self@, big_endian)
    }

    proof fn lemma_length_ignores_byte_order(&self) {
        lemma_concat_length_ignores_byte_order(self@);
    }

    fn serialize(&self, big_endian: bool) -> (bytes: Vec<u8>) {
        let mut bytes: Vec<u8> = Vec::new();
        let mut i: usize = 0;
        while i < self.len()
            invariant
                i <= self@.len(),
                bytes@ == concat_serialized(self@.take(i as int), big_endian),
            decreases self.len() - i,
        {
            let mut item = self[i].serialize(big_endian);
            bytes.append(&mut item);
            proof {
                assert(self@.take(i + 1) =~= self@.take(i as int).push(self@[i as int]));
                lemma_concat_serialized_push(self@.take(i as int), self@[i as int], big_endian);
            }
            i = i + 1;
        }
        assert(self@.take(i as int) =~= self@);
        assert(self.spec_serialize(big_endian) == concat_serialized(self@, big_endian));
        bytes
    }
}

} // verus!
