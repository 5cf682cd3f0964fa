//! Reading the target's address space.
//!
//! A [`MemorySource`] is one view of the target's memory while the target
//! is stopped: a partial map from addresses to bytes. The readers below
//! decode little-endian values, arrays and NUL-terminated strings from it.

use vstd::prelude::*;
use crate::error::DebugError;
use crate::text;

verus! {

/// The bytes of a target that can be read, by address.
pub type MemoryView = Map<u64, u8>;

/// Whether the byte at `addr` can be read.
pub open spec fn readable(mem: Map<u64, u8>, addr: int) -> bool {
    0 <= addr <= u64::MAX && mem.contains_key(addr as u64)
}

/// Whether all of `addr .. addr + len` can be read.
pub open spec fn range_readable(mem: Map<u64, u8>, addr: int, len: int) -> bool {
    forall|a: int| addr <= a < addr + len ==> #[trigger] readable(mem, a)
}

/// The `len` bytes from `addr` on.
pub open spec fn bytes_at(mem: Map<u64, u8>, addr: int, len: nat) -> Seq<u8> {
    Seq::new(len, |i: int| mem[(addr + i) as u64])
}

/// One entry per byte of `addr .. addr + len`: the byte, or nothing where
/// the target cannot be read.
pub open spec fn gaps_at(mem: Map<u64, u8>, addr: int, len: nat) -> Seq<Option<u8>> {
    Seq::new(
        len,
        |i: int|
            if readable(mem, addr + i) {
                Some(mem[(addr + i) as u64])
            } else {
                None
            },
    )
}

/// How many bytes from `addr` on can be read before the first gap, at most `len`.
pub open spec fn readable_prefix_len(mem: Map<u64, u8>, addr: int, len: nat) -> nat
    decreases len,
{
    if len == 0 || !readable(mem, addr) {
        0
    } else {
        1 + readable_prefix_len(mem, addr + 1, (len - 1) as nat)
    }
}

/// The readable prefix is readable, no longer than asked, and stops at a gap.
pub proof fn lemma_readable_prefix(mem: Map<u64, u8>, addr: int, len: nat)
    ensures
        readable_prefix_len(mem, addr, len) <= len,
        range_readable(mem, addr, readable_prefix_len(mem, addr, len) as int),
        readable_prefix_len(mem, addr, len) < len ==> !readable(
            mem,
            addr + readable_prefix_len(mem, addr, len),
        ),
        range_readable(mem, addr, len as int) <==> readable_prefix_len(mem, addr, len) == len,
    decreases len,
{
    if len == 0 || !readable(mem, addr) {
    } else {
        lemma_readable_prefix(mem, addr + 1, (len - 1) as nat);
    }
}

/// Any count of readable bytes that stops at a gap or at `len` is the readable prefix.
pub proof fn lemma_readable_prefix_unique(mem: Map<u64, u8>, addr: int, len: nat, n: nat)
    requires
        n <= len,
        range_readable(mem, addr, n as int),
        n < len ==> !readable(mem, addr + n),
    ensures
        readable_prefix_len(mem, addr, len) == n,
    decreases len,
{
    if len == 0 {
    } else if !readable(mem, addr) {
    } else {
        lemma_readable_prefix_unique(mem, addr + 1, (len - 1) as nat, (n - 1) as nat);
    }
}

/// The target's memory as the debugger can read it.
///
/// `view` is the memory that the two readers answer from. It exists for
/// specification only and is never called: a source that is written
/// outside verified code declares it with a body that does not return.
pub trait MemorySource {
    /// The bytes that can be read, by address.
    spec fn view(&self) -> MemoryView;

    /// Reads `len` bytes from `address` on and reports each byte that the
    /// target gave, with a gap for each byte it refused.
    fn read_memory(&self, address: u64, len: usize) -> (data: Vec<Option<u8>>)
        ensures
            data@ == gaps_at(self.view(), address as int, len as nat),
    ;

    /// Reads up to `len` bytes from `address` on and stops at the first
    /// byte that the target refuses.
    fn read_raw_memory(&self, address: u64, len: usize) -> (bytes: Vec<u8>)
        ensures
            bytes@ == bytes_at(
                self.view(),
                address as int,
                readable_prefix_len(self.view(), address as int, len as nat),
            ),
    ;
}

/// A value with a fixed little-endian layout in target memory.
pub trait Pod: Sized {
    /// The number of bytes of one value.
    spec fn size() -> nat;

    /// The value that `size()` bytes stand for.
    spec fn decode(bytes: Seq<u8>) -> Self;

    /// A value has at least one byte, and no more than a page.
    proof fn lemma_size()
        ensures
            0 < Self::size() <= 4096,
    ;

    /// The number of bytes of one value.
    fn byte_size() -> (n: usize)
        ensures
            n == Self::size(),
    ;

    /// The value stored at `bytes[offset..]`.
    fn from_bytes(bytes: &Vec<u8>, offset: usize) -> (v: Self)
        requires
            offset + Self::size() <= bytes.len(),
        ensures
            v == Self::decode(bytes@.subrange(offset as int, offset + Self::size())),
    ;
}

/// The 16-bit value that two bytes stand for, lowest byte first.
pub open spec fn le_u16(b: Seq<u8>) -> u16 {
    (b[0] as int + 256 * (b[1] as int)) as u16
}

/// The 32-bit value that four bytes stand for, lowest byte first.
pub open spec fn le_u32(b: Seq<u8>) -> u32 {
    (b[0] as int + 256 * (b[1] as int) + 65536 * (b[2] as int) + 16777216 * (b[3] as int)) as u32
}

/// The 64-bit value that eight bytes stand for, lowest byte first.
pub open spec fn le_u64(b: Seq<u8>) -> u64 {
    (le_u32(b.subrange(0, 4)) as int + 4294967296 * (le_u32(b.subrange(4, 8)) as int)) as u64
}

/// The 16-bit value stored at `bytes[offset..]`.
pub fn u16_at(bytes: &Vec<u8>, offset: usize) -> (v: u16)
    requires
        offset + 2 <= bytes.len(),
    ensures
        v == le_u16(bytes@.subrange(offset as int, offset + 2)),
{
    bytes[offset] as u16 + 256 * (bytes[offset + 1] as u16)
}

/// The 32-bit value stored at `bytes[offset..]`.
pub fn u32_at(bytes: &Vec<u8>, offset: usize) -> (v: u32)
    requires
        offset + 4 <= bytes.len(),
    ensures
        v == le_u32(bytes@.subrange(offset as int, offset + 4)),
{
    bytes[offset] as u32 + 256 * (bytes[offset + 1] as u32) + 65536 * (bytes[offset + 2] as u32)
        + 16777216 * (bytes[offset + 3] as u32)
}

/// The 64-bit value stored at `bytes[offset..]`.
pub fn u64_at(bytes: &Vec<u8>, offset: usize) -> (v: u64)
    requires
        offset + 8 <= bytes.len(),
    ensures
        v == le_u64(bytes@.subrange(offset as int, offset + 8)),
{
    let lo = u32_at(bytes, offset);
    let hi = u32_at(bytes, offset + 4);
    proof {
        let b = bytes@.subrange(offset as int, offset + 8);
        assert(b.subrange(0, 4) =~= bytes@.subrange(offset as int, offset + 4));
        assert(b.subrange(4, 8) =~= bytes@.subrange(offset + 4, offset + 8));
    }
    lo as u64 + 4294967296 * (hi as u64)
}

impl Pod for u8 {
    open spec fn size() -> nat {
        1
    }

    open spec fn decode(bytes: Seq<u8>) -> u8 {
        bytes[0]
    }

    proof fn lemma_size() {
    }

    fn byte_size() -> (n: usize) {
        1
    }

    fn from_bytes(bytes: &Vec<u8>, offset: usize) -> (v: u8) {
        bytes[offset]
    }
}

impl Pod for u16 {
    open spec fn size() -> nat {
        2
    }

    open spec fn decode(bytes: Seq<u8>) -> u16 {
        le_u16(bytes)
    }

    proof fn lemma_size() {
    }

    fn byte_size() -> (n: usize) {
        2
    }

    fn from_bytes(bytes: &Vec<u8>, offset: usize) -> (v: u16) {
        u16_at(bytes, offset)
    }
}

impl Pod for u32 {
    open spec fn size() -> nat {
        4
    }

    open spec fn decode(bytes: Seq<u8>) -> u32 {
        le_u32(bytes)
    }

    proof fn lemma_size() {
    }

    fn byte_size() -> (n: usize) {
        4
    }

    fn from_bytes(bytes: &Vec<u8>, offset: usize) -> (v: u32) {
        u32_at(bytes, offset)
    }
}

impl Pod for u64 {
    open spec fn size() -> nat {
        8
    }

    open spec fn decode(bytes: Seq<u8>) -> u64 {
        le_u64(bytes)
    }

    proof fn lemma_size() {
    }

    fn byte_size() -> (n: usize) {
        8
    }

    fn from_bytes(bytes: &Vec<u8>, offset: usize) -> (v: u64) {
        u64_at(bytes, offset)
    }
}

/// The `count` values of type `T` stored from `addr` on.
pub open spec fn array_at<T: Pod>(mem: Map<u64, u8>, addr: int, count: nat) -> Seq<T> {
    Seq::new(count, |i: int| T::decode(bytes_at(mem, addr + i * T::size(), T::size())))
}

/// What a read of up to `max_count` values from `addr` gives: the values
/// that lie wholly before the first gap.
pub open spec fn array_up_to<T: Pod>(mem: Map<u64, u8>, addr: int, max_count: nat) -> Seq<T> {
    array_at::<T>(mem, addr, readable_prefix_len(mem, addr, max_count * T::size()) / T::size())
}

/// Reads up to `max_count` values from `address` on; the result is shorter
/// where the target cannot be read that far.
pub fn read_memory_array<T: Pod, M: MemorySource + ?Sized>(
    source: &M,
    address: u64,
    max_count: usize,
) -> (r: Result<Vec<T>, DebugError>)
    ensures
        match r {
            Ok(v) => max_count * T::size() <= usize::MAX && v@ == array_up_to::<T>(
                source.view(),
                address as int,
                max_count as nat,
            ),
            Err(e) => max_count * T::size() > usize::MAX && e == DebugError::ReadTooLarge,
        },
{
    let element_size = T::byte_size();
    proof {
        T::lemma_size();
    }
    let max_bytes = match max_count.checked_mul(element_size) {
        Some(n) => n,
        None => { return Err(DebugError::ReadTooLarge); },
    };
    let raw_bytes = source.read_raw_memory(address, max_bytes);
    let ghost mem = source.view();
    let ghost n = readable_prefix_len(mem, address as int, max_bytes as nat);
    proof {
        lemma_readable_prefix(mem, address as int, max_bytes as nat);
    }
    let mut data: Vec<T> = Vec::new();
    let mut offset: usize = 0;
    let count = raw_bytes.len() / element_size;
    let mut i: usize = 0;
    proof {
        assert(count * element_size <= raw_bytes.len()) by (nonlinear_arith)
            requires
                count == raw_bytes.len() / element_size,
                element_size > 0,
        ;
    }
    while i < count
        invariant
            i <= count,
            offset == i * element_size,
            count * element_size <= raw_bytes.len(),
            element_size == T::size(),
            element_size > 0,
            raw_bytes@ == bytes_at(mem, address as int, n),
            data@ == array_at::<T>(mem, address as int, i as nat),
        decreases count - i,
    {
        proof {
            assert((i + 1) * element_size <= count * element_size) by (nonlinear_arith)
                requires
                    i < count,
                    element_size > 0,
            ;
            assert((i + 1) * element_size == i * element_size + element_size)
                by (nonlinear_arith);
            assert(raw_bytes@.subrange(offset as int, offset + element_size) =~= bytes_at(
                mem,
                address + i * T::size(),
                T::size(),
            ));
        }
        let item = T::from_bytes(&raw_bytes, offset);
        data.push(item);
        proof {
            assert(data@ =~= array_at::<T>(mem, address as int, (i + 1) as nat));
        }
        offset = offset + element_size;
        i = i + 1;
    }
    Ok(data)
}

/// What a read of exactly `count` values gives: all of them, or an error
/// where the target cannot be read over the whole range.
pub open spec fn full_array_at<T: Pod>(mem: Map<u64, u8>, addr: int, count: nat) -> Result<
    Seq<T>,
    DebugError,
> {
    if count * T::size() > usize::MAX {
        Err(DebugError::ReadTooLarge)
    } else if range_readable(mem, addr, (count * T::size()) as int) {
        Ok(array_at::<T>(mem, addr, count))
    } else {
        Err(DebugError::ReadFailed)
    }
}

/// Reads exactly `count` values from `address` on.
pub fn read_memory_full_array<T: Pod, M: MemorySource + ?Sized>(
    source: &M,
    address: u64,
    count: usize,
) -> (r: Result<Vec<T>, DebugError>)
    ensures
        match full_array_at::<T>(source.view(), address as int, count as nat) {
            Ok(s) => r is Ok && r->Ok_0@ == s,
            Err(e) => r == Err::<Vec<T>, DebugError>(e),
        },
{
    let ghost mem = source.view();
    let ghost sz = T::size() as int;
    let ghost total = count as int * sz;
    proof {
        T::lemma_size();
        assert(count * T::size() == total);
        assert(count as nat * T::size() == total);
    }
    let arr = match read_memory_array::<T, M>(source, address, count) {
        Ok(arr) => arr,
        Err(e) => { return Err(e); },
    };
    proof {
        let n = readable_prefix_len(mem, address as int, total as nat) as int;
        lemma_readable_prefix(mem, address as int, total as nat);
        let c = count as int;
        if n == total {
            assert((c * sz) / sz == c) by (nonlinear_arith)
                requires
                    sz > 0,
            ;
        } else {
            assert(n / sz < c) by (nonlinear_arith)
                requires
                    0 <= n < c * sz,
                    sz > 0,
            ;
        }
    }
    if arr.len() != count {
        Err(DebugError::ReadFailed)
    } else {
        Ok(arr)
    }
}

/// What a read of one value gives.
pub open spec fn data_at<T: Pod>(mem: Map<u64, u8>, addr: int) -> Result<T, DebugError> {
    if range_readable(mem, addr, T::size() as int) {
        Ok(T::decode(bytes_at(mem, addr, T::size())))
    } else {
        Err(DebugError::ReadFailed)
    }
}

/// Reads one value at `address`.
pub fn read_memory_data<T: Pod + Copy, M: MemorySource + ?Sized>(source: &M, address: u64) -> (r:
    Result<T, DebugError>)
    ensures
        r == data_at::<T>(source.view(), address as int),
{
    proof {
        T::lemma_size();
        assert(1nat * T::size() == T::size()) by (nonlinear_arith);
        assert(address + 0 * T::size() == address as int) by (nonlinear_arith);
    }
    match read_memory_full_array::<T, M>(source, address, 1) {
        Ok(data) => {
            Ok(data[0])
        },
        Err(e) => Err(e),
    }
}

/// The index of the first `stop` in `s` at or after `from`, or the length of `s`.
pub open spec fn stop_index<T>(s: Seq<T>, stop: T, from: int) -> int
    decreases s.len() - from,
{
    if from < 0 || from >= s.len() {
        s.len() as int
    } else if s[from] == stop {
        from
    } else {
        stop_index(s, stop, from + 1)
    }
}

/// The part of `s` before its first `stop`.
pub open spec fn until_stop<T>(s: Seq<T>, stop: T) -> Seq<T> {
    s.take(stop_index(s, stop, 0))
}

/// Each byte read as the character of the same number; for bytes below
/// 128 that is ASCII.
pub open spec fn narrow_chars(bytes: Seq<u8>) -> Seq<char> {
    Seq::new(bytes.len(), |i: int| bytes[i] as char)
}

/// Whether `unit` is one half of a surrogate pair.
pub open spec fn is_surrogate(unit: u16) -> bool {
    0xd800 <= unit <= 0xdfff
}

/// Whether `first` and `second` make a surrogate pair: a high half
/// followed by a low half.
pub open spec fn is_pair(first: u16, second: u16) -> bool {
    0xd800 <= first <= 0xdbff && 0xdc00 <= second <= 0xdfff
}

/// The character that a surrogate pair stands for.
pub open spec fn pair_char(first: u16, second: u16) -> char {
    (0x1_0000 + (first - 0xd800) * 0x400 + (second - 0xdc00)) as char
}

/// The text that 16-bit units stand for in UTF-16. A unit that is no
/// surrogate is a character; a surrogate pair is one character; a
/// surrogate without its other half becomes U+FFFD.
pub open spec fn utf16_lossy(units: Seq<u16>) -> Seq<char>
    decreases units.len(),
{
    if units.len() == 0 {
        Seq::empty()
    } else if !is_surrogate(units[0]) {
        seq![units[0] as char] + utf16_lossy(units.skip(1))
    } else if units.len() >= 2 && is_pair(units[0], units[1]) {
        seq![pair_char(units[0], units[1])] + utf16_lossy(units.skip(2))
    } else {
        seq!['\u{fffd}'] + utf16_lossy(units.skip(1))
    }
}

/// `char::from_u32` of the standard library: the character with the
/// number `v`, if `v` is the number of a character, that is, at most
/// 0x10FFFF and no surrogate.
#[verifier::external_body]
fn char_from_u32(v: u32) -> (r: Option<char>)
    ensures
        r == (if v <= 0xd7ff || (0xe000 <= v && v <= 0x10_ffff) {
            Some(v as char)
        } else {
            None
        }),
{
    char::from_u32(v)
}

/// Decodes UTF-16, with U+FFFD in place of each unpaired surrogate.
fn decode_utf16_lossy(units: &Vec<u16>) -> (s: String)
    ensures
        s@ == utf16_lossy(units@),
{
    let mut s = String::new();
    let mut i: usize = 0;
    proof {
        assert(units@.skip(0) =~= units@);
    }
    while i < units.len()
        invariant
            i <= units.len(),
            utf16_lossy(units@) == s@ + utf16_lossy(units@.skip(i as int)),
        decreases units.len() - i,
    {
        let unit = units[i];
        let ghost rest = units@.skip(i as int);
        let ghost before = s@;
        let number: u32;
        let used: usize;
        if unit < 0xd800 || unit > 0xdfff {
            number = unit as u32;
            used = 1;
        } else if unit <= 0xdbff && i + 1 < units.len() && units[i + 1] >= 0xdc00 && units[i + 1]
            <= 0xdfff {
            number = 0x1_0000 + (unit as u32 - 0xd800) * 0x400 + (units[i + 1] as u32 - 0xdc00);
            used = 2;
        } else {
            number = 0xfffd;
            used = 1;
        }
        let c = match char_from_u32(number) {
            Some(c) => c,
            None => '\u{fffd}',
        };
        text::push_char(&mut s, c);
        proof {
            assert(rest[0] == unit);
            if used == 2 {
                assert(rest[1] == units@[i + 1]);
            }
            assert(rest.skip(used as int) =~= units@.skip(i + used));
            assert(utf16_lossy(rest) == seq![c] + utf16_lossy(rest.skip(used as int)));
            assert(before + (seq![c] + utf16_lossy(rest.skip(used as int))) =~= s@ + utf16_lossy(
                units@.skip(i + used),
            ));
        }
        i = i + used;
    }
    proof {
        assert(units@.skip(i as int) =~= Seq::<u16>::empty());
        assert(s@ + Seq::<char>::empty() =~= s@);
    }
    s
}

/// The string stored at `addr`: at most `max_count` characters' worth of
/// memory, cut at the first NUL and at the first gap.
pub open spec fn string_at(mem: Map<u64, u8>, addr: int, max_count: nat, wide: bool) -> Seq<char> {
    if wide {
        utf16_lossy(until_stop(array_up_to::<u16>(mem, addr, max_count), 0u16))
    } else {
        narrow_chars(until_stop(array_up_to::<u8>(mem, addr, max_count), 0u8))
    }
}

/// The bytes of `items` before its first zero, as characters.
fn narrow_string(items: &Vec<u8>) -> (s: String)
    ensures
        s@ == narrow_chars(until_stop(items@, 0u8)),
{
    let mut s = String::new();
    let mut i: usize = 0;
    while i < items.len() && items[i] != 0
        invariant
            i <= items.len(),
            stop_index(items@, 0u8, 0) == stop_index(items@, 0u8, i as int),
            s@ == narrow_chars(items@.take(i as int)),
        decreases items.len() - i,
    {
        text::push_char(&mut s, items[i] as char);
        proof {
            assert(s@ =~= narrow_chars(items@.take(i + 1)));
        }
        i = i + 1;
    }
    s
}

/// The units of `items` before its first zero.
fn wide_prefix(items: &Vec<u16>) -> (r: Vec<u16>)
    ensures
        r@ == until_stop(items@, 0u16),
{
    let mut r: Vec<u16> = Vec::new();
    let mut i: usize = 0;
    while i < items.len() && items[i] != 0
        invariant
            i <= items.len(),
            stop_index(items@, 0u16, 0) == stop_index(items@, 0u16, i as int),
            r@ == items@.take(i as int),
        decreases items.len() - i,
    {
        r.push(items[i]);
        proof {
            assert(r@ =~= items@.take(i + 1));
        }
        i = i + 1;
    }
    r
}

/// Reads a NUL-terminated string of at most `max_count` characters at
/// `address`: bytes when `is_wide` is false, 16-bit units when it is true.
/// A string that runs into unreadable memory ends there.
pub fn read_memory_string<M: MemorySource + ?Sized>(
    source: &M,
    address: u64,
    max_count: usize,
    is_wide: bool,
) -> (r: Result<String, DebugError>)
    ensures
        match r {
            Ok(s) => !(is_wide && max_count * 2 > usize::MAX) && s@ == string_at(
                source.view(),
                address as int,
                max_count as nat,
                is_wide,
            ),
            Err(e) => is_wide && max_count * 2 > usize::MAX && e == DebugError::ReadTooLarge,
        },
{
    if is_wide {
        match read_memory_array::<u16, M>(source, address, max_count) {
            Ok(words) => {
                let cut = wide_prefix(&words);
                Ok(decode_utf16_lossy(&cut))
            },
            Err(e) => Err(e),
        }
    } else {
        match read_memory_array::<u8, M>(source, address, max_count) {
            Ok(bytes) => Ok(narrow_string(&bytes)),
            Err(e) => Err(e),
        }
    }
}

/// What a read through a pointer gives: the string at the address stored at `addr`.
pub open spec fn string_indirect_at(mem: Map<u64, u8>, addr: int, max_count: nat, wide: bool)
    -> Result<Seq<char>, DebugError> {
    match data_at::<u64>(mem, addr) {
        Err(e) => Err(e),
        Ok(p) => if wide && max_count * 2 > usize::MAX {
            Err(DebugError::ReadTooLarge)
        } else {
            Ok(string_at(mem, p as int, max_count, wide))
        },
    }
}

/// Reads the 64-bit address stored at `address` and then the string it points to.
pub fn read_memory_string_indirect<M: MemorySource + ?Sized>(
    source: &M,
    address: u64,
    max_count: usize,
    is_wide: bool,
) -> (r: Result<String, DebugError>)
    ensures
        match string_indirect_at(source.view(), address as int, max_count as nat, is_wide) {
            Ok(s) => r is Ok && r->Ok_0@ == s,
            Err(e) => r == Err::<String, DebugError>(e),
        },
{
    match read_memory_data::<u64, M>(source, address) {
        Ok(string_address) => read_memory_string(source, string_address, max_count, is_wide),
        Err(e) => Err(e),
    }
}

} // verus!
