//! Listing the instructions at an address.

use vstd::prelude::*;
use vstd::slice::slice_subrange;
use crate::memory;
use crate::memory::MemorySource;
use crate::text;

verus! {

/// The length in bytes of the instruction that the 64-bit decoder of
/// `iced_x86` reads at the start of `code`, decoded for the address `ip`.
pub uninterp spec fn instruction_length(code: Seq<u8>, ip: u64) -> nat;

/// The text that the MASM formatter of `iced_x86`, with operands from
/// column 10 on, gives for the instruction at the start of `code`.
pub uninterp spec fn instruction_text(code: Seq<u8>, ip: u64) -> Seq<char>;

/// `Decoder::with_ip`, `Decoder::decode` and `Instruction::len` of
/// `iced_x86`, and its `MasmFormatter` (`new`, the option
/// `set_first_operand_char_index`, `format`): decodes one instruction of
/// 64-bit code at the start of `code`, as if it stood at address `ip`,
/// and formats it in MASM syntax. Length and text depend on `code` and
/// `ip` alone. The decoder never reads past the end of `code`; bytes
/// that are no instruction decode as an invalid instruction, which has a
/// length and a text like any other.
#[verifier::external_body]
fn decode_instruction(code: &[u8], ip: u64) -> (r: (usize, String))
    ensures
        r.0 == instruction_length(code@, ip),
        r.0 <= code@.len(),
        r.1@ == instruction_text(code@, ip),
{
    let mut decoder = iced_x86::Decoder::with_ip(64, code, ip, iced_x86::DecoderOptions::NONE);
    let instruction = decoder.decode();
    let mut formatter = iced_x86::MasmFormatter::new();
    iced_x86::Formatter::options_mut(&mut formatter).set_first_operand_char_index(10);
    let mut text = String::new();
    iced_x86::Formatter::format(&mut formatter, &instruction, &mut text);
    (instruction.len(), text)
}

/// The bytes that were read, without the gaps.
pub open spec fn present(gaps: Seq<Option<u8>>) -> Seq<u8>
    decreases gaps.len(),
{
    if gaps.len() == 0 {
        Seq::empty()
    } else {
        match gaps.last() {
            Some(b) => present(gaps.drop_last()).push(b),
            None => present(gaps.drop_last()),
        }
    }
}

/// Each byte in two capital hexadecimal digits.
pub open spec fn hex_bytes(bytes: Seq<u8>) -> Seq<char>
    decreases bytes.len(),
{
    if bytes.len() == 0 {
        Seq::empty()
    } else {
        hex_bytes(bytes.drop_last()) + text::pad_left(
            text::hex_digits(bytes.last() as nat, true),
            2,
            '0',
        )
    }
}

/// The blanks that fill the column of instruction bytes up to ten bytes.
pub open spec fn byte_column_fill(count: nat) -> Seq<char> {
    if count < 10 {
        Seq::new(2 * (10 - count) as nat, |i: int| ' ')
    } else {
        Seq::empty()
    }
}

/// One line of a listing: the address in sixteen hexadecimal digits, the
/// bytes of the instruction in a column ten bytes wide, and its text.
pub open spec fn instruction_line(ip: u64, bytes: Seq<u8>, instruction: Seq<char>) -> Seq<char> {
    text::pad_left(text::hex_digits(ip as nat, true), 16, '0') + seq![' '] + hex_bytes(bytes)
        + byte_column_fill(bytes.len()) + seq![' '] + instruction
}

/// A listing: its lines, and the offset in the code at which it ends.
pub struct Listing {
    pub lines: Seq<Seq<char>>,
    pub end: int,
}

/// The listing of at most `count` instructions of `code` from offset
/// `pos` on, where `code` stands at address `va`. It ends with the code,
/// and after an instruction of length zero.
pub open spec fn listing_from(code: Seq<u8>, va: u64, pos: int, count: nat) -> Listing
    decreases count,
{
    if count == 0 || pos < 0 || pos >= code.len() {
        Listing { lines: Seq::empty(), end: pos }
    } else {
        let rest = code.subrange(pos, code.len() as int);
        let ip = va.wrapping_add(pos as u64);
        let n = instruction_length(rest, ip);
        let line = instruction_line(ip, rest.take(n as int), instruction_text(rest, ip));
        if n == 0 {
            Listing { lines: seq![line], end: pos }
        } else {
            let tail = listing_from(code, va, pos + n, (count - 1) as nat);
            Listing { lines: seq![line] + tail.lines, end: tail.end }
        }
    }
}

/// Drops the gaps from what was read.
pub fn present_bytes(gaps: &Vec<Option<u8>>) -> (bytes: Vec<u8>)
    ensures
        bytes@ == present(gaps@),
{
    let mut bytes: Vec<u8> = Vec::new();
    let mut i: usize = 0;
    while i < gaps.len()
        invariant
            i <= gaps.len(),
            bytes@ == present(gaps@.take(i as int)),
        decreases gaps.len() - i,
    {
        proof {
            assert(gaps@.take(i + 1).drop_last() =~= gaps@.take(i as int));
        }
        if let Some(b) = gaps[i] {
            bytes.push(b);
        }
        i = i + 1;
    }
    proof {
        assert(gaps@.take(i as int) =~= gaps@);
    }
    bytes
}

/// Formats one line of a listing.
pub fn format_instruction_line(ip: u64, bytes: &[u8], instruction: &str) -> (line: String)
    ensures
        line@ == instruction_line(ip, bytes@, instruction@),
{
    let mut line = String::new();
    text::push_hex(&mut line, ip, 16, true);
    text::push_char(&mut line, ' ');
    let ghost head = line@;
    let mut i: usize = 0;
    while i < bytes.len()
        invariant
            i <= bytes.len(),
            line@ == head + hex_bytes(bytes@.take(i as int)),
        decreases bytes.len() - i,
    {
        proof {
            assert(bytes@.take(i + 1).drop_last() =~= bytes@.take(i as int));
        }
        text::push_hex(&mut line, bytes[i] as u64, 2, true);
        proof {
            assert(line@ =~= head + hex_bytes(bytes@.take(i + 1)));
        }
        i = i + 1;
    }
    proof {
        assert(bytes@.take(i as int) =~= bytes@);
    }
    let ghost mid = line@;
    if bytes.len() < 10 {
        let fill: usize = 2 * (10 - bytes.len());
        let mut k: usize = 0;
        while k < fill
            invariant
                k <= fill,
                fill == 2 * (10 - bytes.len()),
                bytes.len() < 10,
                line@ == mid + byte_column_fill(bytes@.len()).take(k as int),
            decreases fill - k,
        {
            text::push_char(&mut line, ' ');
            proof {
                assert(line@ =~= mid + byte_column_fill(bytes@.len()).take(k + 1));
            }
            k = k + 1;
        }
        proof {
            assert(byte_column_fill(bytes@.len()).take(fill as int) =~= byte_column_fill(
                bytes@.len(),
            ));
        }
    } else {
        proof {
            assert(line@ =~= mid + byte_column_fill(bytes@.len()));
        }
    }
    text::push_char(&mut line, ' ');
    text::push_str(&mut line, instruction);
    proof {
        assert(line@ =~= instruction_line(ip, bytes@, instruction@));
    }
    line
}

/// What a listing shows: its lines, and the address after its last instruction.
#[derive(Debug, PartialEq, Eq)]
pub struct Disassembly {
    pub lines: Vec<String>,
    pub next_address: u64,
}

/// Lists at most `lines` instructions of `code`, which stands at address `va`.
pub fn disassemble(code: &[u8], va: u64, lines: usize) -> (r: Disassembly)
    ensures
        text::views(r.lines@) == listing_from(code@, va, 0, lines as nat).lines,
        r.next_address == va.wrapping_add(listing_from(code@, va, 0, lines as nat).end as u64),
        0 <= listing_from(code@, va, 0, lines as nat).end <= code@.len(),
{
    let mut out: Vec<String> = Vec::new();
    let mut pos: usize = 0;
    let mut instruction_count: usize = 0;
    let ghost whole = listing_from(code@, va, 0, lines as nat);
    while pos < code.len() && instruction_count < lines
        invariant
            pos <= code.len(),
            instruction_count <= lines,
            whole == listing_from(code@, va, 0, lines as nat),
            whole.lines == text::views(out@) + listing_from(
                code@,
                va,
                pos as int,
                (lines - instruction_count) as nat,
            ).lines,
            whole.end == listing_from(
                code@,
                va,
                pos as int,
                (lines - instruction_count) as nat,
            ).end,
        decreases lines - instruction_count,
    {
        let rest = slice_subrange(code, pos, code.len());
        let ip = va.wrapping_add(pos as u64);
        let (len, instruction) = decode_instruction(rest, ip);
        let instr_bytes = slice_subrange(rest, 0, len);
        let line = format_instruction_line(ip, instr_bytes, instruction.as_str());
        let ghost before = out@;
        let ghost tail = listing_from(
            code@,
            va,
            pos + len,
            (lines - instruction_count - 1) as nat,
        );
        proof {
            text::lemma_views_push(before, line);
            assert(rest@.subrange(0, len as int) =~= rest@.take(len as int));
        }
        out.push(line);
        if len == 0 {
            proof {
                assert(text::views(out@) =~= text::views(before) + seq![line@]);
                assert(whole.lines =~= text::views(out@));
            }
            return Disassembly { lines: out, next_address: va.wrapping_add(pos as u64) };
        }
        proof {
            assert(text::views(before) + (seq![line@] + tail.lines) =~= text::views(out@)
                + tail.lines);
        }
        pos = pos + len;
        instruction_count = instruction_count + 1;
    }
    proof {
        assert(text::views(out@) + Seq::<Seq<char>>::empty() =~= text::views(out@));
    }
    Disassembly { lines: out, next_address: va.wrapping_add(pos as u64) }
}

/// The number of bytes read for a listing: one page.
pub const LISTING_WINDOW: usize = 0x1000;

/// Lists at most `lines` instructions at address `va` of the target. One
/// page is read; bytes that cannot be read are left out, and what was
/// read is decoded as one run of code that starts at `va`.
pub fn unassemble<M: MemorySource + ?Sized>(memory_source: &M, va: u64, lines: usize) -> (r:
    Disassembly)
    ensures
        text::views(r.lines@) == listing_from(
            present(memory::gaps_at(memory_source.view(), va as int, LISTING_WINDOW as nat)),
            va,
            0,
            lines as nat,
        ).lines,
        r.next_address == va.wrapping_add(
            listing_from(
                present(memory::gaps_at(memory_source.view(), va as int, LISTING_WINDOW as nat)),
                va,
                0,
                lines as nat,
            ).end as u64,
        ),
{
    let gaps = memory_source.read_memory(va, LISTING_WINDOW);
    let bytes_read = present_bytes(&gaps);
    disassemble(bytes_read.as_slice(), va, lines)
}

} // verus!
