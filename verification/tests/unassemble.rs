use dbgrs::unassemble::{disassemble, format_instruction_line, present_bytes};

#[test]
fn disassemble_lists_nop_and_ret() {
    // nop; push rbp; sub rsp, 30h; ret
    let code: Vec<u8> = vec![0x90, 0x55, 0x48, 0x83, 0xec, 0x30, 0xc3];
    let listing = disassemble(&code, 0x0000_0001_4000_1000, 16);
    assert_eq!(listing.lines.len(), 4);
    assert_eq!(listing.lines[0], "0000000140001000 90                   nop");
    assert_eq!(listing.lines[1], "0000000140001001 55                   push      rbp");
    assert_eq!(listing.lines[2], "0000000140001002 4883EC30             sub       rsp,30h");
    assert_eq!(listing.lines[3], "0000000140001006 C3                   ret");
    assert_eq!(listing.next_address, 0x0000_0001_4000_1007);
}

#[test]
fn disassemble_stops_after_the_count() {
    let code: Vec<u8> = vec![0x90, 0x90, 0x90, 0x90];
    let listing = disassemble(&code, 0x1000, 2);
    assert_eq!(listing.lines.len(), 2);
    assert_eq!(listing.next_address, 0x1002);
    let rest = disassemble(&code[2..], listing.next_address, 16);
    assert_eq!(rest.lines.len(), 2);
    assert_eq!(rest.next_address, 0x1004);
}

#[test]
fn instruction_line_pads_bytes_to_ten() {
    let line = format_instruction_line(0x10, &[0xab, 0x01], "xyz");
    assert_eq!(line, "0000000000000010 AB01                 xyz");
    let long = format_instruction_line(0x10, &[1, 2, 3, 4, 5, 6, 7, 8, 9, 10, 11], "w");
    assert_eq!(long, "0000000000000010 0102030405060708090A0B w");
}

#[test]
fn present_bytes_drops_gaps() {
    let gaps = vec![Some(1u8), None, Some(2u8), None, None, Some(3u8)];
    assert_eq!(present_bytes(&gaps), vec![1u8, 2, 3]);
}
