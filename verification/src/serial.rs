use vstd::prelude::*;

verus! {

pub const COM1_PORT: u16 = 0x3f8;
pub const DATA_REGISTER: u16 = 0x3f8;
pub const INTERRUPT_ENABLE_REGISTER: u16 = 0x3f9;
pub const FIFO_CONTROL_REGISTER: u16 = 0x3fa;
pub const LINE_CONTROL_REGISTER: u16 = 0x3fb;
pub const MODEM_CONTROL_REGISTER: u16 = 0x3fc;
pub const LINE_STATUS_REGISTER: u16 = 0x3fd;
pub const TRANSMIT_HOLDING_REGISTER_EMPTY: u8 = 0x20;

/// The bytes sent to the UART for a text: each line feed is preceded by a carriage return.
pub open spec fn wire_bytes(text: Seq<u8>) -> Seq<u8>
    decreases text.len(),
{
    if text.len() == 0 {
        Seq::empty()
    } else {
        wire_bytes(text.drop_last()) + (if text.last() == 0x0a {
            seq![0x0du8, 0x0au8]
        } else {
            seq![text.last()]
        })
    }
}

/// The bytes sent to the UART for `text`.
pub fn crlf_bytes(text: &[u8]) -> (out: Vec<u8>)
    ensures
        out@ == wire_bytes(text@),
{
    let mut out: Vec<u8> = Vec::new();
    let mut i: usize = 0;
    while i < text.len()
        invariant
            i <= text@.len(),
            out@ == wire_bytes(text@.take(i as int)),
        decreases text.len() - i,
    {
        assert(text@.take(i as int + 1).drop_last() =~= text@.take(i as int));
        let byte = text[i];
        if byte == 0x0a {
            out.push(0x0d);
        }
        out.push(byte);
        i = i + 1;
        assert(out@ =~= wire_bytes(text@.take(i as int)));
    }
    assert(text@.take(text@.len() as int) =~= text@);
    out
}

/// The UART set-up: pairs of register and value, written in order.
pub fn init_sequence() -> (writes: Vec<(u16, u8)>)
    ensures
        writes@ == seq![
            (INTERRUPT_ENABLE_REGISTER, 0x00u8),
            (LINE_CONTROL_REGISTER, 0x80u8),
            (DATA_REGISTER, 0x03u8),
            (INTERRUPT_ENABLE_REGISTER, 0x00u8),
            (LINE_CONTROL_REGISTER, 0x03u8),
            (FIFO_CONTROL_REGISTER, 0xc7u8),
            (MODEM_CONTROL_REGISTER, 0x0bu8),
        ],
{
    let mut writes: Vec<(u16, u8)> = Vec::new();
    writes.push((INTERRUPT_ENABLE_REGISTER, 0x00));
    writes.push((LINE_CONTROL_REGISTER, 0x80));
    writes.push((DATA_REGISTER, 0x03));
    writes.push((INTERRUPT_ENABLE_REGISTER, 0x00));
    writes.push((LINE_CONTROL_REGISTER, 0x03));
    writes.push((FIFO_CONTROL_REGISTER, 0xc7));
    writes.push((MODEM_CONTROL_REGISTER, 0x0b));
    assert(writes@ =~= seq![
        (INTERRUPT_ENABLE_REGISTER, 0x00u8),
        (LINE_CONTROL_REGISTER, 0x80u8),
        (DATA_REGISTER, 0x03u8),
        (INTERRUPT_ENABLE_REGISTER, 0x00u8),
        (LINE_CONTROL_REGISTER, 0x03u8),
        (FIFO_CONTROL_REGISTER, 0xc7u8),
        (MODEM_CONTROL_REGISTER, 0x0bu8),
    ]);
    writes
}

/// Whether the line status says the UART can take another byte.
pub fn transmit_ready(line_status: u8) -> (ready: bool)
    ensures
        ready == (line_status & TRANSMIT_HOLDING_REGISTER_EMPTY != 0),
{
    line_status & TRANSMIT_HOLDING_REGISTER_EMPTY != 0
}

} // verus!
