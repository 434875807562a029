use vstd::prelude::*;

verus! {

pub const OUTPUT_SERIAL: u8 = 1;
pub const OUTPUT_FRAMEBUFFER: u8 = 2;

/// Counters of the boot console.
#[derive(Copy, Clone, PartialEq, Eq, Structural, Debug)]
pub struct TtyStats {
    pub console_id: u32,
    pub output_count: u8,
    pub bytes_written: u64,
    pub lines_written: u64,
}

/// What starting the boot console set up.
#[derive(Copy, Clone, PartialEq, Eq, Structural, Debug)]
pub struct TtyBootstrap {
    pub console_id: u32,
    pub output_count: u8,
    pub framebuffer_output: bool,
}

/// Where a write to the boot console goes.
#[derive(Copy, Clone, PartialEq, Eq, Structural, Debug)]
pub struct TtyRoute {
    pub serial: bool,
    pub framebuffer: bool,
}

/// The boot console: which outputs it writes to and how much it wrote.
pub struct TtyConsole {
    pub initialized: bool,
    pub console_id: u32,
    pub outputs: u8,
    pub bytes_written: u64,
    pub lines_written: u64,
}

/// How many of the serial and framebuffer outputs a set of outputs holds.
pub open spec fn spec_output_count(outputs: u8) -> u8 {
    ((if outputs & OUTPUT_SERIAL != 0 { 1int } else { 0int }) + (if outputs & OUTPUT_FRAMEBUFFER != 0 {
        1int
    } else {
        0int
    })) as u8
}

pub fn output_count(outputs: u8) -> (n: u8)
    ensures
        n == spec_output_count(outputs),
{
    let serial: u8 = if outputs & OUTPUT_SERIAL != 0 { 1 } else { 0 };
    let framebuffer: u8 = if outputs & OUTPUT_FRAMEBUFFER != 0 { 1 } else { 0 };
    serial + framebuffer
}

/// The number of line feeds in a text.
pub open spec fn count_newlines(text: Seq<u8>) -> nat
    decreases text.len(),
{
    if text.len() == 0 {
        0
    } else {
        count_newlines(text.drop_last()) + (if text.last() == 0x0a { 1nat } else { 0nat })
    }
}

fn newline_count(text: &[u8]) -> (n: u64)
    ensures
        n == (if count_newlines(text@) > u64::MAX { u64::MAX as int } else { count_newlines(text@) as int }),
{
    let mut n: u64 = 0;
    let mut i: usize = 0;
    while i < text.len()
        invariant
            i <= text@.len(),
            n == (if count_newlines(text@.take(i as int)) > u64::MAX {
                u64::MAX as int
            } else {
                count_newlines(text@.take(i as int)) as int
            }),
        decreases text.len() - i,
    {
        assert(text@.take(i as int + 1).drop_last() =~= text@.take(i as int));
        if text[i] == 0x0a {
            n = n.saturating_add(1);
        }
        i = i + 1;
    }
    assert(text@.take(text@.len() as int) =~= text@);
    n
}

/// The outputs a console writes to: serial only until it is initialized.
pub open spec fn active_outputs(c: TtyConsole) -> u8 {
    if c.initialized { c.outputs } else { OUTPUT_SERIAL }
}

impl TtyConsole {
    pub fn new() -> (c: Self)
        ensures
            !c.initialized,
            c.console_id == 0,
            c.outputs == OUTPUT_SERIAL,
            c.bytes_written == 0,
            c.lines_written == 0,
    {
        TtyConsole { initialized: false, console_id: 0, outputs: OUTPUT_SERIAL, bytes_written: 0, lines_written: 0 }
    }

    /// Starts console 0 on the serial port, and on the framebuffer when it is available.
    pub fn initialize(&mut self, framebuffer_output: bool) -> (b: TtyBootstrap)
        ensures
            final(self).initialized,
            final(self).console_id == 0,
            final(self).outputs == (if framebuffer_output { OUTPUT_SERIAL | OUTPUT_FRAMEBUFFER } else { OUTPUT_SERIAL }),
            final(self).bytes_written == old(self).bytes_written,
            final(self).lines_written == old(self).lines_written,
            b == (TtyBootstrap {
                console_id: 0,
                output_count: if framebuffer_output { 2u8 } else { 1u8 },
                framebuffer_output,
            }),
    {
        self.initialized = true;
        self.console_id = 0;
        self.outputs = OUTPUT_SERIAL;
        if framebuffer_output {
            self.outputs = self.outputs | OUTPUT_FRAMEBUFFER;
        }
        let count = output_count(self.outputs);
        assert(OUTPUT_SERIAL | OUTPUT_FRAMEBUFFER == 3u8) by (bit_vector);
        assert(3u8 & 1u8 != 0 && 3u8 & 2u8 != 0 && 1u8 & 1u8 != 0 && 1u8 & 2u8 == 0) by (bit_vector);
        TtyBootstrap { console_id: self.console_id, output_count: count, framebuffer_output }
    }

    /// Accounts for a write of `text` and says which outputs it goes to.
    pub fn write_style(&mut self, text: &[u8]) -> (route: TtyRoute)
        ensures
            route.serial == (active_outputs(*old(self)) & OUTPUT_SERIAL != 0),
            route.framebuffer == (active_outputs(*old(self)) & OUTPUT_FRAMEBUFFER != 0),
            final(self).initialized == old(self).initialized,
            final(self).console_id == old(self).console_id,
            final(self).outputs == old(self).outputs,
            final(self).bytes_written == (if old(self).bytes_written + text@.len() > u64::MAX {
                u64::MAX as int
            } else {
                old(self).bytes_written + text@.len()
            }),
            final(self).lines_written == (if old(self).lines_written + count_newlines(text@) > u64::MAX {
                u64::MAX as int
            } else {
                old(self).lines_written + count_newlines(text@)
            }),
    {
        let outputs = if self.initialized { self.outputs } else { OUTPUT_SERIAL };
        let route = TtyRoute {
            serial: outputs & OUTPUT_SERIAL != 0,
            framebuffer: outputs & OUTPUT_FRAMEBUFFER != 0,
        };
        self.bytes_written = self.bytes_written.saturating_add(text.len() as u64);
        let lines = newline_count(text);
        self.lines_written = self.lines_written.saturating_add(lines);
        route
    }

    /// The counters of the console.
    pub fn stats(&self) -> (s: TtyStats)
        ensures
            s == (TtyStats {
                console_id: self.console_id,
                output_count: spec_output_count(active_outputs(*self)),
                bytes_written: self.bytes_written,
                lines_written: self.lines_written,
            }),
    {
        let outputs = if self.initialized { self.outputs } else { OUTPUT_SERIAL };
        TtyStats {
            console_id: self.console_id,
            output_count: output_count(outputs),
            bytes_written: self.bytes_written,
            lines_written: self.lines_written,
        }
    }
}

} // verus!
