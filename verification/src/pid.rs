//! Process identifiers, and how they are written in file names.

use vstd::prelude::*;

verus! {

/// A process, named from the caller's point of view.
#[derive(Clone, Copy, Debug, PartialEq, Eq, Structural)]
pub enum Pid {
    /// The calling process itself.
    Slf,
    /// The process with this id.
    Pid(u32),
}

/// `n` written in base ten, without leading zeros.
pub open spec fn digits(n: nat) -> Seq<u8>
    decreases n,
{
    if n < 10 {
        seq![(0x30 + n) as u8]
    } else {
        digits(n / 10).push((0x30 + n % 10) as u8)
    }
}

/// `self`, the name under which a process finds itself.
pub open spec fn self_name() -> Seq<u8> {
    seq![0x73u8, 0x65u8, 0x6cu8, 0x66u8]
}

impl Pid {
    /// The id that stands for `raw`: zero names no process and stands for
    /// the caller.
    pub open spec fn of(raw: u32) -> Pid {
        if raw == 0 {
            Pid::Slf
        } else {
            Pid::Pid(raw)
        }
    }

    /// The name of this process's directory: `self`, or the id in base ten.
    pub open spec fn spec_name(self) -> Seq<u8> {
        match self {
            Pid::Slf => self_name(),
            Pid::Pid(raw) => digits(raw as nat),
        }
    }

    /// Whether this is the caller's own id.
    pub fn is_self(&self) -> (r: bool)
        ensures
            r == (*self == Pid::Slf),
    {
        match self {
            Pid::Slf => true,
            Pid::Pid(_) => false,
        }
    }

    /// Appends the name of this process's directory to `out`.
    pub fn write_name(&self, out: &mut Vec<u8>)
        ensures
            final(out)@ == old(out)@ + self.spec_name(),
    {
        match self {
            Pid::Slf => {
                out.push(0x73);
                out.push(0x65);
                out.push(0x6c);
                out.push(0x66);
                assert(out@ == old(out)@ + self_name());
            },
            Pid::Pid(raw) => {
                write_digits(*raw, out);
            },
        }
    }

    /// The name of this process's directory.
    pub fn name(&self) -> (r: Vec<u8>)
        ensures
            r@ == self.spec_name(),
    {
        let mut out: Vec<u8> = Vec::new();
        self.write_name(&mut out);
        assert(out@ == self.spec_name());
        out
    }
}

/// Appends `n` in base ten to `out`.
fn write_digits(n: u32, out: &mut Vec<u8>)
    ensures
        final(out)@ == old(out)@ + digits(n as nat),
    decreases n,
{
    if n >= 10 {
        write_digits(n / 10, out);
    }
    let last: u8 = 0x30 + (n % 10) as u8;
    out.push(last);
    assert(out@ == old(out)@ + digits(n as nat));
}

impl From<u32> for Pid {
    fn from(raw: u32) -> (r: Pid) {
        if raw == 0 {
            Pid::Slf
        } else {
            Pid::Pid(raw)
        }
    }
}

impl vstd::std_specs::convert::FromSpecImpl<u32> for Pid {
    open spec fn obeys_from_spec() -> bool {
        true
    }

    open spec fn from_spec(raw: u32) -> Pid {
        Pid::of(raw)
    }
}

} // verus!
