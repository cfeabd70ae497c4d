//! The trap table as a value: which vectors are bound, to which kind of
//! handler, and whether the table is already in use by the processor.

use vstd::prelude::*;
use crate::serial::{Line, Transmission, COM1_PORT};
use crate::text::{fragment_bytes, joined};

verus! {

/// Number of vectors of the trap table.
pub const VECTOR_COUNT: usize = 256;

/// The vector of the breakpoint trap.
pub const BREAKPOINT_VECTOR: u8 = 3;

/// The vector of the double fault.
pub const DOUBLE_FAULT_VECTOR: u8 = 8;

/// The two handlers of this kernel. Each belongs to one vector and has one
/// shape: the breakpoint handler returns to the interrupted code, the
/// double-fault handler takes an error code and never returns.
#[derive(Debug, Clone, Copy, PartialEq, Eq, Structural)]
pub enum Handler {
    Breakpoint,
    DoubleFault,
}

impl Handler {
    /// The vector that the handler serves.
    pub open spec fn spec_vector(self) -> u8 {
        match self {
            Handler::Breakpoint => BREAKPOINT_VECTOR,
            Handler::DoubleFault => DOUBLE_FAULT_VECTOR,
        }
    }

    /// Whether control goes back to the interrupted code.
    pub open spec fn spec_resumes(self) -> bool {
        self == Handler::Breakpoint
    }

    /// The vector that the handler serves.
    #[verifier::when_used_as_spec(spec_vector)]
    pub fn vector(self) -> (v: u8)
        ensures
            v == self.spec_vector(),
    {
        match self {
            Handler::Breakpoint => BREAKPOINT_VECTOR,
            Handler::DoubleFault => DOUBLE_FAULT_VECTOR,
        }
    }

    /// Whether control goes back to the interrupted code.
    #[verifier::when_used_as_spec(spec_resumes)]
    pub fn resumes(self) -> (r: bool)
        ensures
            r == self.spec_resumes(),
    {
        match self {
            Handler::Breakpoint => true,
            Handler::DoubleFault => false,
        }
    }

    /// Whether the processor pushes an error code for the handler.
    pub fn takes_error_code(self) -> (e: bool)
        ensures
            e == !self.spec_resumes(),
    {
        match self {
            Handler::Breakpoint => false,
            Handler::DoubleFault => true,
        }
    }
}

/// How far a trap table has come. `Installed` is final.
#[derive(Debug, Clone, Copy, PartialEq, Eq, Structural)]
pub enum TableState {
    Uninitialized,
    Built,
    Installed,
}

/// A trap table: one entry per vector, empty or bound to a handler.
pub struct TrapTable {
    entries: [Option<Handler>; 256],
    state: TableState,
}

impl TrapTable {
    /// The entries by vector.
    pub closed spec fn entries(&self) -> Seq<Option<Handler>> {
        self.entries@
    }

    /// How far the table has come.
    pub closed spec fn state(&self) -> TableState {
        self.state
    }

    #[verifier::type_invariant]
    closed spec fn entries_in_place(&self) -> bool {
        self.wf()
    }

    /// There are 256 entries, each bound entry holds the handler of its
    /// own vector, and a table with a bound entry is past `Uninitialized`.
    /// This holds of every table.
    pub open spec fn wf(&self) -> bool {
        &&& self.entries().len() == VECTOR_COUNT
        &&& forall|v: int|
            0 <= v < VECTOR_COUNT ==> match #[trigger] self.entries()[v] {
                Some(h) => h.spec_vector() == v && self.state() != TableState::Uninitialized,
                None => true,
            }
    }

    /// A table with every entry empty.
    pub fn new() -> (t: TrapTable)
        ensures
            t.wf(),
            t.state() == TableState::Uninitialized,
            t.entries() == Seq::new(VECTOR_COUNT as nat, |v: int| None::<Handler>),
    {
        let entries: [Option<Handler>; 256] = [None; 256];
        assert(entries@ =~= Seq::new(VECTOR_COUNT as nat, |v: int| None::<Handler>));
        TrapTable { entries, state: TableState::Uninitialized }
    }

    /// Binds a handler to its vector. A table that the processor already
    /// uses is left as it is, and the call says so by returning `false`.
    pub fn set_handler(&mut self, handler: Handler) -> (bound: bool)
        ensures
            final(self).wf(),
            bound == (old(self).state() != TableState::Installed),
            bound ==> final(self).state() == TableState::Built && final(self).entries() == old(
                self,
            ).entries().update(handler.spec_vector() as int, Some(handler)),
            !bound ==> final(self).state() == old(self).state() && final(self).entries() == old(
                self,
            ).entries(),
    {
        proof {
            use_type_invariant(&*self);
        }
        match self.state {
            TableState::Installed => false,
            _ => {
                let v: usize = handler.vector() as usize;
                let mut entries = self.entries;
                entries[v] = Some(handler);
                self.state = TableState::Built;
                self.entries = entries;
                true
            },
        }
    }

    /// Records that the processor was given the table. Only a built table
    /// can be installed; any other is left as it is, and the call returns
    /// `false`.
    pub fn install(&mut self) -> (installed: bool)
        ensures
            final(self).wf(),
            final(self).entries() == old(self).entries(),
            installed == (old(self).state() == TableState::Built),
            final(self).state() == if installed {
                TableState::Installed
            } else {
                old(self).state()
            },
    {
        proof {
            use_type_invariant(&*self);
        }
        match self.state {
            TableState::Built => {
                self.state = TableState::Installed;
                true
            },
            _ => false,
        }
    }

    /// The handler bound to a vector, if any.
    pub fn handler(&self, vector: u8) -> (h: Option<Handler>)
        ensures
            h == self.entries()[vector as int],
            h is Some ==> h->0.spec_vector() == vector,
            self.wf(),
    {
        proof {
            use_type_invariant(self);
        }
        self.entries[vector as usize]
    }

    /// How far the table has come.
    pub fn table_state(&self) -> (s: TableState)
        ensures
            s == self.state(),
    {
        self.state
    }
}

/// The trap table of this kernel, built and ready to be given to the
/// processor: the breakpoint handler at vector 3, the double-fault handler
/// at vector 8, every other vector empty.
pub fn init() -> (t: TrapTable)
    ensures
        t.wf(),
        t.state() == TableState::Built,
        t.entries() == Seq::new(
            VECTOR_COUNT as nat,
            |v: int|
                if v == BREAKPOINT_VECTOR {
                    Some(Handler::Breakpoint)
                } else if v == DOUBLE_FAULT_VECTOR {
                    Some(Handler::DoubleFault)
                } else {
                    None
                },
        ),
{
    let mut idt = TrapTable::new();
    idt.set_handler(Handler::Breakpoint);
    idt.set_handler(Handler::DoubleFault);
    assert(idt.entries() =~= Seq::new(
        VECTOR_COUNT as nat,
        |v: int|
            if v == BREAKPOINT_VECTOR {
                Some(Handler::Breakpoint)
            } else if v == DOUBLE_FAULT_VECTOR {
                Some(Handler::DoubleFault)
            } else {
                None
            },
    ));
    idt
}

/// The lines of the report of a breakpoint, each with its line feed.
pub open spec fn breakpoint_report() -> Seq<&'static str> {
    seq![
        "\n",
        "===========================================\n",
        "  EXCEPTION: Breakpoint (int3)\n",
        "===========================================\n",
        "\n",
        "  Instruction Pointer: ",
        "(see QEMU for details)\n",
        "\n",
        "  Breakpoint handled, continuing...\n",
        "===========================================\n",
        "\n",
    ]
}

/// The lines of the report of a double fault, each with its line feed.
pub open spec fn double_fault_report() -> Seq<&'static str> {
    seq![
        "\n",
        "!!!!!!!!!!!!!!!!!!!!!!!!!!!!!!!!!!!!!!!!!!\n",
        "  EXCEPTION: Double Fault!\n",
        "  This is a critical error.\n",
        "!!!!!!!!!!!!!!!!!!!!!!!!!!!!!!!!!!!!!!!!!!\n",
        "\n",
    ]
}

/// What the breakpoint handler sends before the interrupted code goes on:
/// one report, through the first serial port.
pub fn breakpoint_handler() -> (report: Transmission)
    ensures
        report@ == (Line {
            port: COM1_PORT,
            bytes: joined(fragment_bytes(breakpoint_report())),
            sent: 0,
        }),
{
    let lines: [&'static str; 11] = [
        "\n",
        "===========================================\n",
        "  EXCEPTION: Breakpoint (int3)\n",
        "===========================================\n",
        "\n",
        "  Instruction Pointer: ",
        "(see QEMU for details)\n",
        "\n",
        "  Breakpoint handled, continuing...\n",
        "===========================================\n",
        "\n",
    ];
    assert(lines@ =~= breakpoint_report());
    crate::serial::_print(lines.as_slice())
}

/// What the double-fault handler sends before it halts for good: one
/// report, through the first serial port.
pub fn double_fault_handler() -> (report: Transmission)
    ensures
        report@ == (Line {
            port: COM1_PORT,
            bytes: joined(fragment_bytes(double_fault_report())),
            sent: 0,
        }),
{
    let lines: [&'static str; 6] = [
        "\n",
        "!!!!!!!!!!!!!!!!!!!!!!!!!!!!!!!!!!!!!!!!!!\n",
        "  EXCEPTION: Double Fault!\n",
        "  This is a critical error.\n",
        "!!!!!!!!!!!!!!!!!!!!!!!!!!!!!!!!!!!!!!!!!!\n",
        "\n",
    ];
    assert(lines@ =~= double_fault_report());
    crate::serial::_print(lines.as_slice())
}

} // verus!
