use gwenos::interrupts::{
    breakpoint_handler, double_fault_handler, init, Handler, TableState, TrapTable,
};
use gwenos::serial::{PortWrite, SerialAction, SerialEvent, Transmission};

fn sent(mut t: Transmission) -> String {
    let mut out = Vec::new();
    loop {
        match t.step(SerialEvent::Status(0x20)) {
            SerialAction::WriteData(PortWrite { port, value }) => {
                assert_eq!(port, 0x3F8);
                out.push(value);
            }
            SerialAction::ReadStatus { .. } => panic!("a ready port was asked again"),
            SerialAction::Done => return String::from_utf8(out).unwrap(),
        }
    }
}

#[test]
fn init_binds_breakpoint_and_double_fault_only() {
    let table = init();
    assert_eq!(table.table_state(), TableState::Built);
    for vector in 0..=255u8 {
        let want = match vector {
            3 => Some(Handler::Breakpoint),
            8 => Some(Handler::DoubleFault),
            _ => None,
        };
        assert_eq!(table.handler(vector), want);
    }
}

#[test]
fn a_new_table_is_empty() {
    let table = TrapTable::new();
    assert_eq!(table.table_state(), TableState::Uninitialized);
    for vector in 0..=255u8 {
        assert_eq!(table.handler(vector), None);
    }
}

#[test]
fn handlers_have_their_vector_and_shape() {
    assert_eq!(Handler::Breakpoint.vector(), 3);
    assert_eq!(Handler::DoubleFault.vector(), 8);
    assert!(Handler::Breakpoint.resumes());
    assert!(!Handler::DoubleFault.resumes());
    assert!(!Handler::Breakpoint.takes_error_code());
    assert!(Handler::DoubleFault.takes_error_code());
}

#[test]
fn the_table_goes_from_built_to_installed_once() {
    let mut table = init();
    assert!(table.install());
    assert_eq!(table.table_state(), TableState::Installed);
    assert!(!table.install());
    assert_eq!(table.table_state(), TableState::Installed);
}

#[test]
fn an_empty_table_cannot_be_installed() {
    let mut table = TrapTable::new();
    assert!(!table.install());
    assert_eq!(table.table_state(), TableState::Uninitialized);
}

#[test]
fn an_installed_table_does_not_change() {
    let mut table = TrapTable::new();
    assert!(table.set_handler(Handler::Breakpoint));
    assert_eq!(table.table_state(), TableState::Built);
    assert!(table.install());
    assert!(!table.set_handler(Handler::DoubleFault));
    assert_eq!(table.handler(3), Some(Handler::Breakpoint));
    assert_eq!(table.handler(8), None);
    assert_eq!(table.table_state(), TableState::Installed);
}

#[test]
fn breakpoint_report_is_one_text() {
    let want = "\n\
===========================================\n  \
EXCEPTION: Breakpoint (int3)\n\
===========================================\n\
\n  \
Instruction Pointer: (see QEMU for details)\n\
\n  \
Breakpoint handled, continuing...\n\
===========================================\n\
\n";
    assert_eq!(sent(breakpoint_handler()), want);
}

#[test]
fn double_fault_report_is_one_text() {
    let want = "\n\
!!!!!!!!!!!!!!!!!!!!!!!!!!!!!!!!!!!!!!!!!!\n  \
EXCEPTION: Double Fault!\n  \
This is a critical error.\n\
!!!!!!!!!!!!!!!!!!!!!!!!!!!!!!!!!!!!!!!!!!\n\
\n";
    assert_eq!(sent(double_fault_handler()), want);
}
