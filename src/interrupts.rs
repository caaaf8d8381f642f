//! Interrupt dispatch: the vector table layout, the mask arithmetic of the
//! chained 8259 interrupt controllers, and what the keyboard handler does
//! between reading the scancode and acknowledging the interrupt.
use vstd::prelude::*;

use crate::event_queue::pushed;
use crate::executor::{woken, Executor};
use crate::task::Computation;

verus! {

/// First vector of the primary interrupt controller.
pub const PIC1_OFFSET: u8 = 32;

/// First vector of the secondary interrupt controller.
pub const PIC2_OFFSET: u8 = PIC1_OFFSET + 8;

pub const TIMER_INTERRUPT_ID: u8 = PIC1_OFFSET;

pub const KEYBOARD_INTERRUPT_ID: u8 = PIC1_OFFSET + 1;

pub const BREAKPOINT_VECTOR: u8 = 3;

pub const DOUBLE_FAULT_VECTOR: u8 = 8;

/// Interrupt stack table slot that the double fault handler runs on.
pub const DOUBLE_FAULT_IST_INDEX: u16 = 0;

/// Data port of the primary controller.
pub const PIC1_DATA_PORT: u16 = 0x21;

/// Data port of the secondary controller.
pub const PIC2_DATA_PORT: u16 = 0xa1;

/// Which handler a vector is bound to.
#[derive(Clone, Copy, Debug, PartialEq, Eq, Structural)]
pub enum Handler {
    Breakpoint,
    DoubleFault,
    Timer,
    Keyboard,
}

/// One entry of the interrupt descriptor table.
#[derive(Clone, Copy, Debug, PartialEq, Eq, Structural)]
pub struct IdtEntry {
    pub vector: u8,
    pub handler: Handler,
    /// Interrupt stack table slot to switch to, if any.
    pub stack_index: Option<u16>,
}

/// The vectors the kernel installs handlers on: breakpoint, double fault on
/// its own stack, and the keyboard line of the primary controller. The timer
/// line is left without a handler.
pub open spec fn idt_layout() -> Seq<IdtEntry> {
    seq![
        IdtEntry { vector: BREAKPOINT_VECTOR, handler: Handler::Breakpoint, stack_index: None },
        IdtEntry {
            vector: DOUBLE_FAULT_VECTOR,
            handler: Handler::DoubleFault,
            stack_index: Some(DOUBLE_FAULT_IST_INDEX),
        },
        IdtEntry { vector: KEYBOARD_INTERRUPT_ID, handler: Handler::Keyboard, stack_index: None },
    ]
}

/// Builds the table of handler bindings that the loader installs.
pub fn init_idt() -> (table: Vec<IdtEntry>)
    ensures
        table@ == idt_layout(),
{
    let table = vec![
        IdtEntry { vector: BREAKPOINT_VECTOR, handler: Handler::Breakpoint, stack_index: None },
        IdtEntry {
            vector: DOUBLE_FAULT_VECTOR,
            handler: Handler::DoubleFault,
            stack_index: Some(DOUBLE_FAULT_IST_INDEX),
        },
        IdtEntry { vector: KEYBOARD_INTERRUPT_ID, handler: Handler::Keyboard, stack_index: None },
    ];
    assert(table@ =~= idt_layout());
    table
}

/// Line of `irq` on its own controller.
pub open spec fn irq_line(irq: u8) -> u8 {
    if irq < 8 {
        irq
    } else {
        (irq - 8) as u8
    }
}

/// Data port of the controller that serves `irq` (0 to 15).
pub fn pic_data_port(irq: u8) -> (port: u16)
    requires
        irq < 16,
    ensures
        port == if irq < 8 {
            PIC1_DATA_PORT
        } else {
            PIC2_DATA_PORT
        },
{
    if irq < 8 {
        PIC1_DATA_PORT
    } else {
        PIC2_DATA_PORT
    }
}

/// New mask register value that masks `irq`, given the current value.
pub fn irq_set_mask(irq: u8, mask: u8) -> (r: u8)
    requires
        irq < 16,
    ensures
        r == mask | (1u8 << irq_line(irq)),
{
    let line: u8 = if irq < 8 {
        irq
    } else {
        irq - 8
    };
    mask | (1u8 << line)
}

/// New mask register value that unmasks `irq`, given the current value.
pub fn irq_clear_mask(irq: u8, mask: u8) -> (r: u8)
    requires
        irq < 16,
    ensures
        r == mask & !(1u8 << irq_line(irq)),
{
    let line: u8 = if irq < 8 {
        irq
    } else {
        irq - 8
    };
    mask & !(1u8 << line)
}

/// Keyboard handler work once the scancode has been read: queue it, fire
/// the wake signal, and name the vector to acknowledge. Constant work, no
/// allocation.
pub fn keyboard_interrupt<C: Computation>(executor: &mut Executor<C>, scancode: u8) -> (ack: u8)
    requires
        old(executor).wf(),
    ensures
        ack == KEYBOARD_INTERRUPT_ID,
        final(executor).wf(),
        final(executor).events() == pushed(
            old(executor).events(),
            old(executor).event_capacity(),
            scancode,
        ),
        final(executor).event_capacity() == old(executor).event_capacity(),
        final(executor).registered() is None,
        final(executor).ready_queue() == woken(
            old(executor).ready_queue(),
            old(executor).live(),
            old(executor).registered(),
        ),
        final(executor).live() == old(executor).live(),
        final(executor).next_id() == old(executor).next_id(),
        final(executor).polled() == old(executor).polled(),
{
    executor.push_event(scancode);
    executor.wake();
    KEYBOARD_INTERRUPT_ID
}

} // verus!
