//! Core of a small single-core kernel: a bounded event queue filled from
//! interrupt context, a one-slot wake signal, a cooperative executor that
//! drives suspendable tasks, the keyboard stream that reads the queue, and a
//! text-mode screen writer.
pub mod context;
pub mod event_queue;
pub mod executor;
pub mod interrupts;
pub mod keyboard;
pub mod task;
pub mod vga_buffer;
pub mod wake_signal;
