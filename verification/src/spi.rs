//! The host's end of one SPI.

use crate::simulator::spi::{after_pop, front, SpiView};
use crate::simulator::AvrSimulator;
use vstd::prelude::*;

verus! {

/// Manages a single SPI.
pub struct Spi<'a> {
    pub sim: &'a mut AvrSimulator,
    pub id: usize,
}

impl<'a> Spi<'a> {
    /// A handle on the SPI at place `id` of `sim`.
    pub fn new(sim: &'a mut AvrSimulator, id: usize) -> (spi: Self)
        ensures
            spi.id == id,
            *spi.sim == *old(sim),
            *final(spi.sim) == *final(sim),
    {
        Self { sim, id }
    }

    /// Transmits a byte to AVR: the byte is queued, and handed over before
    /// the device's next step.
    pub fn send_byte(&mut self, value: u8)
        requires
            old(self).sim@.has_spi(old(self).id as int),
        ensures
            final(self).sim@ == old(self).sim@.with_spi(
                old(self).id as int,
                SpiView {
                    tx: old(self).sim@.spis[old(self).id as int].unwrap().tx.push(value),
                    ..old(self).sim@.spis[old(self).id as int].unwrap()
                },
            ),
            final(self).id == old(self).id,
            *final(final(self).sim) == *final(old(self).sim),
    {
        self.sim.spi_send(self.id, value);
    }

    /// Retrieves a byte from AVR.
    ///
    /// Returns `None` if there are no more bytes in the buffer, in which case
    /// no more bytes will appear at least until the device is stepped again.
    pub fn recv_byte(&mut self) -> (byte: Option<u8>)
        requires
            old(self).sim@.has_spi(old(self).id as int),
        ensures
            byte == front(old(self).sim@.spis[old(self).id as int].unwrap().rx),
            final(self).sim@ == old(self).sim@.with_spi(
                old(self).id as int,
                SpiView {
                    rx: after_pop(old(self).sim@.spis[old(self).id as int].unwrap().rx),
                    ..old(self).sim@.spis[old(self).id as int].unwrap()
                },
            ),
            final(self).id == old(self).id,
            *final(final(self).sim) == *final(old(self).sim),
    {
        self.sim.spi_recv(self.id)
    }
}

} // verus!
