//! The harness's side of the wire to the simulated device.
//!
//! The device itself runs outside this crate. Everything the harness wants
//! from it is written down here, in order, and whoever steps the device
//! delivers it between two steps.

use vstd::prelude::*;

verus! {

/// Index of the signal on which an SPI takes a byte from the host.
pub const SPI_IRQ_INPUT: u32 = 0;

/// Index of the signal on which an SPI announces a byte it has sent.
pub const SPI_IRQ_OUTPUT: u32 = 1;

/// Index of the signal of the first ADC channel; channel `n` is `n` further.
pub const ADC_IRQ_ADC0: u32 = 0;

/// Names the peripheral whose signals are asked for.
#[derive(Clone, Copy, Debug, PartialEq, Eq, Structural)]
pub enum IoCtl {
    AdcGetIrq,
    IoPortGetIrq { port: char },
    SpiGetIrq { spi: char },
}

/// One signal of the device: a peripheral and the index of the signal in it.
#[derive(Clone, Copy, Debug, PartialEq, Eq, Structural)]
pub struct Irq {
    pub ioctl: IoCtl,
    pub index: u32,
}

/// A value put on a signal, bound for the device.
#[derive(Clone, Copy, Debug, PartialEq, Eq, Structural)]
pub struct Raise {
    pub irq: Irq,
    pub value: u32,
}

/// What an [`Avr`] holds.
#[verifier::ext_equal]
pub struct AvrView {
    /// The signals that the configured device offers.
    pub signals: Seq<Irq>,
    /// The signals whose changes the harness asked to be told of, oldest first.
    pub notified: Seq<Irq>,
    /// The values raised and not yet handed to the device, oldest first.
    pub raised: Seq<Raise>,
}

/// The device as the harness sees it between two steps.
pub struct Avr {
    signals: Vec<Irq>,
    notified: Vec<Irq>,
    raised: Vec<Raise>,
}

impl View for Avr {
    type V = AvrView;

    closed spec fn view(&self) -> AvrView {
        AvrView { signals: self.signals@, notified: self.notified@, raised: self.raised@ }
    }
}

impl AvrView {
    /// Whether the device offers signal `index` of `ioctl`.
    pub open spec fn has_irq(self, ioctl: IoCtl, index: u32) -> bool {
        self.signals.contains(Irq { ioctl, index })
    }
}

impl Avr {
    /// A device that offers `signals`, with nothing asked of it yet.
    pub fn new(signals: Vec<Irq>) -> (avr: Self)
        ensures
            avr@.signals == signals@,
            avr@.notified == Seq::<Irq>::empty(),
            avr@.raised == Seq::<Raise>::empty(),
    {
        Avr { signals, notified: Vec::new(), raised: Vec::new() }
    }

    /// Looks a signal up; `None` when the configured device has no such signal.
    pub fn io_getirq(&self, ioctl: IoCtl, index: u32) -> (irq: Option<Irq>)
        ensures
            irq == if self@.has_irq(ioctl, index) {
                Some(Irq { ioctl, index })
            } else {
                None
            },
    {
        let wanted = Irq { ioctl, index };
        let mut i: usize = 0;
        while i < self.signals.len()
            invariant
                i <= self.signals@.len(),
                wanted == (Irq { ioctl, index }),
                forall|j: int| 0 <= j < i ==> self.signals@[j] != wanted,
            decreases self.signals@.len() - i,
        {
            if self.signals[i] == wanted {
                return Some(wanted);
            }
            i += 1;
        }
        None
    }

    /// Asks to be told whenever the device changes `irq`.
    pub fn irq_register_notify(&mut self, irq: Irq)
        ensures
            final(self)@ == (AvrView { notified: old(self)@.notified.push(irq), ..old(self)@ }),
    {
        self.notified.push(irq);
    }

    /// Puts `value` on `irq`, behind everything raised before.
    pub fn raise_irq(&mut self, irq: Irq, value: u32)
        ensures
            final(self)@ == (AvrView {
                raised: old(self)@.raised.push(Raise { irq, value }),
                ..old(self)@
            }),
    {
        self.raised.push(Raise { irq, value });
    }

    /// The signals registered for notification, oldest first.
    pub fn notified(&self) -> (irqs: &Vec<Irq>)
        ensures
            irqs@ == self@.notified,
    {
        &self.notified
    }

    /// Hands over what was raised since the last call, oldest first, and
    /// starts afresh.
    pub fn take_raised(&mut self) -> (raised: Vec<Raise>)
        ensures
            raised@ == old(self)@.raised,
            final(self)@ == (AvrView { raised: Seq::<Raise>::empty(), ..old(self)@ }),
    {
        let mut raised: Vec<Raise> = Vec::new();
        std::mem::swap(&mut self.raised, &mut raised);
        raised
    }
}

} // verus!
