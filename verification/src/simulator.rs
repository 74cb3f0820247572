//! The host's picture of the simulated device: its pins as last reported,
//! the exchange buffers of its SPIs, and the wire to the device itself.

pub mod avr;
pub mod spi;

use avr::{Avr, AvrView, IoCtl, Irq, Raise, ADC_IRQ_ADC0, SPI_IRQ_INPUT, SPI_IRQ_OUTPUT};
use spi::{Spi, SpiView};
use vstd::prelude::*;

verus! {

/// Pins per port.
pub const PORT_WIDTH: u8 = 8;

/// Digital pins that the simulator keeps track of: ports `'A'` to `'L'`,
/// eight pins each.
pub const PIN_COUNT: usize = 96;

/// Where pin `pin` of port `port` stands in the table of pin levels; `None`
/// when there is no such pin.
pub open spec fn pin_index(port: char, pin: u8) -> Option<int> {
    if 'A' <= port <= 'L' && pin < PORT_WIDTH {
        Some((port as u32 - 'A' as u32) * PORT_WIDTH + pin)
    } else {
        None
    }
}

/// A digital pin that is known to exist.
#[derive(Clone, Copy, Debug)]
pub struct PinId {
    port: char,
    pin: u8,
}

impl PinId {
    #[verifier::type_invariant]
    spec fn on_a_port(self) -> bool {
        pin_index(self.port, self.pin) is Some
    }

    /// The port's letter.
    pub closed spec fn spec_port(self) -> char {
        self.port
    }

    /// The pin's number within its port.
    pub closed spec fn spec_pin(self) -> u8 {
        self.pin
    }

    /// The place of this pin in the table of pin levels.
    pub open spec fn index(self) -> int {
        pin_index(self.port(), self.pin()).unwrap()
    }

    /// Pin `pin` of port `port`, if there is one.
    pub fn new(port: char, pin: u8) -> (id: Option<Self>)
        ensures
            id is Some <==> pin_index(port, pin) is Some,
            id is Some ==> id.unwrap().port() == port && id.unwrap().pin() == pin,
    {
        if 'A' <= port && port <= 'L' && pin < PORT_WIDTH {
            Some(Self { port, pin })
        } else {
            None
        }
    }

    /// The port's letter.
    #[verifier::when_used_as_spec(spec_port)]
    pub fn port(self) -> (port: char)
        ensures
            port == self.port(),
            pin_index(self.port(), self.pin()) is Some,
    {
        proof {
            use_type_invariant(self);
        }
        self.port
    }

    /// The pin's number within its port.
    #[verifier::when_used_as_spec(spec_pin)]
    pub fn pin(self) -> (pin: u8)
        ensures
            pin == self.pin(),
            pin_index(self.port(), self.pin()) is Some,
    {
        proof {
            use_type_invariant(self);
        }
        self.pin
    }

    fn position(self) -> (index: usize)
        ensures
            index == self.index(),
            index < PIN_COUNT,
    {
        proof {
            use_type_invariant(self);
        }
        (self.port as u32 - 'A' as u32) as usize * PORT_WIDTH as usize + self.pin as usize
    }
}

/// What an [`AvrSimulator`] holds.
#[verifier::ext_equal]
pub struct AvrSimulatorView {
    /// The wire to the device.
    pub avr: AvrView,
    /// The exchange buffers of SPI `'0'` and SPI `'1'`, where the device has
    /// them.
    pub spis: Seq<Option<SpiView>>,
    /// The level of each digital pin (`true` is high), by [`pin_index`].
    pub pins: Seq<bool>,
}

/// The name of the SPI whose buffers stand at place `id`.
pub open spec fn spi_name(id: int) -> char {
    if id == 0 {
        '0'
    } else {
        '1'
    }
}

/// The place at which the buffers of the SPI called `name` stand; `None`
/// for a name that no SPI has.
pub open spec fn spi_place(name: char) -> Option<int> {
    if name == '0' {
        Some(0)
    } else if name == '1' {
        Some(1)
    } else {
        None
    }
}

impl AvrSimulatorView {
    /// Whether the device has an SPI at place `id`.
    pub open spec fn has_spi(self, id: int) -> bool {
        0 <= id < self.spis.len() && self.spis[id] is Some
    }

    /// Every SPI that is there carries its own name, can be reached on the
    /// device, and holds no more received bytes than its bound allows.
    pub open spec fn wf(self) -> bool {
        &&& self.spis.len() == 2
        &&& self.pins.len() == PIN_COUNT
        &&& forall|id: int|
            #![trigger self.spis[id]]
            self.has_spi(id) ==> {
                &&& self.spis[id].unwrap().id == spi_name(id)
                &&& self.spis[id].unwrap().bounded()
                &&& self.avr.has_irq(IoCtl::SpiGetIrq { spi: spi_name(id) }, SPI_IRQ_INPUT)
                &&& self.avr.has_irq(IoCtl::SpiGetIrq { spi: spi_name(id) }, SPI_IRQ_OUTPUT)
            }
    }

    /// The same simulator with the buffers at place `id` replaced.
    pub open spec fn with_spi(self, id: int, spi: SpiView) -> Self {
        AvrSimulatorView { spis: self.spis.update(id, Some(spi)), ..self }
    }

    /// The same simulator with `raise` put on the wire.
    pub open spec fn with_raise(self, raise: Raise) -> Self {
        AvrSimulatorView {
            avr: AvrView { raised: self.avr.raised.push(raise), ..self.avr },
            ..self
        }
    }

    /// The same simulator once the device has reported `value` on `irq`:
    /// a byte sent by an SPI goes to its receive queue, a pin's signal sets
    /// that pin's level, anything else changes nothing.
    pub open spec fn notified(self, irq: Irq, value: u32) -> Self {
        match irq.ioctl {
            IoCtl::SpiGetIrq { spi } => {
                if irq.index == SPI_IRQ_OUTPUT && spi_place(spi) is Some && self.has_spi(
                    spi_place(spi).unwrap(),
                ) {
                    let id = spi_place(spi).unwrap();
                    let old_spi = self.spis[id].unwrap();
                    self.with_spi(
                        id,
                        SpiView {
                            rx: spi::rx_after_push(old_spi.rx, spi::low_byte(value)),
                            ..old_spi
                        },
                    )
                } else {
                    self
                }
            },
            IoCtl::IoPortGetIrq { port } => {
                if irq.index < PORT_WIDTH && pin_index(port, irq.index as u8) is Some {
                    AvrSimulatorView {
                        pins: self.pins.update(
                            pin_index(port, irq.index as u8).unwrap(),
                            value != 0,
                        ),
                        ..self
                    }
                } else {
                    self
                }
            },
            IoCtl::AdcGetIrq => self,
        }
    }

    /// The same simulator once every SPI has handed its queued bytes to the
    /// device, SPI `'0'` first.
    pub open spec fn flushed(self) -> Self {
        self.flushed_spi(0).flushed_spi(1)
    }

    /// The same simulator once the SPI at place `id`, if there is one, has
    /// handed its queued bytes to the device.
    pub open spec fn flushed_spi(self, id: int) -> Self {
        if self.has_spi(id) {
            let old_spi = self.spis[id].unwrap();
            AvrSimulatorView {
                avr: AvrView {
                    raised: self.avr.raised + spi::input_raises(old_spi.id, old_spi.tx),
                    ..self.avr
                },
                spis: self.spis.update(id, Some(SpiView { tx: Seq::empty(), ..old_spi })),
                ..self
            }
        } else {
            self
        }
    }
}

/// The simulated device as the host sees it between two steps.
pub struct AvrSimulator {
    avr: Avr,
    spi0: Option<Spi>,
    spi1: Option<Spi>,
    pins: [bool; PIN_COUNT],
}

/// What stands in a slot for an SPI.
pub open spec fn spi_view(spi: Option<Spi>) -> Option<SpiView> {
    match spi {
        Some(spi) => Some(spi@),
        None => None,
    }
}

impl View for AvrSimulator {
    type V = AvrSimulatorView;

    closed spec fn view(&self) -> AvrSimulatorView {
        AvrSimulatorView {
            avr: self.avr@,
            spis: seq![spi_view(self.spi0), spi_view(self.spi1)],
            pins: self.pins@,
        }
    }
}

/// Whether the device behind `avr` has SPI `id`: both of its signals are
/// there.
pub open spec fn has_spi_signals(avr: AvrView, id: char) -> bool {
    &&& avr.has_irq(IoCtl::SpiGetIrq { spi: id }, SPI_IRQ_INPUT)
    &&& avr.has_irq(IoCtl::SpiGetIrq { spi: id }, SPI_IRQ_OUTPUT)
}

/// The wire once the buffers of SPI `id` have been attached, if the device
/// has that SPI: the host is told of every byte that the SPI sends.
pub open spec fn attached(avr: AvrView, id: char) -> AvrView {
    if has_spi_signals(avr, id) {
        AvrView { notified: avr.notified.push(spi::output_irq(id)), ..avr }
    } else {
        avr
    }
}

/// The buffers that are set up for SPI `id`: empty ones, if the device
/// behind `avr` has that SPI.
pub open spec fn fresh_spi(avr: AvrView, id: char) -> Option<SpiView> {
    if has_spi_signals(avr, id) {
        Some(SpiView { id, rx: Seq::empty(), tx: Seq::empty() })
    } else {
        None
    }
}

/// The buffers of SPI `id`, attached to the device, if the device has that
/// SPI.
fn attach_spi(avr: &mut Avr, id: char) -> (spi: Option<Spi>)
    ensures
        spi_view(spi) == fresh_spi(old(avr)@, id),
        final(avr)@ == attached(old(avr)@, id),
{
    let ioctl = IoCtl::SpiGetIrq { spi: id };
    if avr.io_getirq(ioctl, SPI_IRQ_INPUT).is_some() && avr.io_getirq(
        ioctl,
        SPI_IRQ_OUTPUT,
    ).is_some() {
        Spi::new(id).try_init(avr)
    } else {
        None
    }
}

impl AvrSimulator {
    /// Sets the host's side up for the device behind `avr`: attaches the
    /// buffers of SPI `'0'` and of SPI `'1'`, in that order, where the device
    /// has them, and takes every pin as low until the device reports
    /// otherwise.
    pub fn new(avr: Avr) -> (sim: Self)
        ensures
            sim@ == (AvrSimulatorView {
                avr: attached(attached(avr@, '0'), '1'),
                spis: seq![fresh_spi(avr@, '0'), fresh_spi(avr@, '1')],
                pins: Seq::new(PIN_COUNT as nat, |i: int| false),
            }),
            sim@.wf(),
    {
        let mut wire = avr;
        let spi0 = attach_spi(&mut wire, '0');
        let spi1 = attach_spi(&mut wire, '1');
        let sim = Self { avr: wire, spi0, spi1, pins: [false;PIN_COUNT] };
        proof {
            assert(sim@.pins =~= Seq::new(PIN_COUNT as nat, |i: int| false));
            assert(sim@.spis =~= seq![fresh_spi(avr@, '0'), fresh_spi(avr@, '1')]);
        }
        sim
    }

    /// The wire to the device, for whoever steps it.
    pub fn avr(&mut self) -> (avr: &mut Avr)
        ensures
            avr@ == old(self)@.avr,
            final(self)@ == (AvrSimulatorView { avr: final(avr)@, ..old(self)@ }),
    {
        &mut self.avr
    }

    /// Takes in what the device reported on one of its signals while it was
    /// stepped.
    pub fn notify(&mut self, irq: Irq, value: u32)
        ensures
            final(self)@ == old(self)@.notified(irq, value),
            old(self)@.wf() ==> final(self)@.wf(),
    {
        match irq.ioctl {
            IoCtl::SpiGetIrq { spi } => {
                if irq.index == SPI_IRQ_OUTPUT {
                    if spi == '0' {
                        match &mut self.spi0 {
                            Some(spi) => {
                                spi.on_output(value);
                            },
                            None => {},
                        }
                    } else if spi == '1' {
                        match &mut self.spi1 {
                            Some(spi) => {
                                spi.on_output(value);
                            },
                            None => {},
                        }
                    }
                }
            },
            IoCtl::IoPortGetIrq { port } => {
                if irq.index < PORT_WIDTH as u32 {
                    match PinId::new(port, irq.index as u8) {
                        Some(pin) => {
                            let index = pin.position();
                            self.pins[index] = value != 0;
                        },
                        None => {},
                    }
                }
            },
            IoCtl::AdcGetIrq => {},
        }
    }

    /// The level of `pin` as the device last reported it, or as the host
    /// last drove it; `true` is high.
    pub fn get_pin_state(&self, pin: PinId) -> (high: bool)
        ensures
            high == self@.pins[pin.index()],
    {
        let index = pin.position();
        self.pins[index]
    }

    /// Drives `pin` from the host's side.
    pub fn set_pin_state(&mut self, pin: PinId, high: bool)
        ensures
            final(self)@ == (AvrSimulatorView {
                pins: old(self)@.pins.update(pin.index(), high),
                ..old(self)@.with_raise(
                    Raise {
                        irq: Irq {
                            ioctl: IoCtl::IoPortGetIrq { port: pin.port() },
                            index: pin.pin() as u32,
                        },
                        value: if high {
                            1
                        } else {
                            0
                        },
                    },
                )
            }),
            old(self)@.wf() ==> final(self)@.wf(),
    {
        let index = pin.position();
        let irq = Irq { ioctl: IoCtl::IoPortGetIrq { port: pin.port() }, index: pin.pin() as u32 };
        self.avr.raise_irq(
            irq,
            if high {
                1
            } else {
                0
            },
        );
        self.pins[index] = high;
    }

    /// Applies `voltage` millivolts to ADC channel `pin`.
    pub fn set_adc_voltage(&mut self, pin: u32, voltage: u32)
        ensures
            final(self)@ == old(self)@.with_raise(
                Raise {
                    irq: Irq { ioctl: IoCtl::AdcGetIrq, index: (ADC_IRQ_ADC0 + pin) as u32 },
                    value: voltage,
                },
            ),
            old(self)@.wf() ==> final(self)@.wf(),
    {
        let irq = Irq { ioctl: IoCtl::AdcGetIrq, index: ADC_IRQ_ADC0 + pin };
        self.avr.raise_irq(irq, voltage);
    }

    /// Queues `byte` for the SPI at place `id`.
    pub fn spi_send(&mut self, id: usize, byte: u8)
        requires
            old(self)@.has_spi(id as int),
        ensures
            final(self)@ == old(self)@.with_spi(
                id as int,
                SpiView {
                    tx: old(self)@.spis[id as int].unwrap().tx.push(byte),
                    ..old(self)@.spis[id as int].unwrap()
                },
            ),
            old(self)@.wf() ==> final(self)@.wf(),
    {
        if id == 0 {
            match &mut self.spi0 {
                Some(spi) => {
                    spi.send(byte);
                },
                None => {},
            }
        } else {
            match &mut self.spi1 {
                Some(spi) => {
                    spi.send(byte);
                },
                None => {},
            }
        }
    }

    /// Takes the oldest byte that the SPI at place `id` has sent; `None`
    /// when there is none.
    pub fn spi_recv(&mut self, id: usize) -> (byte: Option<u8>)
        requires
            old(self)@.has_spi(id as int),
        ensures
            byte == spi::front(old(self)@.spis[id as int].unwrap().rx),
            final(self)@ == old(self)@.with_spi(
                id as int,
                SpiView {
                    rx: spi::after_pop(old(self)@.spis[id as int].unwrap().rx),
                    ..old(self)@.spis[id as int].unwrap()
                },
            ),
            old(self)@.wf() ==> final(self)@.wf(),
    {
        if id == 0 {
            match &mut self.spi0 {
                Some(spi) => spi.recv(),
                None => None,
            }
        } else {
            match &mut self.spi1 {
                Some(spi) => spi.recv(),
                None => None,
            }
        }
    }

    /// Whether the device has an SPI at place `id`.
    pub fn has_spi(&self, id: usize) -> (has: bool)
        ensures
            has == self@.has_spi(id as int),
    {
        if id == 0 {
            self.spi0.is_some()
        } else if id == 1 {
            self.spi1.is_some()
        } else {
            false
        }
    }

    /// Hands the bytes queued on every SPI to the device, SPI `'0'` first.
    /// To be called before each step of the device.
    pub fn flush(&mut self)
        requires
            old(self)@.wf(),
        ensures
            final(self)@ == old(self)@.flushed(),
            final(self)@.wf(),
    {
        match &mut self.spi0 {
            Some(spi) => {
                spi.flush(&mut self.avr);
            },
            None => {},
        }
        assert(self@ == old(self)@.flushed_spi(0));
        match &mut self.spi1 {
            Some(spi) => {
                spi.flush(&mut self.avr);
            },
            None => {},
        }
        assert(self@ == old(self)@.flushed_spi(0).flushed_spi(1));
    }
}

} // verus!
