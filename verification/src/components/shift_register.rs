//! A shift register on two pins of the device.

use crate::components::runtime::{ComponentRuntime, ComponentRuntimeView};
use crate::components::{Component, Poll, Resumed};
use crate::simulator::PinId;
use vstd::prelude::*;

verus! {

/// Bits in a number.
pub const BITS_PER_NUMBER: usize = 8;

/// One bit as a number.
pub open spec fn bit(high: bool) -> int {
    if high {
        1
    } else {
        0
    }
}

/// The number that eight bits make, the first bit counting least.
pub open spec fn number_of(bits: Seq<bool>) -> int {
    bit(bits[0]) + 2 * bit(bits[1]) + 4 * bit(bits[2]) + 8 * bit(bits[3]) + 16 * bit(bits[4]) + 32
        * bit(bits[5]) + 64 * bit(bits[6]) + 128 * bit(bits[7])
}

/// What a [`ShiftRegister`] holds.
#[verifier::ext_equal]
pub struct ShiftRegisterView {
    /// The latch pin.
    pub latch: PinId,
    /// The data pin.
    pub data: PinId,
    /// The bits taken since the last full number, oldest first.
    pub bits: Seq<bool>,
    /// The numbers put together so far, oldest first.
    pub numbers: Seq<u8>,
    /// Whether the latch was high when the register last looked, so that its
    /// bit has been taken already.
    pub latched: bool,
}

/// Takes one bit from the data pin each time the latch pin goes high, and
/// puts every eight bits together as a number. It never comes to an end.
pub struct ShiftRegister {
    latch: PinId,
    data: PinId,
    bits: Vec<bool>,
    numbers: Vec<u8>,
    latched: bool,
}

impl View for ShiftRegister {
    type V = ShiftRegisterView;

    closed spec fn view(&self) -> ShiftRegisterView {
        ShiftRegisterView {
            latch: self.latch,
            data: self.data,
            bits: self.bits@,
            numbers: self.numbers@,
            latched: self.latched,
        }
    }
}

/// Puts eight bits together as a number, the first bit counting least.
fn pack(bits: &Vec<bool>) -> (number: u8)
    requires
        bits@.len() == BITS_PER_NUMBER,
    ensures
        number == number_of(bits@),
{
    let mut number: u8 = 0;
    let mut weight: u8 = 1;
    let mut at: usize = 0;
    while at < BITS_PER_NUMBER
        invariant
            at <= BITS_PER_NUMBER,
            bits@.len() == BITS_PER_NUMBER,
            at == 0 ==> weight == 1 && number == 0,
            at == 1 ==> weight == 2 && number == bit(bits@[0]),
            at == 2 ==> weight == 4 && number == bit(bits@[0]) + 2 * bit(bits@[1]),
            at == 3 ==> weight == 8 && number == bit(bits@[0]) + 2 * bit(bits@[1]) + 4 * bit(
                bits@[2],
            ),
            at == 4 ==> weight == 16 && number == bit(bits@[0]) + 2 * bit(bits@[1]) + 4 * bit(
                bits@[2],
            ) + 8 * bit(bits@[3]),
            at == 5 ==> weight == 32 && number == bit(bits@[0]) + 2 * bit(bits@[1]) + 4 * bit(
                bits@[2],
            ) + 8 * bit(bits@[3]) + 16 * bit(bits@[4]),
            at == 6 ==> weight == 64 && number == bit(bits@[0]) + 2 * bit(bits@[1]) + 4 * bit(
                bits@[2],
            ) + 8 * bit(bits@[3]) + 16 * bit(bits@[4]) + 32 * bit(bits@[5]),
            at == 7 ==> weight == 128 && number == bit(bits@[0]) + 2 * bit(bits@[1]) + 4 * bit(
                bits@[2],
            ) + 8 * bit(bits@[3]) + 16 * bit(bits@[4]) + 32 * bit(bits@[5]) + 64 * bit(bits@[6]),
            at == 8 ==> number == number_of(bits@),
        decreases BITS_PER_NUMBER - at,
    {
        if bits[at] {
            number = number + weight;
        }
        if at < BITS_PER_NUMBER - 1 {
            weight = weight * 2;
        }
        at += 1;
    }
    number
}

impl ShiftRegister {
    /// A shift register with its latch on `latch` and its data on `data`,
    /// which has seen nothing yet.
    pub fn new(latch: PinId, data: PinId) -> (register: Self)
        ensures
            register@ == (ShiftRegisterView {
                latch,
                data,
                bits: Seq::empty(),
                numbers: Seq::empty(),
                latched: false,
            }),
    {
        Self { latch, data, bits: Vec::new(), numbers: Vec::new(), latched: false }
    }

    /// The numbers put together so far, oldest first.
    pub fn numbers(&self) -> (numbers: &Vec<u8>)
        ensures
            numbers@ == self@.numbers,
    {
        &self.numbers
    }
}

impl Component for ShiftRegister {
    /// When the latch is found high and was not so before, the level of the
    /// data pin is taken as the next bit, and with the eighth bit a number is
    /// complete. Otherwise the register only notes where the latch stands.
    /// It always waits for more.
    open spec fn resumed(model: ShiftRegisterView, rt: ComponentRuntimeView) -> Resumed<
        ShiftRegisterView,
    > {
        let high = rt.sim.pins[model.latch.index()];
        if high && !model.latched {
            let bits = model.bits.push(rt.sim.pins[model.data.index()]);
            Resumed {
                component: if bits.len() == BITS_PER_NUMBER {
                    ShiftRegisterView {
                        bits: Seq::empty(),
                        numbers: model.numbers.push(number_of(bits) as u8),
                        latched: true,
                        ..model
                    }
                } else {
                    ShiftRegisterView { bits, latched: true, ..model }
                },
                rt,
                poll: Poll::Pending,
            }
        } else {
            Resumed {
                component: ShiftRegisterView { latched: high, ..model },
                rt,
                poll: Poll::Pending,
            }
        }
    }

    fn poll(&mut self, rt: &mut ComponentRuntime) -> (poll: Poll) {
        let high = rt.sim().get_pin_state(self.latch);
        if high && !self.latched {
            let level = rt.sim().get_pin_state(self.data);
            self.bits.push(level);

            if self.bits.len() == BITS_PER_NUMBER {
                let number = pack(&self.bits);
                self.numbers.push(number);
                self.bits.clear();
            }
        }
        self.latched = high;
        Poll::Pending
    }
}

} // verus!
