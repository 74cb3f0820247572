//! The two queues through which one SPI of the device and the host exchange
//! bytes.
//!
//! The device fills the receive queue while it is being stepped; the host
//! empties it, and fills the transmit queue, between two steps. Neither side
//! ever waits for the other.

use super::avr::{Avr, AvrView, IoCtl, Irq, Raise, SPI_IRQ_INPUT, SPI_IRQ_OUTPUT};
use std::collections::VecDeque;
use vstd::prelude::*;

verus! {

/// The most bytes the receive queue holds; what the device sends beyond
/// that is lost.
pub const RX_BUFFER_MAX_BYTES: usize = 128 * 1024;

/// The receive queue once the device has sent `value`: the byte goes to the
/// back, unless the queue is full.
pub open spec fn rx_after_push(rx: Seq<u8>, value: u8) -> Seq<u8> {
    if rx.len() < RX_BUFFER_MAX_BYTES {
        rx.push(value)
    } else {
        rx
    }
}

/// The receive queue once the device has sent `values`, first to last.
pub open spec fn rx_after_pushes(rx: Seq<u8>, values: Seq<u8>) -> Seq<u8>
    decreases values.len(),
{
    if values.len() == 0 {
        rx
    } else {
        rx_after_push(rx_after_pushes(rx, values.drop_last()), values.last())
    }
}

/// The byte at the front of a queue, if it holds any.
pub open spec fn front(queue: Seq<u8>) -> Option<u8> {
    if queue.len() > 0 {
        Some(queue[0])
    } else {
        None
    }
}

/// A queue once its front byte, if any, has been taken.
pub open spec fn after_pop(queue: Seq<u8>) -> Seq<u8> {
    if queue.len() > 0 {
        queue.subrange(1, queue.len() as int)
    } else {
        queue
    }
}

/// A queue once `n` bytes have been taken from its front, one by one.
pub open spec fn after_pops(queue: Seq<u8>, n: nat) -> Seq<u8>
    decreases n,
{
    if n == 0 {
        queue
    } else {
        after_pop(after_pops(queue, (n - 1) as nat))
    }
}

/// The byte that a value on an SPI signal carries: its low eight bits.
pub open spec fn low_byte(value: u32) -> u8 {
    (value % 256) as u8
}

/// The signal on which SPI `id` takes bytes from the host.
pub open spec fn input_irq(id: char) -> Irq {
    Irq { ioctl: IoCtl::SpiGetIrq { spi: id }, index: SPI_IRQ_INPUT }
}

/// The signal on which SPI `id` announces the bytes it has sent.
pub open spec fn output_irq(id: char) -> Irq {
    Irq { ioctl: IoCtl::SpiGetIrq { spi: id }, index: SPI_IRQ_OUTPUT }
}

/// What flushing `tx` raises on the input signal of SPI `id`: each byte once,
/// in the order in which the host queued them.
pub open spec fn input_raises(id: char, tx: Seq<u8>) -> Seq<Raise> {
    Seq::new(tx.len(), |i: int| Raise { irq: input_irq(id), value: tx[i] as u32 })
}

/// The queues themselves, apart from the SPI they belong to.
#[derive(Debug)]
struct SpiInner {
    rx: VecDeque<u8>,
    tx: VecDeque<u8>,
}

impl SpiInner {
    /// The bytes received from the device, oldest first.
    pub closed spec fn rx(&self) -> Seq<u8> {
        self.rx@
    }

    /// The bytes queued for the device, oldest first.
    pub closed spec fn tx(&self) -> Seq<u8> {
        self.tx@
    }

    /// Called when the device has sent a byte.
    fn push_rx(&mut self, value: u8)
        ensures
            final(self).rx() == rx_after_push(old(self).rx(), value),
            final(self).tx() == old(self).tx(),
    {
        if self.rx.len() < RX_BUFFER_MAX_BYTES {
            self.rx.push_back(value);
        }
    }

    /// Called when the host wants the next byte that the device sent.
    fn pop_rx(&mut self) -> (byte: Option<u8>)
        ensures
            byte == front(old(self).rx()),
            final(self).rx() == after_pop(old(self).rx()),
            final(self).tx() == old(self).tx(),
    {
        self.rx.pop_front()
    }

    /// Called when the host wants to look at the next byte without taking it.
    fn peek_rx(&self) -> (byte: Option<u8>)
        ensures
            byte == front(self.rx()),
    {
        if self.rx.len() > 0 {
            Some(self.rx[0])
        } else {
            None
        }
    }

    /// Called when the host has a byte for the device.
    fn push_tx(&mut self, value: u8)
        ensures
            final(self).tx() == old(self).tx().push(value),
            final(self).rx() == old(self).rx(),
    {
        self.tx.push_back(value);
    }

    /// Called when the device is ready to take the next byte from the host.
    fn pop_tx(&mut self) -> (byte: Option<u8>)
        ensures
            byte == front(old(self).tx()),
            final(self).tx() == after_pop(old(self).tx()),
            final(self).rx() == old(self).rx(),
    {
        self.tx.pop_front()
    }
}

impl Default for SpiInner {
    fn default() -> (inner: Self)
        ensures
            inner.rx() == Seq::<u8>::empty(),
            inner.tx() == Seq::<u8>::empty(),
    {
        Self { rx: VecDeque::new(), tx: VecDeque::new() }
    }
}

/// What a [`Spi`] holds.
#[verifier::ext_equal]
pub struct SpiView {
    /// The name of the SPI on the device, such as `'0'`.
    pub id: char,
    /// Bytes the device sent and the host has not taken yet, oldest first.
    pub rx: Seq<u8>,
    /// Bytes the host queued and the device has not been given yet, oldest
    /// first.
    pub tx: Seq<u8>,
}

impl SpiView {
    /// The receive queue is within its bound. Buffers start out so, and
    /// nothing that is done with them changes it.
    pub open spec fn bounded(self) -> bool {
        self.rx.len() <= RX_BUFFER_MAX_BYTES
    }
}

/// The exchange buffers of one SPI.
pub struct Spi {
    inner: SpiInner,
    id: char,
}

impl View for Spi {
    type V = SpiView;

    closed spec fn view(&self) -> SpiView {
        SpiView { id: self.id, rx: self.inner.rx(), tx: self.inner.tx() }
    }
}

impl Spi {
    /// The buffers of SPI `id`, both empty.
    pub fn new(id: char) -> (spi: Self)
        ensures
            spi@ == (SpiView { id, rx: Seq::empty(), tx: Seq::empty() }),
            spi@.bounded(),
    {
        let inner = SpiInner::default();
        Self { inner, id }
    }

    /// Attaches the buffers to the device: asks to be told of every byte
    /// that the SPI sends.
    ///
    /// A device without that SPI cannot be worked with at all, so the caller
    /// looks the output signal up first (see [`Avr::io_getirq`]) and gives
    /// up if it is missing.
    pub fn try_init(self, avr: &mut Avr) -> (spi: Option<Self>)
        requires
            old(avr)@.has_irq(IoCtl::SpiGetIrq { spi: self@.id }, SPI_IRQ_OUTPUT),
        ensures
            spi == Some(self),
            final(avr)@ == (AvrView {
                notified: old(avr)@.notified.push(output_irq(self@.id)),
                ..old(avr)@
            }),
    {
        let ioctl = IoCtl::SpiGetIrq { spi: self.id };
        let irq_output = avr.io_getirq(ioctl, SPI_IRQ_OUTPUT).unwrap();
        avr.irq_register_notify(irq_output);
        Some(self)
    }

    /// Hands every queued byte to the device: raises the SPI's input signal
    /// once per byte, oldest first, and leaves the transmit queue empty.
    ///
    /// Only to be called between two steps of the device. The input signal
    /// is looked up when there is a first byte to send.
    pub fn flush(&mut self, avr: &mut Avr)
        requires
            old(self)@.tx.len() > 0 ==> old(avr)@.has_irq(
                IoCtl::SpiGetIrq { spi: old(self)@.id },
                SPI_IRQ_INPUT,
            ),
        ensures
            final(self)@ == (SpiView { tx: Seq::empty(), ..old(self)@ }),
            final(avr)@ == (AvrView {
                raised: old(avr)@.raised + input_raises(old(self)@.id, old(self)@.tx),
                ..old(avr)@
            }),
            old(self)@.bounded() ==> final(self)@.bounded(),
    {
        let mut irq: Option<Irq> = None;
        let ghost tx = self@.tx;
        let ghost sent: int = 0;

        loop
            invariant
                0 <= sent <= tx.len(),
                tx == old(self)@.tx,
                self@ =~= (SpiView { tx: tx.subrange(sent, tx.len() as int), ..old(self)@ }),
                avr@ =~= (AvrView {
                    raised: old(avr)@.raised + input_raises(self@.id, tx.subrange(0, sent)),
                    ..old(avr)@
                }),
                tx.len() > 0 ==> avr@.has_irq(IoCtl::SpiGetIrq { spi: self@.id }, SPI_IRQ_INPUT),
                irq is Some ==> irq == Some(input_irq(self@.id)),
            ensures
                sent == tx.len(),
            decreases tx.len() - sent,
        {
            let byte = if let Some(byte) = self.inner.pop_tx() {
                byte
            } else {
                break ;
            };

            if irq.is_none() {
                irq = avr.io_getirq(IoCtl::SpiGetIrq { spi: self.id }, SPI_IRQ_INPUT);
            }
            let target = irq.unwrap();

            avr.raise_irq(target, byte as u32);

            proof {
                assert(input_raises(self@.id, tx.subrange(0, sent + 1)) == input_raises(
                    self@.id,
                    tx.subrange(0, sent),
                ).push(Raise { irq: target, value: byte as u32 }));
                sent = sent + 1;
            }
        }

        proof {
            assert(tx.subrange(0, sent) == tx);
            assert(self@ =~= (SpiView { tx: Seq::empty(), ..old(self)@ }));
        }
    }

    /// Queues a byte for the device.
    pub fn send(&mut self, byte: u8)
        ensures
            final(self)@ == (SpiView { tx: old(self)@.tx.push(byte), ..old(self)@ }),
            old(self)@.bounded() ==> final(self)@.bounded(),
    {
        self.inner.push_tx(byte);
    }

    /// Takes the oldest byte that the device sent; `None` when there is
    /// none.
    pub fn recv(&mut self) -> (byte: Option<u8>)
        ensures
            byte == front(old(self)@.rx),
            final(self)@ == (SpiView { rx: after_pop(old(self)@.rx), ..old(self)@ }),
            old(self)@.bounded() ==> final(self)@.bounded(),
    {
        self.inner.pop_rx()
    }

    /// The oldest byte that the device sent, left in place; `None` when
    /// there is none.
    pub fn peek(&mut self) -> (byte: Option<u8>)
        ensures
            byte == front(old(self)@.rx),
            final(self)@ == old(self)@,
    {
        self.inner.peek_rx()
    }

    /// The device's side: called, while the device is being stepped, with
    /// each value that appears on the SPI's output signal.
    pub fn on_output(&mut self, value: u32)
        ensures
            final(self)@ == (SpiView {
                rx: rx_after_push(old(self)@.rx, low_byte(value)),
                ..old(self)@
            }),
            old(self)@.bounded() ==> final(self)@.bounded(),
    {
        self.inner.push_rx((value % 256) as u8);
    }
}

/// However many bytes the device sends, a receive queue within its bound
/// stays within it: the bytes that fit are kept in the order sent, and the
/// ones after them are lost.
pub proof fn lemma_rx_bounded(rx: Seq<u8>, values: Seq<u8>)
    requires
        rx.len() <= RX_BUFFER_MAX_BYTES,
    ensures
        rx_after_pushes(rx, values).len() <= RX_BUFFER_MAX_BYTES,
        rx_after_pushes(rx, values) == if rx.len() + values.len() <= RX_BUFFER_MAX_BYTES {
            rx + values
        } else {
            rx + values.subrange(0, RX_BUFFER_MAX_BYTES - rx.len())
        },
    decreases values.len(),
{
    if values.len() > 0 {
        let init = values.drop_last();
        lemma_rx_bounded(rx, init);
        let before = rx_after_pushes(rx, init);
        if rx.len() + values.len() <= RX_BUFFER_MAX_BYTES {
            assert(before.push(values.last()) == rx + values);
        } else if rx.len() + init.len() <= RX_BUFFER_MAX_BYTES {
            assert(init == values.subrange(0, RX_BUFFER_MAX_BYTES - rx.len()));
        } else {
            assert(init.subrange(0, RX_BUFFER_MAX_BYTES - rx.len()) == values.subrange(
                0,
                RX_BUFFER_MAX_BYTES - rx.len(),
            ));
        }
    } else {
        assert(rx + values == rx);
    }
}

/// Taking `n` bytes off a queue that holds at least `n` leaves what came
/// after them.
pub proof fn lemma_after_pops(queue: Seq<u8>, n: nat)
    requires
        n <= queue.len(),
    ensures
        after_pops(queue, n) == queue.subrange(n as int, queue.len() as int),
    decreases n,
{
    if n == 0 {
        assert(queue.subrange(0, queue.len() as int) == queue);
    } else {
        lemma_after_pops(queue, (n - 1) as nat);
        let before = queue.subrange(n - 1, queue.len() as int);
        assert(before.subrange(1, before.len() as int) == queue.subrange(
            n as int,
            queue.len() as int,
        ));
    }
}

/// First in, first out: when the device sends no more bytes than the
/// receive queue has room for, the host takes out what was there before,
/// then the bytes sent, in the order in which they were sent, and then the
/// queue is empty.
pub proof fn lemma_fifo(rx: Seq<u8>, values: Seq<u8>)
    requires
        rx.len() + values.len() <= RX_BUFFER_MAX_BYTES,
    ensures
        forall|n: nat|
            n < rx.len() ==> front(#[trigger] after_pops(rx_after_pushes(rx, values), n)) == Some(
                rx[n as int],
            ),
        forall|n: nat|
            rx.len() <= n < rx.len() + values.len() ==> front(
                #[trigger] after_pops(rx_after_pushes(rx, values), n),
            ) == Some(values[n - rx.len()]),
        after_pops(rx_after_pushes(rx, values), rx.len() + values.len()) == Seq::<u8>::empty(),
{
    let queue = rx_after_pushes(rx, values);
    lemma_rx_bounded(rx, values);
    assert forall|n: nat| n < rx.len() + values.len() implies #[trigger] after_pops(queue, n)
        == queue.subrange(n as int, queue.len() as int) by {
        lemma_after_pops(queue, n);
    }
    lemma_after_pops(queue, rx.len() + values.len());
}

} // verus!
