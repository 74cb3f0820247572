use avr_tester::simulator::avr::{
    Avr, IoCtl, Irq, Raise, ADC_IRQ_ADC0, SPI_IRQ_INPUT, SPI_IRQ_OUTPUT,
};
use avr_tester::simulator::spi::{Spi, RX_BUFFER_MAX_BYTES};
use avr_tester::simulator::{AvrSimulator, PinId};

fn spi_irq(spi: char, index: u32) -> Irq {
    Irq { ioctl: IoCtl::SpiGetIrq { spi }, index }
}

fn device_with_spi0() -> Avr {
    Avr::new(vec![spi_irq('0', SPI_IRQ_INPUT), spi_irq('0', SPI_IRQ_OUTPUT)])
}

#[test]
fn bytes_come_out_in_the_order_sent() {
    let mut spi = Spi::new('0');
    let sent: Vec<u8> = (0..=255).collect();
    for &byte in &sent {
        spi.on_output(byte as u32);
    }

    let mut received = Vec::new();
    while let Some(byte) = spi.recv() {
        received.push(byte);
    }

    assert_eq!(received, sent);
    assert_eq!(spi.recv(), None);
}

#[test]
fn receive_queue_drops_what_comes_after_it_is_full() {
    let mut spi = Spi::new('0');
    for n in 0..RX_BUFFER_MAX_BYTES + 5 {
        spi.on_output((n % 251) as u32);
    }

    let mut received = Vec::new();
    while let Some(byte) = spi.recv() {
        received.push(byte);
    }

    assert_eq!(RX_BUFFER_MAX_BYTES, 131_072);
    assert_eq!(received.len(), RX_BUFFER_MAX_BYTES);
    for (n, &byte) in received.iter().enumerate() {
        assert_eq!(byte, (n % 251) as u8);
    }
}

#[test]
fn receive_queue_takes_bytes_again_once_there_is_room() {
    let mut spi = Spi::new('0');
    for _ in 0..RX_BUFFER_MAX_BYTES {
        spi.on_output(1);
    }
    spi.on_output(2);
    assert_eq!(spi.recv(), Some(1));
    spi.on_output(3);

    let mut last = None;
    let mut count = 0;
    while let Some(byte) = spi.recv() {
        last = Some(byte);
        count += 1;
    }
    assert_eq!(count, RX_BUFFER_MAX_BYTES);
    assert_eq!(last, Some(3));
}

#[test]
fn peek_leaves_the_byte_in_place() {
    let mut spi = Spi::new('0');
    assert_eq!(spi.peek(), None);
    spi.on_output(7);
    spi.on_output(8);
    assert_eq!(spi.peek(), Some(7));
    assert_eq!(spi.peek(), Some(7));
    assert_eq!(spi.recv(), Some(7));
    assert_eq!(spi.peek(), Some(8));
}

#[test]
fn only_the_low_byte_of_a_value_is_received() {
    let mut spi = Spi::new('0');
    spi.on_output(0x1_59);
    spi.on_output(0xffff_ff00);
    assert_eq!(spi.recv(), Some(0x59));
    assert_eq!(spi.recv(), Some(0x00));
}

#[test]
fn empty_queue_gives_nothing() {
    let mut spi = Spi::new('1');
    assert_eq!(spi.recv(), None);
    assert_eq!(spi.peek(), None);
}

#[test]
fn try_init_asks_for_the_output_signal() {
    let mut avr = device_with_spi0();
    assert!(avr.io_getirq(IoCtl::SpiGetIrq { spi: '0' }, SPI_IRQ_OUTPUT).is_some());

    let spi = Spi::new('0').try_init(&mut avr);

    assert!(spi.is_some());
    assert_eq!(*avr.notified(), vec![spi_irq('0', SPI_IRQ_OUTPUT)]);
    assert!(avr.take_raised().is_empty());
}

#[test]
fn flush_raises_each_byte_once_in_order() {
    let mut avr = device_with_spi0();
    let mut spi = Spi::new('0').try_init(&mut avr).unwrap();
    spi.send(b'a');
    spi.send(b'b');
    spi.send(b'c');

    spi.flush(&mut avr);

    let input = spi_irq('0', SPI_IRQ_INPUT);
    assert_eq!(
        avr.take_raised(),
        vec![
            Raise { irq: input, value: b'a' as u32 },
            Raise { irq: input, value: b'b' as u32 },
            Raise { irq: input, value: b'c' as u32 },
        ]
    );

    // nothing is left to hand over
    spi.flush(&mut avr);
    assert!(avr.take_raised().is_empty());
}

#[test]
fn flush_leaves_the_receive_queue_alone() {
    let mut avr = device_with_spi0();
    let mut spi = Spi::new('0').try_init(&mut avr).unwrap();
    spi.on_output(5);
    spi.send(6);
    spi.flush(&mut avr);
    assert_eq!(spi.recv(), Some(5));
}

#[test]
fn flush_of_an_empty_queue_needs_no_signal() {
    let mut avr = Avr::new(Vec::new());
    let mut spi = Spi::new('0');
    spi.flush(&mut avr);
    assert!(avr.take_raised().is_empty());
}

#[test]
fn device_offers_only_its_own_signals() {
    let avr = device_with_spi0();
    assert_eq!(
        avr.io_getirq(IoCtl::SpiGetIrq { spi: '0' }, SPI_IRQ_INPUT),
        Some(spi_irq('0', SPI_IRQ_INPUT))
    );
    assert_eq!(avr.io_getirq(IoCtl::SpiGetIrq { spi: '1' }, SPI_IRQ_INPUT), None);
    assert_eq!(avr.io_getirq(IoCtl::SpiGetIrq { spi: '0' }, 2), None);
    assert_eq!(avr.io_getirq(IoCtl::AdcGetIrq, ADC_IRQ_ADC0), None);
}

#[test]
fn raised_values_are_handed_over_once() {
    let mut avr = Avr::new(Vec::new());
    let irq = Irq { ioctl: IoCtl::AdcGetIrq, index: 3 };
    avr.raise_irq(irq, 10);
    avr.raise_irq(irq, 20);
    assert_eq!(avr.take_raised(), vec![Raise { irq, value: 10 }, Raise { irq, value: 20 }]);
    assert!(avr.take_raised().is_empty());
}

#[test]
fn simulator_attaches_the_spis_that_the_device_has() {
    let mut sim = AvrSimulator::new(device_with_spi0());
    assert!(sim.has_spi(0));
    assert!(!sim.has_spi(1));
    assert!(!sim.has_spi(2));
    assert_eq!(*sim.avr().notified(), vec![spi_irq('0', SPI_IRQ_OUTPUT)]);

    let mut both = AvrSimulator::new(Avr::new(vec![
        spi_irq('1', SPI_IRQ_OUTPUT),
        spi_irq('1', SPI_IRQ_INPUT),
        spi_irq('0', SPI_IRQ_INPUT),
        spi_irq('0', SPI_IRQ_OUTPUT),
    ]));
    assert!(both.has_spi(0));
    assert!(both.has_spi(1));
    assert_eq!(
        *both.avr().notified(),
        vec![spi_irq('0', SPI_IRQ_OUTPUT), spi_irq('1', SPI_IRQ_OUTPUT)]
    );
}

#[test]
fn simulator_needs_both_signals_of_an_spi() {
    let sim = AvrSimulator::new(Avr::new(vec![spi_irq('0', SPI_IRQ_OUTPUT)]));
    assert!(!sim.has_spi(0));
    let none = AvrSimulator::new(Avr::new(Vec::new()));
    assert!(!none.has_spi(0));
    assert!(!none.has_spi(1));
}

#[test]
fn simulator_sorts_what_the_device_reports() {
    let mut sim = AvrSimulator::new(Avr::new(vec![
        spi_irq('0', SPI_IRQ_INPUT),
        spi_irq('0', SPI_IRQ_OUTPUT),
        spi_irq('1', SPI_IRQ_INPUT),
        spi_irq('1', SPI_IRQ_OUTPUT),
    ]));

    sim.notify(spi_irq('1', SPI_IRQ_OUTPUT), 11);
    sim.notify(spi_irq('0', SPI_IRQ_OUTPUT), 10);
    // not a byte that the device sent
    sim.notify(spi_irq('0', SPI_IRQ_INPUT), 99);
    // no such SPI
    sim.notify(spi_irq('2', SPI_IRQ_OUTPUT), 99);
    sim.notify(Irq { ioctl: IoCtl::AdcGetIrq, index: 0 }, 99);

    assert_eq!(sim.spi_recv(0), Some(10));
    assert_eq!(sim.spi_recv(0), None);
    assert_eq!(sim.spi_recv(1), Some(11));
    assert_eq!(sim.spi_recv(1), None);
}

#[test]
fn simulator_flushes_spi_0_first() {
    let mut sim = AvrSimulator::new(Avr::new(vec![
        spi_irq('0', SPI_IRQ_INPUT),
        spi_irq('0', SPI_IRQ_OUTPUT),
        spi_irq('1', SPI_IRQ_INPUT),
        spi_irq('1', SPI_IRQ_OUTPUT),
    ]));
    sim.spi_send(1, 3);
    sim.spi_send(0, 1);
    sim.spi_send(0, 2);

    sim.flush();

    assert_eq!(
        sim.avr().take_raised(),
        vec![
            Raise { irq: spi_irq('0', SPI_IRQ_INPUT), value: 1 },
            Raise { irq: spi_irq('0', SPI_IRQ_INPUT), value: 2 },
            Raise { irq: spi_irq('1', SPI_IRQ_INPUT), value: 3 },
        ]
    );
}

#[test]
fn pins_are_low_until_reported_high() {
    let mut sim = AvrSimulator::new(Avr::new(Vec::new()));
    let pb0 = PinId::new('B', 0).unwrap();
    let pb1 = PinId::new('B', 1).unwrap();
    let pl7 = PinId::new('L', 7).unwrap();
    assert!(!sim.get_pin_state(pb0));

    sim.notify(Irq { ioctl: IoCtl::IoPortGetIrq { port: 'B' }, index: 0 }, 1);
    sim.notify(Irq { ioctl: IoCtl::IoPortGetIrq { port: 'L' }, index: 7 }, 0xff);
    assert!(sim.get_pin_state(pb0));
    assert!(!sim.get_pin_state(pb1));
    assert!(sim.get_pin_state(pl7));

    sim.notify(Irq { ioctl: IoCtl::IoPortGetIrq { port: 'B' }, index: 0 }, 0);
    assert!(!sim.get_pin_state(pb0));

    // not a pin
    sim.notify(Irq { ioctl: IoCtl::IoPortGetIrq { port: 'B' }, index: 8 }, 1);
    sim.notify(Irq { ioctl: IoCtl::IoPortGetIrq { port: 'M' }, index: 0 }, 1);
    sim.notify(Irq { ioctl: IoCtl::IoPortGetIrq { port: 'B' }, index: 256 }, 1);
    assert!(!sim.get_pin_state(pb0));
    assert!(!sim.get_pin_state(pb1));
}

#[test]
fn pins_exist_on_ports_a_to_l() {
    assert!(PinId::new('A', 0).is_some());
    assert!(PinId::new('L', 7).is_some());
    assert!(PinId::new('A', 8).is_none());
    assert!(PinId::new('M', 0).is_none());
    assert!(PinId::new('a', 0).is_none());
    assert!(PinId::new('@', 0).is_none());
    let pin = PinId::new('C', 5).unwrap();
    assert_eq!(pin.port(), 'C');
    assert_eq!(pin.pin(), 5);
}

#[test]
fn host_drives_a_pin() {
    let mut sim = AvrSimulator::new(Avr::new(Vec::new()));
    let pd2 = PinId::new('D', 2).unwrap();

    sim.set_pin_state(pd2, true);
    assert!(sim.get_pin_state(pd2));
    sim.set_pin_state(pd2, false);
    assert!(!sim.get_pin_state(pd2));

    let irq = Irq { ioctl: IoCtl::IoPortGetIrq { port: 'D' }, index: 2 };
    assert_eq!(
        sim.avr().take_raised(),
        vec![Raise { irq, value: 1 }, Raise { irq, value: 0 }]
    );
}

#[test]
fn adc_voltage_goes_to_the_channel() {
    let mut sim = AvrSimulator::new(Avr::new(Vec::new()));
    sim.set_adc_voltage(1, 3_300);
    assert_eq!(
        sim.avr().take_raised(),
        vec![Raise { irq: Irq { ioctl: IoCtl::AdcGetIrq, index: ADC_IRQ_ADC0 + 1 }, value: 3_300 }]
    );
}
