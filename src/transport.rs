use vstd::prelude::*;

verus! {

#[verifier::external_type_specification]
#[verifier::external_body]
pub struct ExSpidev(spidev::Spidev);

#[verifier::external_type_specification]
#[verifier::external_body]
pub struct ExGpio(rppal::gpio::Gpio);

#[verifier::external_type_specification]
#[verifier::external_body]
pub struct ExOutputPin(rppal::gpio::OutputPin);

/// One transfer as the controller sees it: the data/command line's level
/// (`true` for data) and the bytes clocked out.
pub type Transfer = (bool, Seq<u8>);

/// Serial settings handed to the device.
#[derive(PartialEq, Eq, Structural, Clone, Copy, Debug)]
pub struct SpiSettings {
    /// Word size; 0 keeps the device's default of 8 bits.
    pub bits_per_word: u8,
    pub max_speed_hz: u32,
    pub lsb_first: bool,
    /// SPI mode number (clock polarity and phase), 0 to 3.
    pub mode: u8,
}

/// The settings the controller takes: mode 0, most significant bit first,
/// default word size, at the given clock.
pub open spec fn controller_settings(speed_hz: u32) -> SpiSettings {
    SpiSettings { bits_per_word: 0, max_speed_hz: speed_hz, lsb_first: false, mode: 0 }
}

/// Builds the controller's serial settings for a clock speed.
pub fn spi_settings(speed_hz: u32) -> (s: SpiSettings)
    ensures
        s == controller_settings(speed_hz),
{
    SpiSettings { bits_per_word: 0, max_speed_hz: speed_hz, lsb_first: false, mode: 0 }
}

/// A digital output line with the record of every level driven on it.
pub struct OutPin {
    pin: rppal::gpio::OutputPin,
    levels: Ghost<Seq<bool>>,
}

impl OutPin {
    /// Every level driven on the line since it was opened, in order.
    pub closed spec fn levels(&self) -> Seq<bool> {
        self.levels@
    }

    /// Whether the line was last driven high.
    pub open spec fn is_high(&self) -> bool {
        self.levels().len() > 0 && self.levels().last()
    }

    /// Takes over an output line that nothing has driven yet.
    pub fn new(pin: rppal::gpio::OutputPin) -> (p: Self)
        ensures
            p.levels() == Seq::<bool>::empty(),
    {
        OutPin { pin, levels: Ghost(Seq::empty()) }
    }
}

impl OutPin {
    /// The underlying pin, for driving it in ways the record does not cover
    /// (PWM); the record is left as it is.
    pub fn raw(&mut self) -> (r: &mut rppal::gpio::OutputPin)
        ensures
            final(self).levels() == old(self).levels(),
    {
        &mut self.pin
    }
}

/// Relies on rppal's OutputPin::set_low: drives the line low.
#[verifier::external_body]
pub fn drive_low(p: &mut OutPin)
    ensures
        final(p).levels() == old(p).levels().push(false),
{
    p.pin.set_low();
}

/// Relies on rppal's OutputPin::set_high: drives the line high.
#[verifier::external_body]
pub fn drive_high(p: &mut OutPin)
    ensures
        final(p).levels() == old(p).levels().push(true),
{
    p.pin.set_high();
}

/// Drives a line to the given level.
pub fn drive(p: &mut OutPin, high: bool)
    ensures
        final(p).levels() == old(p).levels().push(high),
{
    if high {
        drive_high(p);
    } else {
        drive_low(p);
    }
}

/// The serial device together with the data/command line, with the record of
/// every transfer and every configuration attempt.
pub struct Bus {
    dev: spidev::Spidev,
    dc: OutPin,
    writes: Ghost<Seq<Transfer>>,
    outcomes: Ghost<Seq<bool>>,
    configs: Ghost<Seq<SpiSettings>>,
}

impl Bus {
    /// Every transfer issued, with the data/command level it went out under.
    pub closed spec fn writes(&self) -> Seq<Transfer> {
        self.writes@
    }

    /// Whether each transfer succeeded, in the order of `writes`.
    pub closed spec fn outcomes(&self) -> Seq<bool> {
        self.outcomes@
    }

    /// Every configuration attempted, in order.
    pub closed spec fn configs(&self) -> Seq<SpiSettings> {
        self.configs@
    }

    /// The data/command line.
    pub closed spec fn dc(&self) -> OutPin {
        self.dc
    }

    /// Pairs a freshly opened device with its data/command line.
    pub fn new(dev: spidev::Spidev, dc: OutPin) -> (b: Self)
        ensures
            b.writes() == Seq::<Transfer>::empty(),
            b.outcomes() == Seq::<bool>::empty(),
            b.configs() == Seq::<SpiSettings>::empty(),
            b.dc() == dc,
    {
        Bus { dev, dc, writes: Ghost(Seq::empty()), outcomes: Ghost(Seq::empty()), configs: Ghost(Seq::empty()) }
    }

    /// Drives the data/command line: high for data, low for a command.
    pub fn set_mode(&mut self, is_data: bool)
        ensures
            final(self).dc().levels() == old(self).dc().levels().push(is_data),
            final(self).writes() == old(self).writes(),
            final(self).outcomes() == old(self).outcomes(),
            final(self).configs() == old(self).configs(),
    {
        drive(&mut self.dc, is_data);
    }

    /// Drives the data/command line outside a transfer.
    pub fn dc_pin(&mut self) -> (r: &mut OutPin)
        ensures
            *r == old(self).dc(),
            final(self).dc() == *final(r),
            final(self).writes() == old(self).writes(),
            final(self).outcomes() == old(self).outcomes(),
            final(self).configs() == old(self).configs(),
    {
        &mut self.dc
    }
}

/// Relies on spidev::Spidev::transfer with a write-only transfer of
/// `data[start..end]`: the bytes are clocked out under the data/command level in
/// force, which the caller must have driven; `false` when the transfer failed.
#[verifier::external_body]
pub fn spi_write(bus: &mut Bus, data: &[u8], start: usize, end: usize) -> (ok: bool)
    requires
        start <= end <= data@.len(),
        old(bus).dc().levels().len() > 0,
    ensures
        final(bus).writes() == old(bus).writes().push((old(bus).dc().is_high(), data@.subrange(start as int, end as int))),
        final(bus).outcomes() == old(bus).outcomes().push(ok),
        final(bus).configs() == old(bus).configs(),
        final(bus).dc() == old(bus).dc(),
{
    let mut transfer = spidev::SpidevTransfer::write(&data[start..end]);
    bus.dev.transfer(&mut transfer).is_ok()
}

/// Relies on spidev::Spidev::configure with word size, clock, bit order and
/// mode taken from `s`; `false` when the device refused them.
#[verifier::external_body]
pub fn configure_spi(bus: &mut Bus, s: SpiSettings) -> (ok: bool)
    ensures
        final(bus).configs() == old(bus).configs().push(s),
        final(bus).writes() == old(bus).writes(),
        final(bus).outcomes() == old(bus).outcomes(),
        final(bus).dc() == old(bus).dc(),
{
    let opts = spidev::SpidevOptions::new()
        .bits_per_word(s.bits_per_word)
        .max_speed_hz(s.max_speed_hz)
        .lsb_first(s.lsb_first)
        .mode(spidev::SpiModeFlags::from_bits_truncate(s.mode as u32))
        .build();
    bus.dev.configure(&opts).is_ok()
}

/// Relies on spidev::Spidev::open on `/dev/spidev<bus>.<dev>`; `None` when the
/// device cannot be opened.
#[verifier::external_body]
pub(crate) fn open_spi(bus: u8, dev: u8) -> (r: Option<spidev::Spidev>) {
    spidev::Spidev::open(format!("/dev/spidev{}.{}", bus, dev)).ok()
}

/// Relies on rppal::gpio::Gpio::new; `None` when the GPIO peripheral cannot be
/// opened.
#[verifier::external_body]
pub(crate) fn open_gpio() -> (r: Option<rppal::gpio::Gpio>) {
    rppal::gpio::Gpio::new().ok()
}

/// Relies on rppal::gpio::Gpio::get, with the pin turned into an output by
/// `Pin::into_output`; `None` when the pin is unavailable.
#[verifier::external_body]
pub(crate) fn output_pin(gpio: &rppal::gpio::Gpio, n: u8) -> (r: Option<rppal::gpio::OutputPin>) {
    gpio.get(n).ok().map(|p| p.into_output())
}

} // verus!
