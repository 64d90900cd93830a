//! Driver for ST7789-class LCD controllers driven over a command/data serial link.

pub mod color;
pub mod conv;
pub mod canvas;
pub mod protocol;
pub mod script;
pub mod transport;

use vstd::prelude::*;
use crate::canvas::Canvas;
use crate::color::Color;
use crate::conv::{encoded, encode_rgb565};
use crate::protocol::{
    chunks, transfers, wire_of, lemma_wire_push, window_messages, window_bounds, fits_i16,
    fill_seq, fill_bytes, window, coord_bytes, chunk_bounds, bound_at, chunk_count, lemma_chunk_count_bounds, command, DEFAULT_CHUNK, CASET, RASET, RAMWR,
};
use crate::script::{Action, Line, init_script, reset_script, cleanup_script, init_steps, reset_steps, cleanup_steps};
use crate::canvas::{Image, filled, overlay_of, unchanged_outside};
use crate::color::{red_of, green_of, blue_of};
use crate::transport::{
    Transfer, Bus, OutPin, SpiSettings, controller_settings, spi_settings, drive, open_spi, configure_spi, open_gpio,
    output_pin, spi_write,
};

verus! {

/// Which way the data/command line is driven for a transfer.
#[derive(PartialEq, Eq, Structural, Clone, Copy, Debug)]
pub enum DataType {
    Data,
    Command,
}

/// Why a driver could not be brought up.
#[derive(PartialEq, Eq, Structural, Clone, Copy, Debug)]
pub enum DriverError {
    /// The serial device or a digital line could not be opened.
    TransportOpenError,
    /// The serial device refused the speed or mode.
    TransportConfigError,
}

/// Device settings, fixed before the panel is initialised.
#[derive(PartialEq, Eq, Structural, Clone, Copy, Debug)]
pub struct Config {
    pub width: i16,
    pub height: i16,
    /// Rotation in degrees; kept for callers, not applied by the driver.
    pub rotation: i16,
    pub offset_x: i16,
    pub offset_y: i16,
    pub invert: bool,
    pub chunk_size: Option<usize>,
}

/// The transfer size a configuration uses.
pub open spec fn step_of(c: Config) -> nat {
    match c.chunk_size {
        Some(s) => s as nat,
        None => DEFAULT_CHUNK as nat,
    }
}

/// The window that a full repaint addresses under a configuration.
pub open spec fn full_window(c: Config) -> (int, int, int, int) {
    window_bounds(c.width, c.height, c.offset_x, c.offset_y, None, None, None, None)
}

/// A configuration the driver can run with: a non-empty panel whose full
/// window, offset included, fits 16-bit coordinates, and a non-zero chunk size.
pub open spec fn config_ok(c: Config) -> bool {
    &&& 0 < c.width
    &&& 0 < c.height
    &&& fits_i16(full_window(c))
    &&& step_of(c) > 0
}

/// The window messages for bounds given as plain integers.
pub open spec fn window_as_i16(b: (int, int, int, int)) -> Seq<Transfer> {
    window_messages(b.0 as i16, b.1 as i16, b.2 as i16, b.3 as i16)
}

/// One message per byte, each with its line level.
pub open spec fn byte_messages(items: Seq<(bool, u8)>) -> Seq<Transfer> {
    items.map_values(|p: (bool, u8)| (p.0, seq![p.1]))
}

/// The first byte of each piece of `cs` whose transfer failed (`oks` holds
/// the outcome of each), in order.
pub open spec fn failed_firsts(cs: Seq<Seq<u8>>, oks: Seq<bool>) -> Seq<u8>
    decreases cs.len(),
{
    if cs.len() == 0 {
        seq![]
    } else if oks.last() {
        failed_firsts(cs.drop_last(), oks.drop_last())
    } else {
        failed_firsts(cs.drop_last(), oks.drop_last()).push(cs.last()[0])
    }
}

/// Nothing was sent and no line or serial setting changed between `a` and `b`.
pub open spec fn lines_kept(a: ST7789, b: ST7789) -> bool {
    &&& b.wire() == a.wire()
    &&& b.spi_configs() == a.spi_configs()
    &&& b.dc_levels() == a.dc_levels()
    &&& b.bl_levels() == a.bl_levels()
    &&& b.rst_levels() == a.rst_levels()
}

/// The transfers one step issues: a command or data byte, or none.
pub open spec fn step_wire(a: Action, k: nat) -> Seq<Transfer> {
    match a {
        Action::Command(c) => transfers(false, seq![c], k),
        Action::Data(d) => transfers(true, seq![d], k),
        _ => seq![],
    }
}

/// The error, if any, that bringing up the transport ends in: failing to open
/// the device or a line is an open error, a refused configuration a
/// configuration error.
pub fn bring_up_error(opened: bool, configured: bool) -> (r: Option<DriverError>)
    ensures
        !opened ==> r == Some(DriverError::TransportOpenError),
        opened && !configured ==> r == Some(DriverError::TransportConfigError),
        opened && configured ==> r is None,
{
    if !opened {
        Some(DriverError::TransportOpenError)
    } else if !configured {
        Some(DriverError::TransportConfigError)
    } else {
        None
    }
}

/// A driver for one panel on one serial device.
pub struct ST7789 {
    gpio: rppal::gpio::Gpio,
    spi: Bus,
    cs: OutPin,
    bl: OutPin,
    rst: Option<OutPin>,
    config: Config,
    display_buffer: Canvas,
}

impl ST7789 {
    /// The settings in force.
    pub closed spec fn config(&self) -> Config {
        self.config
    }

    /// Every transfer issued so far, in order, with the data/command level it
    /// went out under.
    pub closed spec fn wire(&self) -> Seq<Transfer> {
        self.spi.writes()
    }

    /// Whether each transfer in `wire` succeeded.
    pub closed spec fn outcomes(&self) -> Seq<bool> {
        self.spi.outcomes()
    }

    /// Every serial configuration attempted.
    pub closed spec fn spi_configs(&self) -> Seq<SpiSettings> {
        self.spi.configs()
    }

    /// Every level driven on the data/command line.
    pub closed spec fn dc_levels(&self) -> Seq<bool> {
        self.spi.dc().levels()
    }

    /// Every level driven on the backlight line.
    pub closed spec fn bl_levels(&self) -> Seq<bool> {
        self.bl.levels()
    }

    /// Every level driven on the reset line; empty when none is wired.
    pub closed spec fn rst_levels(&self) -> Seq<bool> {
        match self.rst {
            Some(p) => p.levels(),
            None => seq![],
        }
    }

    /// The off-screen pixel buffer.
    pub closed spec fn canvas(&self) -> Canvas {
        self.display_buffer
    }

    /// Whether a reset line is wired.
    pub closed spec fn has_reset(&self) -> bool {
        self.rst is Some
    }

    /// The configuration is usable and the canvas has the panel's size.
    pub closed spec fn wf(&self) -> bool {
        &&& config_ok(self.config)
        &&& self.display_buffer.w() == self.config.width
        &&& self.display_buffer.h() == self.config.height
    }

    /// Opens `/dev/spidev<spi_no>.<dev_no>` and the chip-select, data/command and
    /// backlight lines, configures the device (see `controller_settings`), and
    /// sets up a black 320×170 panel with no offset, no rotation and inversion on.
    /// Which error a failure gives is `bring_up_error`'s.
    pub fn new(spi_no: u8, dev_no: u8, cs_no: u8, dc_no: u8, bl_no: u8, speed_hz: u32) -> (r: Result<Self, DriverError>)
        ensures
            r is Ok ==> {
                let d = r->Ok_0;
                &&& d.wf()
                &&& d.wire() == Seq::<Transfer>::empty()
                &&& d.spi_configs() == seq![controller_settings(speed_hz)]
                &&& d.dc_levels() == Seq::<bool>::empty()
                &&& d.bl_levels() == Seq::<bool>::empty()
                &&& !d.has_reset()
                &&& d.config() == (Config { width: 320, height: 170, rotation: 0, offset_x: 0, offset_y: 0,
                    invert: true, chunk_size: None })
                &&& d.canvas().bytes() == Seq::new((3 * 320 * 170) as nat, |k: int| 0u8)
            },
            r is Err ==> r->Err_0 == DriverError::TransportOpenError || r->Err_0 == DriverError::TransportConfigError,
    {
        let dev = open_spi(spi_no, dev_no);
        let gpio = open_gpio();
        let (dev, gpio) = match (dev, gpio) {
            (Some(d), Some(g)) => (d, g),
            _ => return Err(bring_up_error(false, false).unwrap()),
        };
        let pins = (output_pin(&gpio, cs_no), output_pin(&gpio, dc_no), output_pin(&gpio, bl_no));
        let (cs, dc, bl) = match pins {
            (Some(c), Some(d), Some(b)) => (OutPin::new(c), OutPin::new(d), OutPin::new(b)),
            _ => return Err(bring_up_error(false, false).unwrap()),
        };
        let mut spi = Bus::new(dev, dc);
        let configured = configure_spi(&mut spi, spi_settings(speed_hz));
        match bring_up_error(true, configured) {
            Some(e) => return Err(e),
            None => {},
        }
        let config = Config { width: 320, height: 170, rotation: 0, offset_x: 0, offset_y: 0, invert: true, chunk_size: None };
        Ok(ST7789 {
            gpio,
            spi,
            cs,
            bl,
            rst: None,
            config,
            display_buffer: Canvas::new(320, 170),
        })
    }

    /// Sends `data` with the data/command line set for `data_type`, in pieces of
    /// at most the configured chunk size. A piece that fails does not stop the
    /// rest: every piece is attempted. Returns the first byte of each piece
    /// that failed, in order, for the caller to report.
    pub fn send(&mut self, data: &[u8], data_type: DataType) -> (failed: Vec<u8>)
        requires
            old(self).wf(),
        ensures
            final(self).wf(),
            final(self).config() == old(self).config(),
            final(self).canvas() == old(self).canvas(),
            final(self).has_reset() == old(self).has_reset(),
            final(self).wire() == old(self).wire() + transfers(data_type == DataType::Data, data@, step_of(old(self).config())),
            failed@.len() <= chunks(data@, step_of(old(self).config())).len(),
            final(self).outcomes().len() == old(self).outcomes().len() + chunks(data@, step_of(old(self).config())).len(),
            final(self).outcomes().take(old(self).outcomes().len() as int) == old(self).outcomes(),
            failed@ == failed_firsts(chunks(data@, step_of(old(self).config())),
                final(self).outcomes().skip(old(self).outcomes().len() as int)),
            final(self).dc_levels() == old(self).dc_levels().push(data_type == DataType::Data),
            final(self).bl_levels() == old(self).bl_levels(),
            final(self).rst_levels() == old(self).rst_levels(),
            final(self).spi_configs() == old(self).spi_configs(),
    {
        let is_data = match data_type {
            DataType::Command => false,
            DataType::Data => true,
        };
        self.spi.set_mode(is_data);
        let step: usize = match self.config.chunk_size {
            Some(s) => s,
            None => DEFAULT_CHUNK,
        };
        let ghost k = step as nat;
        let ghost start_wire = old(self).spi.writes();
        let len = data.len();
        let bounds = chunk_bounds(len, step);
        let mut i: usize = 0;
        let mut pos: usize = 0;
        let mut failed: Vec<u8> = Vec::new();
        let ghost mut oks: Seq<bool> = seq![];
        let ghost mut done: Seq<Seq<u8>> = seq![];
        assert(data@.skip(0) =~= data@);
        assert(done + chunks(data@, k) =~= chunks(data@, k));
        assert(done.map_values(|c: Seq<u8>| (is_data, c)) =~= seq![]);
        assert(start_wire + seq![] =~= start_wire);
        proof {
            lemma_chunk_count_bounds(0, step as int, len as int);
            assert(0 * step == 0) by (nonlinear_arith);
        }
        while i < bounds.len()
            invariant
                len == data@.len(),
                pos <= len,
                i <= bounds@.len(),
                bounds@.len() == chunk_count(len as int, step as int),
                forall|j: int| 0 <= j < bounds@.len() ==> (bounds@[j].0 as int, bounds@[j].1 as int) == #[trigger] bound_at(j, step as int, len as int),
                i < bounds@.len() ==> pos == i * step,
                i == bounds@.len() ==> pos == len,
                k == step as nat,
                step > 0,
                self.wf(),
                self.config == old(self).config,
                self.display_buffer == old(self).display_buffer,
                self.rst is Some == old(self).rst is Some,
                k == step_of(self.config),
                done + chunks(data@.skip(pos as int), k) == chunks(data@, k),
                self.spi.writes() == start_wire + done.map_values(|c: Seq<u8>| (is_data, c)),
                self.spi.dc().levels() == old(self).spi.dc().levels().push(is_data),
                self.spi.configs() == old(self).spi.configs(),
                self.bl == old(self).bl,
                self.rst == old(self).rst,
                done.len() == i,
                failed@.len() <= i,
                oks.len() == done.len(),
                self.spi.outcomes() == old(self).spi.outcomes() + oks,
                failed@ == failed_firsts(done, oks),
            decreases bounds@.len() - i,
        {
            let start = pos;
            let end = bounds[i].1;
            proof {
                let ii = i as int;
                let kk = step as int;
                assert((ii + 1) * kk == ii * kk + kk) by (nonlinear_arith);
                lemma_chunk_count_bounds(ii, kk, len as int);
                lemma_chunk_count_bounds(ii + 1, kk, len as int);
                assert(bound_at(ii, kk, len as int) == (bounds@[ii].0 as int, bounds@[ii].1 as int));
                assert(end == if len - start <= step { len } else { (start + step) as usize });
                if ii + 1 < bounds@.len() {
                    assert(bound_at(ii + 1, kk, len as int) == (bounds@[ii + 1].0 as int, bounds@[ii + 1].1 as int));
                    assert(end == (ii + 1) * kk);
                } else {
                    assert(end == len);
                }
            }
            let ok = spi_write(&mut self.spi, data, start, end);
            let ghost old_failed = failed@;
            let ghost old_done = done;
            let ghost old_oks = oks;
            if !ok {
                failed.push(data[start]);
            }
            proof {
                let rest = data@.skip(start as int);
                let piece = data@.subrange(start as int, end as int);
                assert(piece[0] == data@[start as int]);
                assert(rest.len() > 0);
                if rest.len() <= k {
                    assert(piece =~= rest);
                    assert(data@.skip(end as int) =~= seq![]);
                    assert(chunks(rest, k) =~= seq![piece]);
                } else {
                    assert(piece =~= rest.take(k as int));
                    assert(data@.skip(end as int) =~= rest.skip(k as int));
                }
                assert(chunks(rest, k) =~= seq![piece] + chunks(data@.skip(end as int), k));
                assert(done.push(piece) + chunks(data@.skip(end as int), k) =~= done + chunks(rest, k));
                assert(done.push(piece).map_values(|c: Seq<u8>| (is_data, c))
                    =~= done.map_values(|c: Seq<u8>| (is_data, c)).push((is_data, piece)));
                done = done.push(piece);
                oks = oks.push(ok);
                assert(done.drop_last() =~= old_done);
                assert(oks.drop_last() =~= old_oks);
                assert(done.last() == piece);
                assert(oks.last() == ok);
                if ok {
                    assert(failed@ == old_failed);
                } else {
                    assert(failed@ =~= old_failed.push(piece[0]));
                }
                assert(self.spi.outcomes() =~= old(self).spi.outcomes() + oks);
            }
            pos = end;
            i = i + 1;
        }
        proof {
            crate::protocol::lemma_chunks_cover(data@, k);
            assert(data@.skip(len as int) =~= seq![]);
            assert(done + seq![] =~= done);
            assert(done == chunks(data@, k));
            assert(self.spi.outcomes().skip(old(self).spi.outcomes().len() as int) =~= oks);
            assert(self.spi.outcomes().take(old(self).spi.outcomes().len() as int) =~= old(self).spi.outcomes());

        }
        failed
    }

    /// Sends command bytes; see `send`.
    pub fn send_cmds(&mut self, data: &[u8]) -> (failed: Vec<u8>)
        requires
            old(self).wf(),
        ensures
            final(self).wf(),
            final(self).config() == old(self).config(),
            final(self).canvas() == old(self).canvas(),
            final(self).has_reset() == old(self).has_reset(),
            final(self).wire() == old(self).wire() + transfers(false, data@, step_of(old(self).config())),
            final(self).dc_levels() == old(self).dc_levels().push(false),
            final(self).bl_levels() == old(self).bl_levels(),
            final(self).rst_levels() == old(self).rst_levels(),
            final(self).spi_configs() == old(self).spi_configs(),
            final(self).outcomes().len() == old(self).outcomes().len() + chunks(data@, step_of(old(self).config())).len(),
            final(self).outcomes().take(old(self).outcomes().len() as int) == old(self).outcomes(),
            failed@ == failed_firsts(chunks(data@, step_of(old(self).config())),
                final(self).outcomes().skip(old(self).outcomes().len() as int)),
    {
        self.send(data, DataType::Command)
    }

    /// Sends data bytes; see `send`.
    pub fn send_datas(&mut self, data: &[u8]) -> (failed: Vec<u8>)
        requires
            old(self).wf(),
        ensures
            final(self).wf(),
            final(self).config() == old(self).config(),
            final(self).canvas() == old(self).canvas(),
            final(self).has_reset() == old(self).has_reset(),
            final(self).wire() == old(self).wire() + transfers(true, data@, step_of(old(self).config())),
            final(self).dc_levels() == old(self).dc_levels().push(true),
            final(self).bl_levels() == old(self).bl_levels(),
            final(self).rst_levels() == old(self).rst_levels(),
            final(self).spi_configs() == old(self).spi_configs(),
            final(self).outcomes().len() == old(self).outcomes().len() + chunks(data@, step_of(old(self).config())).len(),
            final(self).outcomes().take(old(self).outcomes().len() as int) == old(self).outcomes(),
            failed@ == failed_firsts(chunks(data@, step_of(old(self).config())),
                final(self).outcomes().skip(old(self).outcomes().len() as int)),
    {
        self.send(data, DataType::Data)
    }

    /// Sends one command byte.
    pub fn send_cmd(&mut self, data: u8) -> (failed: Vec<u8>)
        requires
            old(self).wf(),
        ensures
            final(self).wf(),
            final(self).config() == old(self).config(),
            final(self).canvas() == old(self).canvas(),
            final(self).has_reset() == old(self).has_reset(),
            final(self).wire() == old(self).wire() + transfers(false, seq![data], step_of(old(self).config())),
            final(self).dc_levels() == old(self).dc_levels().push(false),
            final(self).bl_levels() == old(self).bl_levels(),
            final(self).rst_levels() == old(self).rst_levels(),
            final(self).spi_configs() == old(self).spi_configs(),
            final(self).outcomes().len() == old(self).outcomes().len() + chunks(seq![data], step_of(old(self).config())).len(),
            final(self).outcomes().take(old(self).outcomes().len() as int) == old(self).outcomes(),
            failed@ == failed_firsts(chunks(seq![data], step_of(old(self).config())),
                final(self).outcomes().skip(old(self).outcomes().len() as int)),
    {
        let buf = [data];
        assert(buf@ =~= seq![data]);
        self.send_cmds(&buf)
    }

    /// Sends one data byte.
    pub fn send_data(&mut self, data: u8) -> (failed: Vec<u8>)
        requires
            old(self).wf(),
        ensures
            final(self).wf(),
            final(self).config() == old(self).config(),
            final(self).canvas() == old(self).canvas(),
            final(self).has_reset() == old(self).has_reset(),
            final(self).wire() == old(self).wire() + transfers(true, seq![data], step_of(old(self).config())),
            final(self).dc_levels() == old(self).dc_levels().push(true),
            final(self).bl_levels() == old(self).bl_levels(),
            final(self).rst_levels() == old(self).rst_levels(),
            final(self).spi_configs() == old(self).spi_configs(),
            final(self).outcomes().len() == old(self).outcomes().len() + chunks(seq![data], step_of(old(self).config())).len(),
            final(self).outcomes().take(old(self).outcomes().len() as int) == old(self).outcomes(),
            failed@ == failed_firsts(chunks(seq![data], step_of(old(self).config())),
                final(self).outcomes().skip(old(self).outcomes().len() as int)),
    {
        let buf = [data];
        assert(buf@ =~= seq![data]);
        self.send_datas(&buf)
    }

    /// Sends each byte as a message of its own, with its line level.
    fn send_each(&mut self, items: &[(bool, u8)])
        requires
            old(self).wf(),
        ensures
            final(self).wf(),
            final(self).config() == old(self).config(),
            final(self).canvas() == old(self).canvas(),
            final(self).has_reset() == old(self).has_reset(),
            final(self).wire() == old(self).wire() + wire_of(byte_messages(items@), step_of(old(self).config())),
    {
        let ghost k = step_of(self.config);
        let mut i: usize = 0;
        while i < items.len()
            invariant
                i <= items@.len(),
                self.wf(),
                self.config == old(self).config,
                self.display_buffer == old(self).display_buffer,
                self.rst is Some == old(self).rst is Some,
                k == step_of(self.config),
                self.spi.writes() == old(self).spi.writes() + wire_of(byte_messages(items@.take(i as int)), k),
            decreases items@.len() - i,
        {
            let (is_data, b) = items[i];
            if is_data {
                self.send_data(b);
            } else {
                self.send_cmd(b);
            }
            proof {
                let before = byte_messages(items@.take(i as int));
                assert(items@.take(i + 1) =~= items@.take(i as int).push((is_data, b)));
                assert(byte_messages(items@.take(i + 1)) =~= before.push((is_data, seq![b])));
                lemma_wire_push(before, (is_data, seq![b]), k);
                let t = transfers(is_data, seq![b], k);
                assert(old(self).spi.writes() + wire_of(before, k) + t =~= old(self).spi.writes() + (wire_of(before, k) + t));
            }
            i = i + 1;
        }
        assert(items@.take(items@.len() as int) =~= items@);
    }

    /// Sets the addressing window: omitted bounds default to the whole panel,
    /// the ends given are exclusive, and the offset is added to all four. Sends
    /// column-address set with four bytes, then row-address set with four.
    pub fn set_window(&mut self, x1_o: Option<i16>, y1_o: Option<i16>, x2_o: Option<i16>, y2_o: Option<i16>)
        requires
            old(self).wf(),
            fits_i16(window_bounds(old(self).config().width, old(self).config().height, old(self).config().offset_x,
                old(self).config().offset_y, x1_o, y1_o, x2_o, y2_o)),
        ensures
            final(self).wf(),
            final(self).config() == old(self).config(),
            final(self).canvas() == old(self).canvas(),
            final(self).has_reset() == old(self).has_reset(),
            final(self).wire() == old(self).wire() + wire_of(window_as_i16(window_bounds(old(self).config().width,
                old(self).config().height, old(self).config().offset_x, old(self).config().offset_y,
                x1_o, y1_o, x2_o, y2_o)), step_of(old(self).config())),
    {
        let c = self.config;
        let (x1, y1, x2, y2) = window(c.width, c.height, c.offset_x, c.offset_y, x1_o, y1_o, x2_o, y2_o);
        let xs = coord_bytes(x1, x2);
        let ys = coord_bytes(y1, y2);
        let items = [
            (false, CASET), (true, xs[0]), (true, xs[1]), (true, xs[2]), (true, xs[3]),
            (false, RASET), (true, ys[0]), (true, ys[1]), (true, ys[2]), (true, ys[3]),
        ];
        assert(byte_messages(items@) =~= window_messages(x1, y1, x2, y2));
        self.send_each(&items);
    }

    /// Repaints the whole panel from the canvas: full window, memory write, then
    /// the canvas encoded as big-endian 5-6-5 pixels. Returns the first byte of
    /// each piece of pixel data whose transfer failed, in order.
    pub fn display(&mut self) -> (failed: Vec<u8>)
        requires
            old(self).wf(),
        ensures
            final(self).wf(),
            final(self).config() == old(self).config(),
            final(self).canvas() == old(self).canvas(),
            final(self).has_reset() == old(self).has_reset(),
            final(self).wire() == old(self).wire() + wire_of(window_as_i16(full_window(old(self).config()))
                + seq![command(RAMWR), (true, encoded(old(self).canvas().bytes()))], step_of(old(self).config())),
            failed@ == failed_firsts(chunks(encoded(old(self).canvas().bytes()), step_of(old(self).config())),
                final(self).outcomes().skip(final(self).outcomes().len()
                    - chunks(encoded(old(self).canvas().bytes()), step_of(old(self).config())).len())),
    {
        let ghost k = step_of(self.config);
        self.set_window(None, None, None, None);
        let ghost w0 = self.spi.writes();
        let raw = self.display_buffer.as_bytes();
        proof {
            let a = self.display_buffer.w();
            let b = self.display_buffer.h();
            let n = a * b;
            assert(3 * a * b == n * 3) by (nonlinear_arith) requires n == a * b;
            vstd::arithmetic::div_mod::lemma_mod_multiples_basic(n, 3);
        }
        let bytes = match encode_rgb565(raw) {
            Ok(b) => b,
            Err(_) => Vec::new(),
        };
        self.send_cmd(RAMWR);
        let failed = self.send_datas(bytes.as_slice());
        proof {
            let w = window_as_i16(full_window(self.config));
            lemma_wire_push(w, command(RAMWR), k);
            let e = (true, encoded(self.display_buffer.bytes()));
            lemma_wire_push(w.push(command(RAMWR)), e, k);
            assert(w + seq![command(RAMWR), e] =~= w.push(command(RAMWR)).push(e));
            let t1 = transfers(false, seq![RAMWR], k);
            let t2 = transfers(true, e.1, k);
            assert(old(self).spi.writes() + wire_of(w, k) + t1 + t2 =~= old(self).spi.writes() + (wire_of(w, k) + t1 + t2));
        }
        failed
    }

    /// Fills the whole panel with one packed color straight on the device,
    /// leaving the canvas as it is: full window, memory write, then
    /// `width * height` repetitions of the color, big-endian. Returns the first
    /// byte of each piece of pixel data whose transfer failed, in order.
    pub fn clear(&mut self, col: u16) -> (failed: Vec<u8>)
        requires
            old(self).wf(),
        ensures
            final(self).wf(),
            final(self).config() == old(self).config(),
            final(self).canvas() == old(self).canvas(),
            final(self).has_reset() == old(self).has_reset(),
            final(self).wire() == old(self).wire() + wire_of(window_as_i16(full_window(old(self).config()))
                + seq![command(RAMWR), (true, fill_seq(col, (old(self).config().width * old(self).config().height) as nat))],
                step_of(old(self).config())),
            failed@ == failed_firsts(chunks(fill_seq(col, (old(self).config().width * old(self).config().height) as nat),
                step_of(old(self).config())), final(self).outcomes().skip(final(self).outcomes().len()
                    - chunks(fill_seq(col, (old(self).config().width * old(self).config().height) as nat),
                        step_of(old(self).config())).len())),
    {
        let ghost k = step_of(self.config);
        let w = self.config.width as usize;
        let h = self.config.height as usize;
        assert(2 * (w * h) <= 2 * 32767 * 32767) by (nonlinear_arith)
            requires w <= 32767, h <= 32767;
        let pixels = fill_bytes(col, w * h);
        self.set_window(None, None, None, None);
        self.send_cmd(RAMWR);
        let failed = self.send_datas(pixels.as_slice());
        proof {
            let win = window_as_i16(full_window(self.config));
            let fill = fill_seq(col, (self.config.width * self.config.height) as nat);
            lemma_wire_push(win, command(RAMWR), k);
            lemma_wire_push(win.push(command(RAMWR)), (true, fill), k);
            assert(win + seq![command(RAMWR), (true, fill)] =~= win.push(command(RAMWR)).push((true, fill)));
            let t1 = transfers(false, seq![RAMWR], k);
            let t2 = transfers(true, fill, k);
            assert(old(self).spi.writes() + wire_of(win, k) + t1 + t2 =~= old(self).spi.writes() + (wire_of(win, k) + t1 + t2));
        }
        failed
    }

    /// The reset pulse to run: high, low, high with 10 ms holds, or nothing
    /// when no reset line is wired (the caller may warn).
    pub fn reset(&self) -> (r: Vec<Action>)
        ensures
            r@ == reset_script(self.has_reset()),
    {
        reset_steps(self.rst.is_some())
    }

    /// The bring-up to run after the backlight is on: reset pulse, software
    /// reset, the register settings, inversion per the configuration, sleep-out
    /// and display-on.
    pub fn init(&self) -> (r: Vec<Action>)
        ensures
            r@ == init_script(self.has_reset(), self.config().invert),
    {
        init_steps(self.rst.is_some(), self.config.invert)
    }

    /// The shutdown to run: leaves the panel blank but powered when a reset
    /// line is wired, and does nothing otherwise.
    pub fn cleanup(&self) -> (r: Vec<Action>)
        ensures
            r@ == cleanup_script(self.has_reset()),
    {
        cleanup_steps(self.rst.is_some())
    }

    /// Carries out one step; returns how long to hold before the next one, in
    /// milliseconds.
    pub fn perform(&mut self, a: Action) -> (ms: u32)
        requires
            old(self).wf(),
        ensures
            final(self).wf(),
            final(self).config() == old(self).config(),
            final(self).canvas() == old(self).canvas(),
            final(self).has_reset() == old(self).has_reset(),
            final(self).wire() == old(self).wire() + step_wire(a, step_of(old(self).config())),
            ms == (match a { Action::Wait(m) => m, _ => 0 }),
            a matches Action::Drive(Line::Reset, h) ==> final(self).rst_levels() == if old(self).has_reset() {
                old(self).rst_levels().push(h) } else { old(self).rst_levels() },
            a matches Action::Drive(Line::DataCommand, h) ==> final(self).dc_levels() == old(self).dc_levels().push(h),
            a matches Action::Drive(Line::Backlight, h) ==> final(self).bl_levels() == old(self).bl_levels().push(h),
            final(self).spi_configs() == old(self).spi_configs(),
            a is Command ==> final(self).dc_levels() == old(self).dc_levels().push(false),
            a is Data ==> final(self).dc_levels() == old(self).dc_levels().push(true),
            (a is Wait || a matches Action::Drive(Line::Reset, _) || a matches Action::Drive(Line::Backlight, _))
                ==> final(self).dc_levels() == old(self).dc_levels(),
            !(a matches Action::Drive(Line::Backlight, _)) ==> final(self).bl_levels() == old(self).bl_levels(),
            !(a matches Action::Drive(Line::Reset, _)) ==> final(self).rst_levels() == old(self).rst_levels(),
    {
        match a {
            Action::Drive(line, high) => {
                match line {
                    Line::Reset => {
                        match &mut self.rst {
                            Some(p) => drive(p, high),
                            None => {},
                        }
                    },
                    Line::DataCommand => drive(self.spi.dc_pin(), high),
                    Line::Backlight => drive(&mut self.bl, high),
                }
                assert(self.spi.writes() + seq![] =~= self.spi.writes());
                0
            },
            Action::Command(c) => {
                self.send_cmd(c);
                0
            },
            Action::Data(d) => {
                self.send_data(d);
                0
            },
            Action::Wait(m) => {
                assert(self.spi.writes() + seq![] =~= self.spi.writes());
                m
            },
        }
    }

    /// Wires a reset line on pin `rst_no`.
    /// Configuration is fixed before `init` runs; changing it afterwards is a
    /// usage error.
    pub fn with_reset(self, rst_no: u8) -> (r: Result<Self, DriverError>)
        requires
            self.wf(),
        ensures
            r is Ok ==> r->Ok_0.wf() && r->Ok_0.has_reset() && r->Ok_0.config() == self.config()
                && r->Ok_0.rst_levels() == Seq::<bool>::empty()
                && r->Ok_0.wire() == self.wire() && r->Ok_0.canvas() == self.canvas(),
            r is Err ==> r->Err_0 == DriverError::TransportOpenError,
    {
        let mut me = self;
        match output_pin(&me.gpio, rst_no) {
            Some(p) => {
                me.rst = Some(OutPin::new(p));
                Ok(me)
            },
            None => Err(DriverError::TransportOpenError),
        }
    }

    /// Sets the panel's size; the canvas is made anew at that size, black.
    /// Configuration is fixed before `init` runs; changing it afterwards is a
    /// usage error.
    pub fn with_dimensions(self, width: i16, height: i16) -> (r: Self)
        requires
            self.wf(),
            config_ok(Config { width, height, ..self.config() }),
        ensures
            r.wf(),
            r.config() == (Config { width, height, ..self.config() }),
            r.has_reset() == self.has_reset(),
            r.wire() == self.wire(),
            r.canvas().bytes() == Seq::new((3 * width * height) as nat, |k: int| 0u8),
    {
        let mut me = self;
        me.config.width = width;
        me.config.height = height;
        me.display_buffer = Canvas::new(width as u32, height as u32);
        me
    }

    /// Records the rotation in degrees.
    /// Configuration is fixed before `init` runs; changing it afterwards is a
    /// usage error.
    pub fn with_rotation(self, rot: i16) -> (r: Self)
        requires
            self.wf(),
        ensures
            r.wf(),
            r.config() == (Config { rotation: rot, ..self.config() }),
            r.has_reset() == self.has_reset(),
            r.wire() == self.wire(),
            r.canvas() == self.canvas(),
    {
        let mut me = self;
        me.config.rotation = rot;
        me
    }

    /// Sets the offset added to every addressing window.
    /// Configuration is fixed before `init` runs; changing it afterwards is a
    /// usage error.
    pub fn with_offset(self, off_x: i16, off_y: i16) -> (r: Self)
        requires
            self.wf(),
            config_ok(Config { offset_x: off_x, offset_y: off_y, ..self.config() }),
        ensures
            r.wf(),
            r.config() == (Config { offset_x: off_x, offset_y: off_y, ..self.config() }),
            r.has_reset() == self.has_reset(),
            r.wire() == self.wire(),
            r.canvas() == self.canvas(),
    {
        let mut me = self;
        me.config.offset_x = off_x;
        me.config.offset_y = off_y;
        me
    }

    /// Sets the largest transfer; must not be zero.
    /// Configuration is fixed before `init` runs; changing it afterwards is a
    /// usage error.
    pub fn with_chunk_size(self, size: usize) -> (r: Self)
        requires
            self.wf(),
            size > 0,
        ensures
            r.wf(),
            r.config() == (Config { chunk_size: Some(size), ..self.config() }),
            r.has_reset() == self.has_reset(),
            r.wire() == self.wire(),
            r.canvas() == self.canvas(),
    {
        let mut me = self;
        me.config.chunk_size = Some(size);
        me
    }

    /// The backlight line, for a caller that drives it with PWM.
    pub fn backlight(&mut self) -> (r: &mut rppal::gpio::OutputPin)
        requires
            old(self).wf(),
        ensures
            final(self).wf(),
            final(self).config() == old(self).config(),
            final(self).canvas() == old(self).canvas(),
            final(self).has_reset() == old(self).has_reset(),
            final(self).wire() == old(self).wire(),
            final(self).bl_levels() == old(self).bl_levels(),
    {
        self.bl.raw()
    }

    /// The panel's width in pixels.
    pub fn width(&self) -> (r: i16)
        ensures
            r == self.config().width,
    {
        self.config.width
    }

    /// The panel's height in pixels.
    pub fn height(&self) -> (r: i16)
        ensures
            r == self.config().height,
    {
        self.config.height
    }

    /// Blends `img` onto the canvas with its top-left corner at `(pos_x, pos_y)`;
    /// what falls outside is clipped and pixels not under `img` keep their
    /// value. Nothing is sent.
    pub fn draw_image(&mut self, img: &Image, pos_x: i16, pos_y: i16)
        requires
            old(self).wf(),
        ensures
            final(self).wf(),
            final(self).config() == old(self).config(),
            final(self).has_reset() == old(self).has_reset(),
            lines_kept(*old(self), *final(self)),
            final(self).canvas().bytes() == overlay_of(old(self).canvas().bytes(), old(self).config().width as u32,
                old(self).config().height as u32, img.bytes(), img.w(), img.h(), pos_x as i64, pos_y as i64),
            unchanged_outside(old(self).canvas().bytes(), final(self).canvas().bytes(),
                old(self).config().width as int, pos_x as int, pos_y as int, img.w() as int, img.h() as int),
    {
        self.display_buffer.overlay(img, pos_x as i64, pos_y as i64);
    }

    /// Fills the part of the `w`×`h` rectangle at `(x, y)` that lies on the
    /// canvas with a flat color. Nothing is sent.
    pub fn draw_rect(&mut self, x: i32, y: i32, w: u32, h: u32, color: &Color)
        requires
            old(self).wf(),
            0 < w <= i32::MAX,
            0 < h <= i32::MAX,
            x + w <= i32::MAX,
            y + h <= i32::MAX,
        ensures
            final(self).wf(),
            final(self).config() == old(self).config(),
            final(self).has_reset() == old(self).has_reset(),
            lines_kept(*old(self), *final(self)),
            final(self).canvas().bytes() == filled(old(self).canvas().bytes(), old(self).config().width as int,
                x as int, y as int, w as int, h as int,
                red_of(color.hex_value()), green_of(color.hex_value()), blue_of(color.hex_value())),
    {
        self.display_buffer.fill_rect(x, y, w, h, color);
    }

    /// Fills the whole canvas with a flat color. Nothing is sent.
    pub fn draw_clear(&mut self, color: &Color)
        requires
            old(self).wf(),
        ensures
            final(self).wf(),
            final(self).config() == old(self).config(),
            final(self).has_reset() == old(self).has_reset(),
            lines_kept(*old(self), *final(self)),
            final(self).canvas().bytes() == filled(old(self).canvas().bytes(), old(self).config().width as int,
                0, 0, old(self).config().width as int, old(self).config().height as int,
                red_of(color.hex_value()), green_of(color.hex_value()), blue_of(color.hex_value())),
    {
        self.display_buffer.fill(color);
    }

    /// Sets one canvas pixel, as text stamping does for each covered pixel;
    /// a pixel off the canvas is ignored. Nothing is sent.
    pub fn stamp_pixel(&mut self, x: i32, y: i32, color: &Color)
        requires
            old(self).wf(),
        ensures
            final(self).wf(),
            final(self).config() == old(self).config(),
            final(self).has_reset() == old(self).has_reset(),
            lines_kept(*old(self), *final(self)),
            final(self).canvas().bytes() == filled(old(self).canvas().bytes(), old(self).config().width as int,
                x as int, y as int, 1, 1,
                red_of(color.hex_value()), green_of(color.hex_value()), blue_of(color.hex_value())),
    {
        self.display_buffer.stamp(x, y, color);
    }
}

} // verus!
