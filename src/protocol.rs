use vstd::prelude::*;
use crate::conv::be_bytes;
use crate::transport::Transfer;

verus! {

pub const SWRESET: u8 = 0x01;
pub const SLPOUT: u8 = 0x11;
pub const INVOFF: u8 = 0x20;
pub const INVON: u8 = 0x21;
pub const DISPON: u8 = 0x29;
pub const CASET: u8 = 0x2A;
pub const RASET: u8 = 0x2B;
pub const RAMWR: u8 = 0x2C;
pub const MADCTL: u8 = 0x36;
pub const COLMOD: u8 = 0x3A;
pub const FRMCTR2: u8 = 0xB2;
pub const GCTRL: u8 = 0xB7;
pub const VCOMS: u8 = 0xBB;
pub const LCMCTRL: u8 = 0xC0;
pub const VDVVRHEN: u8 = 0xC2;
pub const VRHS: u8 = 0xC3;
pub const VDVS: u8 = 0xC4;
pub const PWCTRL1: u8 = 0xD0;
pub const FRCTRL2: u8 = 0xC6;
pub const GMCTRP1: u8 = 0xE0;
pub const GMCTRN1: u8 = 0xE1;

/// Transfer size used when none is configured.
pub const DEFAULT_CHUNK: usize = 4096;

/// `s` cut into consecutive pieces of `k` bytes, the last one possibly shorter.
pub open spec fn chunks(s: Seq<u8>, k: nat) -> Seq<Seq<u8>>
    decreases s.len(),
{
    if s.len() == 0 || k == 0 {
        seq![]
    } else if s.len() <= k {
        seq![s]
    } else {
        seq![s.take(k as int)] + chunks(s.skip(k as int), k)
    }
}

/// The pieces laid end to end.
pub open spec fn joined(cs: Seq<Seq<u8>>) -> Seq<u8>
    decreases cs.len(),
{
    if cs.len() == 0 {
        seq![]
    } else {
        cs[0] + joined(cs.drop_first())
    }
}

/// `ceil(n / k)`.
pub open spec fn chunk_count(n: int, k: int) -> int {
    (n + k - 1) / k
}

/// Cutting `n` bytes into pieces of at most `k` gives `ceil(n / k)` pieces, none
/// empty and none longer than `k`, which laid end to end give back the input.
pub proof fn lemma_chunks_cover(s: Seq<u8>, k: nat)
    requires
        k > 0,
    ensures
        chunks(s, k).len() == chunk_count(s.len() as int, k as int),
        forall|i: int| 0 <= i < chunks(s, k).len() ==> 0 < #[trigger] chunks(s, k)[i].len() <= k,
        joined(chunks(s, k)) == s,
    decreases s.len(),
{
    if s.len() == 0 {
        assert(chunk_count(0, k as int) == 0) by (nonlinear_arith)
            requires k > 0;
        assert(joined(chunks(s, k)) =~= s);
    } else if s.len() <= k {
        assert(chunk_count(s.len() as int, k as int) == 1) by (nonlinear_arith)
            requires 0 < s.len() <= k;
        let cs = chunks(s, k);
        assert(cs.drop_first() =~= seq![]);
        assert(joined(cs.drop_first()) == Seq::<u8>::empty());
        assert(joined(cs) == cs[0] + joined(cs.drop_first()));
        assert(joined(cs) =~= s);
    } else {
        let rest = s.skip(k as int);
        lemma_chunks_cover(rest, k);
        assert(chunk_count(s.len() as int, k as int) == 1 + chunk_count(rest.len() as int, k as int)) by (nonlinear_arith)
            requires rest.len() == s.len() - k, k > 0;
        let cs = chunks(s, k);
        assert(cs.drop_first() =~= chunks(rest, k));
        assert(s.take(k as int) + rest =~= s);
    }
}

/// Where piece `i` of `len` bytes cut every `step` bytes starts and ends.
pub open spec fn bound_at(i: int, step: int, len: int) -> (int, int) {
    (i * step, if (i + 1) * step < len { (i + 1) * step } else { len })
}

/// Where each of the `ceil(len / step)` pieces of `len` bytes cut every `step`
/// bytes starts and ends, in order.
pub fn chunk_bounds(len: usize, step: usize) -> (r: Vec<(usize, usize)>)
    requires
        step > 0,
    ensures
        r@.len() == chunk_count(len as int, step as int),
        forall|i: int| 0 <= i < r@.len() ==> (r@[i].0 as int, r@[i].1 as int) == #[trigger] bound_at(i, step as int, len as int),
{
    let mut out: Vec<(usize, usize)> = Vec::new();
    let mut start: usize = 0;
    assert(out@.len() * step == 0) by (nonlinear_arith) requires out@.len() == 0;
    while start < len
        invariant
            step > 0,
            start <= len,
            start < len ==> start == out@.len() * step,
            start == len ==> out@.len() * step >= len,
            out@.len() == 0 || (out@.len() - 1) * step < len,
            forall|i: int| 0 <= i < out@.len() ==> (out@[i].0 as int, out@[i].1 as int) == #[trigger] bound_at(i, step as int, len as int),
        decreases len - start,
    {
        let ghost i = out@.len() as int;
        assert((i + 1) * step == i * step + step) by (nonlinear_arith);
        let end: usize = if len - start <= step { len } else { start + step };
        out.push((start, end));
        assert(out@[i] == (start, end));
        start = end;
        proof {
            if end < len {
                assert(start == (i + 1) * step);
            } else {
                assert(start == len);
                assert(len <= (i + 1) * step);
            }
        }
    }
    proof {
        let n = out@.len() as int;
        let k = step as int;
        let l = len as int;
        assert(n == chunk_count(l, k)) by (nonlinear_arith)
            requires k > 0, l >= 0, n >= 0, n * k >= l, n == 0 || (n - 1) * k < l, n == 0 ==> l == 0;
    }
    out
}

/// Every piece but past the last starts inside the input, and the last one reaches its end.
pub proof fn lemma_chunk_count_bounds(j: int, k: int, l: int)
    requires
        k > 0,
        l >= 0,
    ensures
        0 <= j < chunk_count(l, k) ==> j * k < l,
        chunk_count(l, k) * k >= l,
{
    let n = chunk_count(l, k);
    assert(n * k >= l) by (nonlinear_arith) requires k > 0, l >= 0, n == (l + k - 1) / k;
    if 0 <= j < n {
        assert(j * k < l) by (nonlinear_arith) requires k > 0, l >= 0, n == (l + k - 1) / k, 0 <= j < n;
    }
}


/// The transfers that sending `bytes` of one kind in pieces of `k` issues.
pub open spec fn transfers(is_data: bool, bytes: Seq<u8>, k: nat) -> Seq<Transfer> {
    chunks(bytes, k).map_values(|c: Seq<u8>| (is_data, c))
}

/// The transfers that a sequence of messages issues, in order.
pub open spec fn wire_of(msgs: Seq<Transfer>, k: nat) -> Seq<Transfer>
    decreases msgs.len(),
{
    if msgs.len() == 0 {
        seq![]
    } else {
        wire_of(msgs.drop_last(), k) + transfers(msgs.last().0, msgs.last().1, k)
    }
}

/// Sending one message after others extends the wire by that message's transfers.
pub proof fn lemma_wire_push(msgs: Seq<Transfer>, m: Transfer, k: nat)
    ensures
        wire_of(msgs.push(m), k) == wire_of(msgs, k) + transfers(m.0, m.1, k),
{
    assert(msgs.push(m).drop_last() =~= msgs);
}

/// A command byte as a message.
pub open spec fn command(c: u8) -> Transfer {
    (false, seq![c])
}

/// A data byte as a message.
pub open spec fn datum(d: u8) -> Transfer {
    (true, seq![d])
}

/// High byte of a window coordinate in the controller's 16-bit form.
pub open spec fn hi(v: i16) -> u8 {
    ((v as u16) >> 8u16) as u8
}

/// Low byte of a window coordinate in the controller's 16-bit form.
pub open spec fn lo(v: i16) -> u8 {
    ((v as u16) & 0xffu16) as u8
}

/// The messages that set the addressing window to columns `x1..=x2` and rows
/// `y1..=y2`: column-address set with four bytes, then row-address set with four.
pub open spec fn window_messages(x1: i16, y1: i16, x2: i16, y2: i16) -> Seq<Transfer> {
    seq![command(CASET), datum(hi(x1)), datum(lo(x1)), datum(hi(x2)), datum(lo(x2)),
         command(RASET), datum(hi(y1)), datum(lo(y1)), datum(hi(y2)), datum(lo(y2))]
}

/// The window actually addressed: omitted bounds default to the whole
/// `w`×`h` panel, ends are exclusive on input and inclusive on the wire, and the
/// offset is added to all four.
pub open spec fn window_bounds(w: i16, h: i16, ox: i16, oy: i16,
    x1: Option<i16>, y1: Option<i16>, x2: Option<i16>, y2: Option<i16>) -> (int, int, int, int) {
    (
        match x1 { Some(v) => v as int, None => 0 } + ox,
        match y1 { Some(v) => v as int, None => 0 } + oy,
        match x2 { Some(v) => v - 1, None => w - 1 } + ox,
        match y2 { Some(v) => v - 1, None => h - 1 } + oy,
    )
}

/// Whether an addressing window fits the controller's signed 16-bit coordinates.
pub open spec fn fits_i16(b: (int, int, int, int)) -> bool {
    &&& i16::MIN <= b.0 <= i16::MAX
    &&& i16::MIN <= b.1 <= i16::MAX
    &&& i16::MIN <= b.2 <= i16::MAX
    &&& i16::MIN <= b.3 <= i16::MAX
}

/// With every bound omitted the window is the whole panel shifted by the offset.
pub proof fn lemma_default_window(w: i16, h: i16, ox: i16, oy: i16)
    ensures
        window_bounds(w, h, ox, oy, None, None, None, None) == (ox as int, oy as int, ox + w - 1, oy + h - 1),
{
}

/// Moving the offset by `(dx, dy)` moves all four window bounds by exactly that.
pub proof fn lemma_offset_shift(w: i16, h: i16, ox: i16, oy: i16, dx: int, dy: int,
    x1: Option<i16>, y1: Option<i16>, x2: Option<i16>, y2: Option<i16>)
    requires
        i16::MIN <= ox + dx <= i16::MAX,
        i16::MIN <= oy + dy <= i16::MAX,
    ensures
        ({
            let a = window_bounds(w, h, ox, oy, x1, y1, x2, y2);
            let b = window_bounds(w, h, (ox + dx) as i16, (oy + dy) as i16, x1, y1, x2, y2);
            b == (a.0 + dx, a.1 + dy, a.2 + dx, a.3 + dy)
        }),
{
}

/// Computes the addressing window; see `window_bounds`.
pub fn window(w: i16, h: i16, ox: i16, oy: i16,
    x1: Option<i16>, y1: Option<i16>, x2: Option<i16>, y2: Option<i16>) -> (r: (i16, i16, i16, i16))
    requires
        fits_i16(window_bounds(w, h, ox, oy, x1, y1, x2, y2)),
    ensures
        (r.0 as int, r.1 as int, r.2 as int, r.3 as int) == window_bounds(w, h, ox, oy, x1, y1, x2, y2),
{
    let a: i32 = match x1 { Some(v) => v as i32, None => 0 } + ox as i32;
    let b: i32 = match y1 { Some(v) => v as i32, None => 0 } + oy as i32;
    let c: i32 = match x2 { Some(v) => v as i32 - 1, None => w as i32 - 1 } + ox as i32;
    let d: i32 = match y2 { Some(v) => v as i32 - 1, None => h as i32 - 1 } + oy as i32;
    (a as i16, b as i16, c as i16, d as i16)
}

/// The window coordinates as they go on the wire: high then low byte of each.
pub fn coord_bytes(a: i16, b: i16) -> (r: [u8; 4])
    ensures
        r@ == seq![hi(a), lo(a), hi(b), lo(b)],
{
    let ua = a as u16;
    let ub = b as u16;
    let r = [(ua >> 8) as u8, (ua & 0xff) as u8, (ub >> 8) as u8, (ub & 0xff) as u8];
    assert(r@ =~= seq![hi(a), lo(a), hi(b), lo(b)]);
    r
}

/// `n` repetitions of a packed color, big-endian.
pub open spec fn fill_seq(col: u16, n: nat) -> Seq<u8>
    decreases n,
{
    if n == 0 { seq![] } else { fill_seq(col, (n - 1) as nat) + be_bytes(col) }
}

/// A flat fill of `n` pixels is `2 * n` bytes alternating the color's high
/// and low byte.
pub proof fn lemma_fill_seq(col: u16, n: nat)
    ensures
        fill_seq(col, n).len() == 2 * n,
        forall|j: int| 0 <= j < 2 * n ==> #[trigger] fill_seq(col, n)[j] == be_bytes(col)[j % 2],
    decreases n,
{
    if n > 0 {
        lemma_fill_seq(col, (n - 1) as nat);
        let prev = fill_seq(col, (n - 1) as nat);
        assert forall|j: int| 0 <= j < 2 * n implies #[trigger] fill_seq(col, n)[j] == be_bytes(col)[j % 2] by {
            if j < 2 * (n - 1) {
                assert(fill_seq(col, n)[j] == prev[j]);
            } else {
                assert(j == 2 * n - 2 || j == 2 * n - 1);
            }
        }
    }
}

/// The bytes of a flat fill of `n` pixels with packed color `col`.
pub fn fill_bytes(col: u16, n: usize) -> (r: Vec<u8>)
    requires
        2 * n <= usize::MAX,
    ensures
        r@ == fill_seq(col, n as nat),
{
    let hi_b: u8 = (col >> 8) as u8;
    let lo_b: u8 = (col & 0xff) as u8;
    let mut out: Vec<u8> = Vec::new();
    let mut i: usize = 0;
    while i < n
        invariant
            i <= n,
            out@ == fill_seq(col, i as nat),
            be_bytes(col) == seq![hi_b, lo_b],
        decreases n - i,
    {
        out.push(hi_b);
        out.push(lo_b);
        i = i + 1;
        assert(out@ =~= fill_seq(col, i as nat));
    }
    out
}

} // verus!
