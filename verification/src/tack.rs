//! The scope guard for length-delimited regions of unknown size.
//!
//! A [`Tack`] marks the start of a length-delimited quantity whose byte
//! count is only known once its content has been written. On construction
//! it emits the field's tag and a fixed-width placeholder length; closing it
//! backpatches the placeholder with the true length, or erases the whole
//! region when nothing was written and the rewind policy asks for omission.

use vstd::prelude::*;

use crate::scalars::{encoded_len_varint, write_varint};
use crate::wire::{
    lemma_varint_bytes_len, lemma_varint_len_bounds, pow128, varint_bytes, varint_len,
    varint_read_len, varint_value, wide_max, wide_varint_bytes,
};

verus! {

/// Header a tack writes on construction: the tag's varint followed by a
/// `width`-byte placeholder (a fixed-width varint of 0, soon overwritten).
pub open spec fn tack_header_bytes(tag: Option<u32>, width: nat) -> Seq<u8> {
    match tag {
        None => Seq::empty(),
        Some(t) => varint_bytes(t as u64) + wide_varint_bytes(width, 0),
    }
}

/// What closing a tack does to the buffer `b`: nothing for an untagged
/// (top-level) region; otherwise either erase the empty region or overwrite
/// the placeholder with the fixed-width varint of the content length.
pub open spec fn tack_close_bytes(
    b: Seq<u8>,
    tag: Option<u32>,
    start: int,
    width: int,
    rewind: bool,
) -> Seq<u8> {
    match tag {
        None => b,
        Some(t) => if b.len() == start && rewind {
            b.take(start - varint_len(t as u64) - width)
        } else {
            b.take(start - width) + wide_varint_bytes(width as nat, (b.len() - start) as u64)
                + b.skip(start)
        },
    }
}

/// A `Tack` marks the start of an as-of-yet unknown length-delimited
/// quantity. It owns the one mutable borrow of the output buffer while the
/// region is open, so sibling or outer writes cannot interleave with it.
#[must_use]
pub struct Tack<'b> {
    /// The output buffer; nested writers reborrow it through this field.
    pub buffer: &'b mut Vec<u8>,
    /// The enclosing field's tag, absent for a top-level message.
    pub tag: Option<u32>,
    /// Offset of the first content byte (past the tag and placeholder).
    pub start: usize,
    /// Placeholder width in bytes, between 1 and 5.
    pub width: u32,
    /// Whether an empty region is erased on close (implicit-presence
    /// omission) instead of keeping a zero-length prefix.
    pub rewind: bool,
}

impl<'b> Tack<'b> {
    /// The region's bookkeeping invariant: a tagged tack has a nonzero tag,
    /// a placeholder width of 1 to 5 sitting right before `start`, and the
    /// buffer never shrinks below `start` while the region is open.
    pub open spec fn wf(self) -> bool {
        match self.tag {
            None => true,
            Some(t) => t >= 1 && 1 <= self.width <= 5 && self.start >= varint_len(t as u64)
                + self.width && (*self.buffer)@.len() >= self.start,
        }
    }

    /// Content written into the region so far.
    pub open spec fn content(self) -> Seq<u8> {
        (*self.buffer)@.skip(self.start as int)
    }

    /// Whether the content written so far still fits the placeholder width.
    pub open spec fn fits_spec(self) -> bool {
        match self.tag {
            None => true,
            Some(_) => (*self.buffer)@.len() - self.start <= wide_max(self.width as nat),
        }
    }

    /// Opens a length-delimited region with the default 4-byte placeholder
    /// (room for 2^28 - 1 content bytes). `tag` is the full tag value
    /// (field number shifted over the wire type); `None` — or zero — means a
    /// top-level region with no tag or length prefix of its own.
    pub fn new(buffer: &'b mut Vec<u8>, tag: Option<u32>) -> (t: Tack<'b>)
        ensures
            t.tag == normalize_tag(tag),
            t.width == 4u32,
            t.rewind == true,
            (*t.buffer)@ == (*old(buffer))@ + tack_header_bytes(normalize_tag(tag), 4),
            t.start == (*t.buffer)@.len(),
            *final(t.buffer) == *final(buffer),
            t.wf(),
    {
        Tack::new_with_width(buffer, tag, 4)
    }

    /// Opens a length-delimited region with a caller-chosen placeholder
    /// width; a `width`-byte placeholder can frame up to 128^width - 1
    /// bytes of content.
    pub fn new_with_width(buffer: &'b mut Vec<u8>, tag: Option<u32>, width: u32) -> (t: Tack<'b>)
        requires
            1 <= width <= 5,
        ensures
            t.tag == normalize_tag(tag),
            t.width == width,
            t.rewind == true,
            (*t.buffer)@ == (*old(buffer))@ + tack_header_bytes(normalize_tag(tag), width as nat),
            t.start == (*t.buffer)@.len(),
            *final(t.buffer) == *final(buffer),
            t.wf(),
    {
        let tag = match tag {
            Some(t) if t > 0 => Some(t),
            _ => None,
        };
        if let Some(t) = tag {
            write_varint(t as u64, buffer);
            proof {
                lemma_pow128_small(width as nat);
            }
            write_wide_varint(width as usize, 0, buffer);
            proof {
                lemma_varint_bytes_len(t as u64);
                lemma_varint_len_bounds(t as u64);
            }
        }
        let start = buffer.len();
        Tack { buffer, tag, start, width, rewind: true }
    }

    /// Closes the region: backpatches the placeholder with the fixed-width
    /// varint of the content length, or erases tag and placeholder when the
    /// region is empty and `rewind` holds. The content must fit the
    /// placeholder width — a region that outgrew its width would corrupt
    /// every byte after it, so this library rules it out before the fact;
    /// see [`Tack::fits`] and [`Tack::try_close`] for the checked path.
    pub fn close(self)
        requires
            self.wf(),
            self.fits_spec(),
        ensures
            (*final(self.buffer))@ == tack_close_bytes(
                (*old(self.buffer))@,
                self.tag,
                self.start as int,
                self.width as int,
                self.rewind,
            ),
    {
        let Tack { buffer, tag, start, width, rewind } = self;
        let t = match tag {
            None => {
                return ;
            },
            Some(t) => t,
        };
        let data_len = buffer.len() - start;
        if data_len == 0 && rewind {
            let tag_len = encoded_len_varint(t as u64);
            buffer.truncate(start - tag_len - width as usize);
        } else {
            patch_wide_varint(buffer, start - width as usize, width as usize, data_len as u64);
            proof {
                assert((*buffer)@ =~= (*old(self.buffer))@.take(start - width as int)
                    + wide_varint_bytes(width as nat, data_len as u64) + (*old(
                    self.buffer,
                ))@.skip(start as int));
            }
        }
    }

    /// Whether the content written so far still fits the placeholder
    /// width, so `close` may run. An unverified caller tests this before
    /// closing instead of relying on the type system.
    pub fn fits(&self) -> (r: bool)
        requires
            self.wf(),
        ensures
            r == self.fits_spec(),
    {
        match self.tag {
            None => true,
            Some(_) => {
                proof {
                    lemma_pow128_small(self.width as nat);
                }
                let cap: u64 = wide_capacity(self.width);
                (self.buffer.len() - self.start) as u64 <= cap
            },
        }
    }

    /// Closing with an overflow check: patches and returns `true` when the
    /// content fits the placeholder width; otherwise erases the whole
    /// region back to before its tag and returns `false`, so an overgrown
    /// region aborts loudly instead of writing a truncated length.
    pub fn try_close(self) -> (ok: bool)
        requires
            self.wf(),
        ensures
            ok == self.fits_spec(),
            ok ==> (*final(self.buffer))@ == tack_close_bytes(
                (*old(self.buffer))@,
                self.tag,
                self.start as int,
                self.width as int,
                self.rewind,
            ),
            !ok ==> (*final(self.buffer))@ == (*old(self.buffer))@.take(
                self.start as int - varint_len(self.tag.unwrap() as u64) - self.width as int,
            ),
    {
        if self.fits() {
            self.close();
            true
        } else {
            let Tack { buffer, tag, start, width, .. } = self;
            let t = match tag {
                // an untagged region always fits
                None => unreached(),
                Some(t) => t,
            };
            let tag_len = encoded_len_varint(t as u64);
            buffer.truncate(start - tag_len - width as usize);
            false
        }
    }
}

/// Largest content length a `width`-byte placeholder can frame.
fn wide_capacity(width: u32) -> (cap: u64)
    requires
        1 <= width <= 5,
    ensures
        cap == wide_max(width as nat),
{
    proof {
        lemma_pow128_small(width as nat);
    }
    let mut cap: u64 = 1;
    let mut i: u32 = 0;
    while i < width
        invariant
            i <= width <= 5,
            cap == pow128(i as nat),
        decreases width - i,
    {
        proof {
            lemma_pow128_small(i as nat);
            lemma_pow128_small((i + 1) as nat);
        }
        cap = cap * 128;
        i += 1;
    }
    cap - 1
}

/// 128^e for small e stays well under u64::MAX.
proof fn lemma_pow128_small(e: nat)
    requires
        e <= 6,
    ensures
        1 <= pow128(e) <= 0x40000000000,
{
    crate::wire::lemma_pow128_pos(e);
    crate::wire::lemma_pow128_increases(e, 6);
    assert(pow128(6) == 0x40000000000) by {
        reveal_with_fuel(pow128, 7);
    }
}

/// Appends the fixed-width (non-minimal, padded) varint of `value` in
/// exactly `width` bytes: continuation bit on every byte but the last.
pub fn write_wide_varint(width: usize, value: u64, buf: &mut Vec<u8>)
    requires
        1 <= width <= 5,
        value <= wide_max(width as nat),
    ensures
        (*final(buf))@ == (*old(buf))@ + wide_varint_bytes(width as nat, value),
{
    let mut rem: u64 = value;
    let mut i: usize = 0;
    while i < width
        invariant
            i <= width,
            1 <= width <= 5,
            (*buf)@.len() == (*old(buf))@.len() + i,
            (*buf)@ == (*old(buf))@ + wide_varint_bytes(width as nat, value).take(i as int),
            rem as int == value as int / pow128(i as nat),
        decreases width - i,
    {
        proof {
            crate::wire::lemma_pow128_pos(i as nat);
            assert(pow128((i + 1) as nat) == pow128(i as nat) * 128);
            assert(value as int / pow128(i as nat) / 128 == value as int / pow128(
                (i + 1) as nat,
            )) by (nonlinear_arith)
                requires
                    pow128((i + 1) as nat) == pow128(i as nat) * 128,
                    pow128(i as nat) >= 1,
                    value >= 0,
            ;
        }
        if i + 1 < width {
            buf.push(((rem % 0x80) + 0x80) as u8);
        } else {
            buf.push((rem % 0x80) as u8);
        }
        proof {
            assert((*buf)@ =~= (*old(buf))@ + wide_varint_bytes(width as nat, value).take(
                i + 1,
            ));
        }
        rem = rem / 0x80;
        i += 1;
    }
    proof {
        assert(wide_varint_bytes(width as nat, value).take(width as int) =~= wide_varint_bytes(
            width as nat,
            value,
        ));
    }
}

/// Overwrites `width` bytes at `at` in place with the fixed-width varint of
/// `value`; the backpatching step of closing a region.
fn patch_wide_varint(buf: &mut Vec<u8>, at: usize, width: usize, value: u64)
    requires
        1 <= width <= 5,
        value <= wide_max(width as nat),
        at + width <= (*old(buf))@.len(),
    ensures
        (*final(buf))@ == (*old(buf))@.take(at as int) + wide_varint_bytes(width as nat, value)
            + (*old(buf))@.skip(at + width),
{
    proof {
        vstd::std_specs::vec::axiom_spec_len(&*buf);
    }
    let mut rem: u64 = value;
    let mut i: usize = 0;
    while i < width
        invariant
            i <= width,
            1 <= width <= 5,
            at + width <= (*buf)@.len(),
            (*buf)@.len() <= usize::MAX,
            (*buf)@.len() == (*old(buf))@.len(),
            (*buf)@ == (*old(buf))@.take(at as int) + wide_varint_bytes(width as nat, value).take(
                i as int,
            ) + (*old(buf))@.skip(at + i),
            rem as int == value as int / pow128(i as nat),
        decreases width - i,
    {
        proof {
            crate::wire::lemma_pow128_pos(i as nat);
            assert(pow128((i + 1) as nat) == pow128(i as nat) * 128);
            assert(value as int / pow128(i as nat) / 128 == value as int / pow128(
                (i + 1) as nat,
            )) by (nonlinear_arith)
                requires
                    pow128((i + 1) as nat) == pow128(i as nat) * 128,
                    pow128(i as nat) >= 1,
                    value >= 0,
            ;
        }
        let b: u8 = if i + 1 < width {
            ((rem % 0x80) + 0x80) as u8
        } else {
            (rem % 0x80) as u8
        };
        let slot = vstd::std_specs::vec::vec_index_mut(buf, at + i);
        *slot = b;
        proof {
            assert((*buf)@ =~= (*old(buf))@.take(at as int) + wide_varint_bytes(
                width as nat,
                value,
            ).take(i + 1) + (*old(buf))@.skip(at + i + 1));
        }
        rem = rem / 0x80;
        i += 1;
    }
    proof {
        assert(wide_varint_bytes(width as nat, value).take(width as int) =~= wide_varint_bytes(
            width as nat,
            value,
        ));
        assert((*buf)@ =~= (*old(buf))@.take(at as int) + wide_varint_bytes(width as nat, value)
            + (*old(buf))@.skip(at + width));
    }
}

/// Closing a guard whose header sits at the end of `pre` over `content`:
/// with the rewind policy an empty region vanishes entirely; otherwise the
/// placeholder is patched with the content length. This is the shape every
/// message-writing closure leaves behind.
pub proof fn lemma_close_over_content(pre: Seq<u8>, tag: u32, content: Seq<u8>, rewind: bool)
    requires
        tag >= 1,
        content.len() <= wide_max(4),
    ensures
        tack_close_bytes(
            pre + varint_bytes(tag as u64) + wide_varint_bytes(4, 0) + content,
            Some(tag),
            (pre + varint_bytes(tag as u64) + wide_varint_bytes(4, 0)).len() as int,
            4,
            rewind,
        ) == (if content.len() == 0 && rewind {
            pre
        } else {
            pre + varint_bytes(tag as u64) + wide_varint_bytes(4, content.len() as u64) + content
        }),
{
    lemma_varint_bytes_len(tag as u64);
    lemma_varint_len_bounds(tag as u64);
    let header = pre + varint_bytes(tag as u64) + wide_varint_bytes(4, 0);
    let b = header + content;
    let start = header.len() as int;
    if content.len() == 0 && rewind {
        assert(b =~= header);
        assert(b.take(start - varint_len(tag as u64) - 4) =~= pre);
    } else {
        assert(b.take(start - 4) =~= pre + varint_bytes(tag as u64));
        assert(b.skip(start) =~= content);
        assert(b.take(start - 4) + wide_varint_bytes(4, (b.len() - start) as u64) + b.skip(start)
            =~= pre + varint_bytes(tag as u64) + wide_varint_bytes(4, content.len() as u64)
            + content);
    }
}

/// Zero is never a tag; `Some(0)` collapses to an untagged region.
pub open spec fn normalize_tag(tag: Option<u32>) -> Option<u32> {
    match tag {
        Some(t) => if t > 0 {
            Some(t)
        } else {
            None
        },
        None => None,
    }
}

} // verus!

verus! {

/// The framed bytes of one embedded message whose guard was closed with
/// content `content`: its tag, the backpatched 4-byte length, the content.
pub open spec fn region_bytes(tag: u32, content: Seq<u8>) -> Seq<u8> {
    varint_bytes(tag as u64) + wide_varint_bytes(4, content.len() as u64) + content
}

/// Reading a closed region: the backpatched prefix decodes to exactly the
/// content length, whatever follows the region.
pub proof fn lemma_region_read(tag: u32, content: Seq<u8>, rest: Seq<u8>)
    requires
        content.len() <= wide_max(4),
    ensures
        region_bytes(tag, content).len() == varint_len(tag as u64) + 4 + content.len(),
        varint_value((region_bytes(tag, content) + rest).skip(varint_len(tag as u64) as int))
            == content.len(),
        varint_read_len((region_bytes(tag, content) + rest).skip(varint_len(tag as u64) as int))
            == 4,
{
    lemma_varint_bytes_len(tag as u64);
    lemma_varint_len_bounds(tag as u64);
    lemma_pow128_small(4);
    crate::wire::lemma_wide_varint_read(4, content.len() as u64, content + rest);
    assert((region_bytes(tag, content) + rest).skip(varint_len(tag as u64) as int)
        =~= wide_varint_bytes(4, content.len() as u64) + (content + rest));
}

/// Backpatch correctness over a depth-3 nest with siblings at each level:
/// with `a`, `b` beside the middle region and `c` beside the innermost,
/// every region's length prefix decodes to its own content length, and the
/// outer length equals its immediate bytes plus each inner region's
/// prefix and content — several guards open at once each patch their own
/// offsets.
pub proof fn lemma_nested_backpatch(
    t1: u32,
    t2: u32,
    t3: u32,
    a: Seq<u8>,
    b: Seq<u8>,
    c: Seq<u8>,
    d: Seq<u8>,
)
    requires
        d.len() <= wide_max(4),
        c.len() + varint_len(t3 as u64) + 4 + d.len() <= wide_max(4),
        a.len() + b.len() + varint_len(t2 as u64) + 4 + c.len() + varint_len(t3 as u64) + 4
            + d.len() <= wide_max(4),
    ensures
        varint_value(
            region_bytes(
                t1,
                a + region_bytes(t2, c + region_bytes(t3, d)) + b,
            ).skip(varint_len(t1 as u64) as int),
        ) == a.len() + b.len() + (varint_len(t2 as u64) + 4 + (c.len() + (varint_len(t3 as u64)
            + 4 + d.len()))),
        varint_value(
            region_bytes(t2, c + region_bytes(t3, d)).skip(varint_len(t2 as u64) as int),
        ) == c.len() + (varint_len(t3 as u64) + 4 + d.len()),
        varint_value(region_bytes(t3, d).skip(varint_len(t3 as u64) as int)) == d.len(),
{
    let inner = region_bytes(t3, d);
    lemma_region_read(t3, d, Seq::empty());
    assert(region_bytes(t3, d) + Seq::<u8>::empty() =~= region_bytes(t3, d));
    let mid_content = c + inner;
    let mid = region_bytes(t2, mid_content);
    lemma_region_read(t2, mid_content, Seq::empty());
    assert(mid + Seq::<u8>::empty() =~= mid);
    let outer_content = a + mid + b;
    lemma_region_read(t1, outer_content, Seq::empty());
    assert(region_bytes(t1, outer_content) + Seq::<u8>::empty() =~= region_bytes(
        t1,
        outer_content,
    ));
}

} // verus!
