//! The writer a schema compiler emits for one concrete message, written out
//! by hand: a scope guard over the buffer plus one accessor per field, each
//! delegating to the cardinality-typed field writers.
//!
//! The message has an optional int32 `anumber` (field 1), an optional
//! string `astring` (2), repeated strings `manystrings` (3), repeated bytes
//! `manybytes` (4), optional bytes `abytes` (5), an int32-to-string map
//! `amap` (6) and a packed int32 run `manynumbers` (7).

use vstd::prelude::*;
use vstd::string::StringSliceAdditionalSpecFns;

use crate::scalars::{Int32, PbBytes, PbString};
use crate::tack::{tack_close_bytes, tack_header_bytes, Tack};
use crate::typed_writers::{
    map_entry_bytes, packed_content_bytes, repeated_bytes, tagged_value_bytes, FieldWriter,
    MapEntryWriter, Optional, Packed, ProtoEncode, Repeated,
};
use crate::wire::{varint_bytes, wide_max};

verus! {

/// All entries of the map field, in the order supplied.
pub open spec fn amap_entries_bytes(s: Seq<(i32, &str)>) -> Seq<u8>
    decreases s.len(),
{
    if s.len() == 0 {
        Seq::empty()
    } else {
        map_entry_bytes::<Int32, PbString, i32, &str>(6, s[0].0, s[0].1) + amap_entries_bytes(
            s.skip(1),
        )
    }
}

proof fn lemma_amap_entries_snoc(s: Seq<(i32, &str)>, i: int)
    requires
        0 <= i < s.len(),
    ensures
        amap_entries_bytes(s.take(i + 1)) == amap_entries_bytes(s.take(i)) + map_entry_bytes::<
            Int32,
            PbString,
            i32,
            &str,
        >(6, s[i].0, s[i].1),
    decreases i,
{
    if i == 0 {
        assert(s.take(1).len() == 1);
        assert(s.take(1)[0] == s[0]);
        assert(s.take(1).skip(1) =~= Seq::<(i32, &str)>::empty());
        assert(s.take(0) =~= Seq::<(i32, &str)>::empty());
        assert(amap_entries_bytes(s.take(1)) == map_entry_bytes::<Int32, PbString, i32, &str>(
            6,
            s.take(1)[0].0,
            s.take(1)[0].1,
        ) + amap_entries_bytes(s.take(1).skip(1)));
        assert(map_entry_bytes::<Int32, PbString, i32, &str>(6, s[0].0, s[0].1)
            + Seq::<u8>::empty() =~= map_entry_bytes::<Int32, PbString, i32, &str>(
            6,
            s[0].0,
            s[0].1,
        ));
    } else {
        lemma_amap_entries_snoc(s.skip(1), i - 1);
        assert(s.take(i + 1).skip(1) =~= s.skip(1).take(i));
        assert(s.take(i).skip(1) =~= s.skip(1).take(i - 1));
        assert(s.skip(1)[i - 1] == s[i]);
    }
}

/// The writer for one example message: a scope guard plus one accessor per
/// field. Nesting falls out of handing `tack.buffer` to an inner guard.
pub struct MySimpleMessageWriter<'buf> {
    /// The guard framing this message's bytes.
    pub tack: Tack<'buf>,
}

impl<'buf> MySimpleMessageWriter<'buf> {
    /// The writer's bookkeeping invariant, inherited from its guard.
    pub open spec fn wf(self) -> bool {
        self.tack.wf()
    }

    /// Opens a writer over `buf`; `tag` is the enclosing field's tag, or
    /// `None` for a top-level message.
    pub fn new(buf: &'buf mut Vec<u8>, tag: Option<u32>) -> (w: Self)
        ensures
            (*w.tack.buffer)@ == (*old(buf))@ + tack_header_bytes(
                crate::tack::normalize_tag(tag),
                4,
            ),
            w.tack.tag == crate::tack::normalize_tag(tag),
            w.tack.start == (*w.tack.buffer)@.len(),
            w.tack.width == 4u32,
            w.tack.rewind == true,
            *final(w.tack.buffer) == *final(buf),
            w.wf(),
    {
        MySimpleMessageWriter { tack: Tack::new(buf, tag) }
    }

    /// Optional int32, field number 1.
    pub fn anumber(&mut self, anumber: Option<i32>)
        requires
            old(self).wf(),
        ensures
            anumber is Some ==> (*final(self).tack.buffer)@ == (*old(self).tack.buffer)@
                + tagged_value_bytes::<Int32, i32>(1, anumber.unwrap()),
            anumber is None ==> (*final(self).tack.buffer)@ == (*old(self).tack.buffer)@,
            *final(final(self).tack.buffer) == *final(old(self).tack.buffer),
            final(self).tack.tag == old(self).tack.tag,
            final(self).tack.start == old(self).tack.start,
            final(self).tack.width == old(self).tack.width,
            final(self).tack.rewind == old(self).tack.rewind,
            final(self).wf(),
    {
        let w = FieldWriter::<1, Optional<Int32>>::new(self.tack.buffer);
        let _ = w.write(anumber);
    }

    /// Packed int32 run, field number 7: a single tag and one
    /// length-delimited region; an empty run writes nothing.
    pub fn manynumbers(&mut self, manynumbers: &Vec<i32>)
        requires
            old(self).wf(),
            packed_content_bytes::<Int32, i32>(manynumbers@).len() <= wide_max(5),
            packed_content_bytes::<Int32, i32>(manynumbers@).len() + 16 <= usize::MAX,
        ensures
            manynumbers@.len() == 0 ==> (*final(self).tack.buffer)@ == (*old(
                self,
            ).tack.buffer)@,
            manynumbers@.len() > 0 ==> (*final(self).tack.buffer)@ == (*old(self).tack.buffer)@
                + varint_bytes(58) + varint_bytes(
                packed_content_bytes::<Int32, i32>(manynumbers@).len() as u64,
            ) + packed_content_bytes::<Int32, i32>(manynumbers@),
            *final(final(self).tack.buffer) == *final(old(self).tack.buffer),
            final(self).tack.tag == old(self).tack.tag,
            final(self).tack.start == old(self).tack.start,
            final(self).tack.width == old(self).tack.width,
            final(self).tack.rewind == old(self).tack.rewind,
            final(self).wf(),
    {
        let w = FieldWriter::<7, Packed<Int32>>::new(self.tack.buffer);
        let _ = w.write(manynumbers);
    }

    /// Optional string, field number 2.
    pub fn astring(&mut self, astring: Option<&str>)
        requires
            old(self).wf(),
        ensures
            astring is Some ==> (*final(self).tack.buffer)@ == (*old(self).tack.buffer)@
                + tagged_value_bytes::<PbString, &str>(2, astring.unwrap()),
            astring is None ==> (*final(self).tack.buffer)@ == (*old(self).tack.buffer)@,
            *final(final(self).tack.buffer) == *final(old(self).tack.buffer),
            final(self).tack.tag == old(self).tack.tag,
            final(self).tack.start == old(self).tack.start,
            final(self).tack.width == old(self).tack.width,
            final(self).tack.rewind == old(self).tack.rewind,
            final(self).wf(),
    {
        let w = FieldWriter::<2, Optional<PbString>>::new(self.tack.buffer);
        let _ = w.write(astring);
    }

    /// Repeated strings, field number 3: one tag-value pair per element.
    pub fn manystrings(&mut self, manystrings: &Vec<&str>)
        requires
            old(self).wf(),
        ensures
            (*final(self).tack.buffer)@ == (*old(self).tack.buffer)@ + repeated_bytes::<
                PbString,
                &str,
            >(3, manystrings@),
            *final(final(self).tack.buffer) == *final(old(self).tack.buffer),
            final(self).tack.tag == old(self).tack.tag,
            final(self).tack.start == old(self).tack.start,
            final(self).tack.width == old(self).tack.width,
            final(self).tack.rewind == old(self).tack.rewind,
            final(self).wf(),
    {
        let w = FieldWriter::<3, Repeated<PbString>>::new(self.tack.buffer);
        let _ = w.write(manystrings);
    }

    /// Repeated bytes, field number 4: one tag-value pair per element.
    pub fn manybytes(&mut self, manybytes: &Vec<&[u8]>)
        requires
            old(self).wf(),
        ensures
            (*final(self).tack.buffer)@ == (*old(self).tack.buffer)@ + repeated_bytes::<
                PbBytes,
                &[u8],
            >(4, manybytes@),
            *final(final(self).tack.buffer) == *final(old(self).tack.buffer),
            final(self).tack.tag == old(self).tack.tag,
            final(self).tack.start == old(self).tack.start,
            final(self).tack.width == old(self).tack.width,
            final(self).tack.rewind == old(self).tack.rewind,
            final(self).wf(),
    {
        let w = FieldWriter::<4, Repeated<PbBytes>>::new(self.tack.buffer);
        let _ = w.write(manybytes);
    }

    /// Optional bytes, field number 5.
    pub fn abytes(&mut self, abytes: Option<&[u8]>)
        requires
            old(self).wf(),
        ensures
            abytes is Some ==> (*final(self).tack.buffer)@ == (*old(self).tack.buffer)@
                + tagged_value_bytes::<PbBytes, &[u8]>(5, abytes.unwrap()),
            abytes is None ==> (*final(self).tack.buffer)@ == (*old(self).tack.buffer)@,
            *final(final(self).tack.buffer) == *final(old(self).tack.buffer),
            final(self).tack.tag == old(self).tack.tag,
            final(self).tack.start == old(self).tack.start,
            final(self).tack.width == old(self).tack.width,
            final(self).tack.rewind == old(self).tack.rewind,
            final(self).wf(),
    {
        let w = FieldWriter::<5, Optional<PbBytes>>::new(self.tack.buffer);
        let _ = w.write(abytes);
    }

    /// Int32-to-string map, field number 6: one independently
    /// length-delimited entry per pair, in the order supplied.
    pub fn amap(&mut self, entries: &Vec<(i32, &str)>)
        requires
            old(self).wf(),
            forall|j: int|
                0 <= j < entries@.len() ==> (#[trigger] entries@[j].1).spec_bytes().len() + 128
                    <= usize::MAX,
            forall|j: int|
                0 <= j < entries@.len() ==> (#[trigger] entries@[j].1).spec_bytes().len() + 128
                    <= wide_max(5),
        ensures
            (*final(self).tack.buffer)@ == (*old(self).tack.buffer)@ + amap_entries_bytes(
                entries@,
            ),
            *final(final(self).tack.buffer) == *final(old(self).tack.buffer),
            final(self).tack.tag == old(self).tack.tag,
            final(self).tack.start == old(self).tack.start,
            final(self).tack.width == old(self).tack.width,
            final(self).tack.rewind == old(self).tack.rewind,
            final(self).wf(),
    {
        let mut writer = MapEntryWriter::<6, Int32, PbString>::new(self.tack.buffer);
        let ghost pre = (*writer.buf)@;
        let ghost fin = *final(writer.buf);
        let mut i: usize = 0;
        while i < entries.len()
            invariant
                i <= entries@.len(),
                pre == (*old(self).tack.buffer)@,
                (*writer.buf)@ == pre + amap_entries_bytes(entries@.take(i as int)),
                *final(writer.buf) == fin,
                forall|j: int|
                    0 <= j < entries@.len() ==> (#[trigger] entries@[j].1).spec_bytes().len()
                        + 128 <= usize::MAX,
                forall|j: int|
                    0 <= j < entries@.len() ==> (#[trigger] entries@[j].1).spec_bytes().len()
                        + 128 <= wide_max(5),
            decreases entries@.len() - i,
        {
            proof {
                lemma_amap_entries_snoc(entries@, i as int);
                crate::wire::lemma_varint_bytes_len(entries@[i as int].1.spec_bytes().len()
                    as u64);
                crate::wire::lemma_varint_len_bounds(entries@[i as int].1.spec_bytes().len()
                    as u64);
                crate::wire::lemma_varint_bytes_len(crate::wire::int32_wire(
                    entries@[i as int].0,
                ));
                crate::wire::lemma_varint_len_bounds(crate::wire::int32_wire(
                    entries@[i as int].0,
                ));
            }
            let pair = entries[i];
            writer.write(pair.0, pair.1);
            i += 1;
        }
        proof {
            assert(entries@.take(entries@.len() as int) =~= entries@);
        }
    }

    /// Finishes the message: closes the guard, backpatching the enclosing
    /// field's length or erasing an empty tagged message.
    pub fn close(self)
        requires
            self.wf(),
            self.tack.fits_spec(),
        ensures
            (*final(self.tack.buffer))@ == tack_close_bytes(
                (*old(self.tack.buffer))@,
                self.tack.tag,
                self.tack.start as int,
                self.tack.width as int,
                self.tack.rewind,
            ),
    {
        self.tack.close()
    }
}

} // verus!
