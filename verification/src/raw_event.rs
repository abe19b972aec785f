//! Raw event framing: the section-header layout and the fixed-size event
//! record shared between the in-kernel producers and the user-side
//! reader. Sections are concatenated into an event buffer, each led by a
//! four-byte header; the event record itself is a two-byte size followed
//! by the data area, zero-padded to its fixed capacity.

use crate::meta::{pad_zeros, spec_zeros};
use vstd::bytes::{spec_u16_to_le_bytes, u16_to_le_bytes};
use vstd::prelude::*;

verus! {

/// Fixed capacity of one raw event's data area, in bytes.
pub const RAW_EVENT_DATA_SIZE: usize = 1022;

/// One section of a raw event, before framing.
pub struct RawSection {
    /// The module the section belongs to.
    pub owner: u8,
    /// The section's data type within its module.
    pub data_type: u8,
    /// The packed section payload.
    pub data: Vec<u8>,
}

/// The wire bytes of a section header: owner, data type, and the payload
/// size, in the byte order of this machine.
pub open spec fn spec_section_header(owner: u8, data_type: u8, size: u16) -> Seq<u8> {
    seq![owner, data_type] + spec_u16_to_le_bytes(size)
}

/// The wire bytes of one framed section.
pub open spec fn spec_section_bytes(s: RawSection) -> Seq<u8> {
    spec_section_header(s.owner, s.data_type, s.data@.len() as u16) + s.data@
}

/// The concatenated wire bytes of a sequence of sections.
pub open spec fn spec_sections_bytes(ss: Seq<RawSection>) -> Seq<u8>
    decreases ss.len(),
{
    if ss.len() == 0 {
        Seq::empty()
    } else {
        spec_section_bytes(ss[0]) + spec_sections_bytes(ss.subrange(1, ss.len() as int))
    }
}

/// Appends one section to an event buffer: the four header bytes, then
/// the payload, which is drained into the buffer.
pub fn build_raw_section(event: &mut Vec<u8>, owner: u8, data_type: u8, data: &mut Vec<u8>)
    requires
        old(data)@.len() <= u16::MAX,
    ensures
        final(event)@ == old(event)@ + spec_section_header(
            owner,
            data_type,
            old(data)@.len() as u16,
        ) + old(data)@,
        final(data)@.len() == 0,
{
    event.push(owner);
    event.push(data_type);
    let mut size_bytes = u16_to_le_bytes(data.len() as u16);
    event.append(&mut size_bytes);
    event.append(data);
    proof {
        assert(event@ =~= old(event)@ + spec_section_header(
            owner,
            data_type,
            old(data)@.len() as u16,
        ) + old(data)@);
    }
}

/// Builds one complete raw event record from its sections: the data
/// area's occupied size, the framed sections in order, and zero padding
/// up to the fixed capacity. The sections are drained. The caller keeps
/// the sections within the event capacity; exceeding it is a programming
/// error in the producer.
pub fn build_raw_event(sections: &mut Vec<RawSection>) -> (r: Vec<u8>)
    requires
        forall|i: int| 0 <= i < old(sections)@.len() ==> (#[trigger] old(sections)@[i]).data@.len()
            <= u16::MAX,
        spec_sections_bytes(old(sections)@).len() <= RAW_EVENT_DATA_SIZE,
    ensures
        r@.len() == RAW_EVENT_DATA_SIZE + 2,
        r@ == spec_u16_to_le_bytes(spec_sections_bytes(old(sections)@).len() as u16)
            + spec_sections_bytes(old(sections)@) + spec_zeros(
            RAW_EVENT_DATA_SIZE - spec_sections_bytes(old(sections)@).len(),
        ),
{
    let mut event: Vec<u8> = Vec::new();
    proof {
        lemma_sections_bytes_len(old(sections)@);
    }
    while sections.len() > 0
        invariant
            forall|i: int| 0 <= i < sections@.len() ==> (#[trigger] sections@[i]).data@.len()
                <= u16::MAX,
            spec_sections_bytes(old(sections)@) == event@ + spec_sections_bytes(sections@),
            event@.len() + spec_sections_bytes(sections@).len() == spec_sections_bytes(
                old(sections)@,
            ).len(),
        decreases sections@.len(),
    {
        let ghost pre = sections@;
        let mut s = sections.remove(0);
        build_raw_section(&mut event, s.owner, s.data_type, &mut s.data);
        proof {
            assert(pre.subrange(1, pre.len() as int) =~= sections@);
            lemma_sections_bytes_len(sections@);
        }
    }
    let size = event.len();
    let mut out = u16_to_le_bytes(size as u16);
    out.append(&mut event);
    pad_zeros(&mut out, RAW_EVENT_DATA_SIZE + 2);
    proof {
        assert(out@ =~= spec_u16_to_le_bytes(spec_sections_bytes(old(sections)@).len() as u16)
            + spec_sections_bytes(old(sections)@) + spec_zeros(
            RAW_EVENT_DATA_SIZE - spec_sections_bytes(old(sections)@).len(),
        ));
    }
    out
}

/// The framed length of a sequence of sections is the sum of a four-byte
/// header and the payload for each.
pub proof fn lemma_sections_bytes_len(ss: Seq<RawSection>)
    ensures
        spec_sections_bytes(ss).len() >= 0,
        ss.len() > 0 ==> spec_sections_bytes(ss).len() == 4 + ss[0].data@.len()
            + spec_sections_bytes(ss.subrange(1, ss.len() as int)).len(),
{
    if ss.len() > 0 {
        vstd::bytes::lemma_auto_spec_u16_to_from_le_bytes();
    }
}

} // verus!
