//! Encoding the requests that lldpd is sent.

use vstd::prelude::*;

use super::cursor;
use super::layout;
use super::pod;
use super::pod::Pod;
use super::raw::RawPortSet;

verus! {

/// A chunk without nested chunks: the reference number, the declared size,
/// which is that of the header and the content, and the content.
pub open spec fn leaf_chunk(orig: usize, content: Seq<u8>) -> Seq<u8> {
    orig.encode() + ((cursor::header_width() + content.len()) as usize).encode() + content
}

/// `buf` with a leaf chunk behind it, at the next multiple of the pointer
/// width.
pub open spec fn with_leaf(buf: Seq<u8>, orig: usize, content: Seq<u8>) -> Seq<u8> {
    layout::zero_pad(buf, pod::ptr_width()) + leaf_chunk(orig, content)
}

/// A text as lldpd wants it: in UTF-8, with a NUL behind it.
pub open spec fn c_string(s: Seq<char>) -> Seq<u8> {
    vstd::utf8::encode_utf8(s).push(0u8)
}

fn c_string_bytes(s: &str) -> (b: Vec<u8>)
    ensures
        b@ == c_string(s@),
{
    let mut b: Vec<u8> = Vec::new();
    layout::append(&mut b, s.as_bytes());
    b.push(0);
    assert(b@ =~= c_string(s@));
    b
}

/// Appends a chunk header and its content.
fn push_leaf(buf: &mut Vec<u8>, orig: usize, content: &[u8])
    ensures
        final(buf)@ == old(buf)@ + leaf_chunk(orig, content@),
{
    let ghost before = buf@;
    proof {
        orig.lemma_round_trip();
        pod::lemma_ptr_width();
    }
    let size = (2 * pod::ptr_size()).saturating_add(content.len());
    layout::append(buf, &orig.to_bytes());
    layout::append(buf, &size.to_bytes());
    layout::append(buf, content);
    proof {
        size.lemma_round_trip();
        assert(buf@.len() == buf.len());
        assert(size == cursor::header_width() + content@.len());
        assert(buf@ =~= before + leaf_chunk(orig, content@));
    }
}

/// The payload of a `GET_INTERFACE` request: the interface's name, as the
/// only chunk.
pub fn encode_interface_name_request(name: &str) -> (v: Vec<u8>)
    ensures
        v@ == leaf_chunk(1, c_string(name@)),
{
    let body = c_string_bytes(name);
    let mut out: Vec<u8> = Vec::new();
    push_leaf(&mut out, 1, &body);
    assert(out@ =~= leaf_chunk(1, body@));
    out
}

/// The structure of a `SET_PORT` request that sets a description and leaves
/// everything else as it is: the texts of the two pointers follow in chunks 2
/// and 3.
pub open spec fn port_set() -> RawPortSet {
    RawPortSet {
        ifname: 2,
        local_id: 0,
        local_descr: 3,
        vlan_advertise_pattern: 0,
        rxtx: 0,
        vlan_tx_tag: 0,
        vlan_tx_enabled: (-1) as i32,
        med_policy: 0,
        med_location: 0,
        med_power: 0,
        dot3_power: 0,
    }
}

/// The content of a `SET_PORT` request's chunk, nested chunks included.
pub open spec fn port_set_content(ifname: Seq<char>, description: Seq<char>) -> Seq<u8> {
    with_leaf(
        with_leaf(port_set().encode(), 2, c_string(ifname)),
        3,
        c_string(description),
    )
}

/// The payload of a `SET_PORT` request that overrides a port's description:
/// the structure, and then the two texts, each at a multiple of the pointer
/// width.
pub fn encode_set_port_description_request(ifname: &str, description: &str) -> (v: Vec<u8>)
    ensures
        v@ == leaf_chunk(1, port_set_content(ifname@, description@)),
{
    let set = RawPortSet {
        ifname: 2,
        local_id: 0,
        local_descr: 3,
        vlan_advertise_pattern: 0,
        rxtx: 0,
        vlan_tx_tag: 0,
        vlan_tx_enabled: -1,
        med_policy: 0,
        med_location: 0,
        med_power: 0,
        dot3_power: 0,
    };
    let mut body = cursor::pod_bytes(&set);
    push_string_chunk(&mut body, 2, &c_string_bytes(ifname));
    push_string_chunk(&mut body, 3, &c_string_bytes(description));
    let mut out: Vec<u8> = Vec::new();
    push_leaf(&mut out, 1, &body);
    assert(out@ =~= leaf_chunk(1, body@));
    out
}

/// Appends a leaf chunk, at the next multiple of the pointer width.
pub fn push_string_chunk(buf: &mut Vec<u8>, orig: usize, content: &[u8])
    ensures
        final(buf)@ == with_leaf(old(buf)@, orig, content@),
{
    layout::pad_to(buf, pod::ptr_size());
    push_leaf(buf, orig, content);
}

} // verus!
