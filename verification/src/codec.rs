//! Byte payloads of the chat-platform controls and their routing.
//!
//! Buttons carry an opaque byte identifier. The start button carries a fixed
//! token; each answer button carries a token that encodes the answer's
//! original index in the question, so that shuffling the displayed order
//! never changes which answer a click stands for. Inbound identifiers are
//! routed to a closed set of variants, with unrecognized ones mapped to
//! [`ComponentRoute::Unknown`].

use vstd::prelude::*;

verus! {

/// The identifier carried by the button that starts an application:
/// the bytes of "buttonsetupapplication".
pub open spec fn start_button_id() -> Seq<u8> {
    seq![
        98, 117, 116, 116, 111, 110, 115, 101, 116, 117, 112, 97, 112, 112, 108,
        105, 99, 97, 116, 105, 111, 110,
    ]
}

/// The name of the administrator command that sets up the application
/// channel: the bytes of "setupfanapplicationchannel".
pub open spec fn setup_command_name() -> Seq<u8> {
    seq![
        115, 101, 116, 117, 112, 102, 97, 110, 97, 112, 112, 108, 105, 99, 97,
        116, 105, 111, 110, 99, 104, 97, 110, 110, 101, 108,
    ]
}

/// The common prefix of every answer button identifier: the bytes of
/// "answer".
pub open spec fn answer_prefix() -> Seq<u8> {
    seq![97, 110, 115, 119, 101, 114]
}

/// The identifier of the answer button for original answer index `i`:
/// "answer" followed by the decimal digit of `i`.
pub open spec fn answer_id_spec(i: int) -> Seq<u8> {
    answer_prefix().push((48 + i) as u8)
}

/// Where an inbound component click is routed, by its identifier.
#[derive(Debug, PartialEq, Eq, Clone, Copy, Structural)]
pub enum ComponentRoute {
    /// The start button: begin a new application for the clicking user.
    StartApplication,
    /// An answer button, carrying the answer's original index (0 to 3).
    Answer { index: usize },
    /// Anything else: logged and ignored.
    Unknown,
}

/// How an identifier is routed: the start token begins an application; the
/// tokens "answer0" through "answer3" submit that original answer index;
/// everything else is unknown.
pub open spec fn route_spec(id: Seq<u8>) -> ComponentRoute {
    if id == start_button_id() {
        ComponentRoute::StartApplication
    } else if id.len() == 7 && id.subrange(0, 6) == answer_prefix() && 48 <= id[6] <= 51 {
        ComponentRoute::Answer { index: (id[6] - 48) as usize }
    } else {
        ComponentRoute::Unknown
    }
}

/// Byte-for-byte equality of two slices.
fn bytes_eq(a: &[u8], b: &[u8]) -> (r: bool)
    ensures
        r == (a@ == b@),
{
    if a.len() != b.len() {
        return false;
    }
    let mut i: usize = 0;
    while i < a.len()
        invariant
            i <= a@.len(),
            a@.len() == b@.len(),
            forall|j: int| 0 <= j < i ==> a@[j] == b@[j],
        decreases a@.len() - i,
    {
        if a[i] != b[i] {
            return false;
        }
        i += 1;
    }
    proof {
        assert(a@ =~= b@);
    }
    true
}

/// Copies a byte slice into a fresh vector.
fn bytes_to_vec(s: &[u8]) -> (r: Vec<u8>)
    ensures
        r@ == s@,
{
    let mut r: Vec<u8> = Vec::new();
    let mut i: usize = 0;
    while i < s.len()
        invariant
            i <= s@.len(),
            r@ == s@.subrange(0, i as int),
        decreases s@.len() - i,
    {
        r.push(s[i]);
        i += 1;
        proof {
            assert(r@ =~= s@.subrange(0, i as int));
        }
    }
    proof {
        assert(r@ =~= s@);
    }
    r
}

/// The start button's identifier as concrete bytes.
pub fn start_button_id_bytes() -> (r: Vec<u8>)
    ensures
        r@ == start_button_id(),
{
    let arr: [u8; 22] = [
        98, 117, 116, 116, 111, 110, 115, 101, 116, 117, 112, 97, 112, 112, 108,
        105, 99, 97, 116, 105, 111, 110,
    ];
    let r: Vec<u8> = bytes_to_vec(arr.as_slice());
    proof {
        assert(r@ =~= start_button_id());
    }
    r
}

/// The setup command's name as concrete bytes.
pub fn setup_command_name_bytes() -> (r: Vec<u8>)
    ensures
        r@ == setup_command_name(),
{
    let arr: [u8; 26] = [
        115, 101, 116, 117, 112, 102, 97, 110, 97, 112, 112, 108, 105, 99, 97,
        116, 105, 111, 110, 99, 104, 97, 110, 110, 101, 108,
    ];
    let r: Vec<u8> = bytes_to_vec(arr.as_slice());
    proof {
        assert(r@ =~= setup_command_name());
    }
    r
}

/// The answer button identifier for original answer index `i`.
pub fn answer_custom_id(i: usize) -> (r: Vec<u8>)
    requires
        i < 10,
    ensures
        r@ == answer_id_spec(i as int),
{
    let mut r: Vec<u8> = Vec::new();
    r.push(97);
    r.push(110);
    r.push(115);
    r.push(119);
    r.push(101);
    r.push(114);
    r.push(48 + i as u8);
    proof {
        assert(r@ =~= answer_id_spec(i as int));
    }
    r
}

/// Routes an inbound component identifier.
pub fn route_component(id: &[u8]) -> (r: ComponentRoute)
    ensures
        r == route_spec(id@),
{
    let start = start_button_id_bytes();
    if bytes_eq(id, start.as_slice()) {
        return ComponentRoute::StartApplication;
    }
    if id.len() == 7 {
        let prefix: [u8; 6] = [97, 110, 115, 119, 101, 114];
        let mut k: usize = 0;
        let mut prefix_ok: bool = true;
        while k < 6
            invariant
                k <= 6,
                id@.len() == 7,
                prefix@ =~= answer_prefix(),
                prefix_ok == (forall|j: int| 0 <= j < k ==> id@[j] == answer_prefix()[j]),
            decreases 6 - k,
        {
            if id[k] != prefix[k] {
                prefix_ok = false;
            }
            k += 1;
        }
        if prefix_ok {
            proof {
                assert(id@.subrange(0, 6) =~= answer_prefix());
            }
            let d = id[6];
            if 48 <= d && d <= 51 {
                return ComponentRoute::Answer { index: (d - 48) as usize };
            }
        } else {
            proof {
                assert(id@.subrange(0, 6) != answer_prefix()) by {
                    let j = choose|j: int| 0 <= j < 6 && id@[j] != answer_prefix()[j];
                    assert(id@.subrange(0, 6)[j] != answer_prefix()[j]);
                }
            }
        }
    }
    ComponentRoute::Unknown
}

/// Tests whether an inbound command name is the setup command.
pub fn is_setup_command(name: &[u8]) -> (r: bool)
    ensures
        r == (name@ == setup_command_name()),
{
    let pat = setup_command_name_bytes();
    bytes_eq(name, pat.as_slice())
}

/// An answer button's payload decodes back to the original index it was
/// built from: shuffling the display order can never change which answer a
/// click stands for.
pub proof fn lemma_answer_id_round_trip(i: int)
    requires
        0 <= i < 4,
    ensures
        route_spec(answer_id_spec(i)) == (ComponentRoute::Answer { index: i as usize }),
{
    let id = answer_id_spec(i);
    assert(id.len() == 7);
    assert(id[6] == 48 + i);
    assert(id.subrange(0, 6) =~= answer_prefix());
    assert(id != start_button_id());
}

} // verus!
