//! What the pointer hook does with one observed event.
//!
//! The hook sees every pointer event of the system. It inspects move events
//! only, tests the pointer position against the client area of each enrolled
//! surface, and gives every surface under the pointer a synthetic move
//! message of its own, with the position in that surface's coordinates.

use crate::geometry::{Point, Rect};
use vstd::prelude::*;

verus! {

/// The message identifier of a pointer move.
pub const WM_MOUSEMOVE: u32 = 0x0200;

/// What the caller has gathered about one enrolled surface for the event at
/// hand: the surface's current client rectangle, and the pointer position
/// translated into the surface's client coordinates.
#[derive(Clone, Copy, Debug, PartialEq, Eq, Structural)]
pub struct Probe {
    pub target: isize,
    pub client: Rect,
    pub point: Point,
}

/// A message to be posted to a surface's queue.
#[derive(Clone, Copy, Debug, PartialEq, Eq, Structural)]
pub struct MoveMessage {
    pub target: isize,
    pub message: u32,
    pub wparam: usize,
    pub lparam: u32,
}

/// The two 16-bit words in one 32-bit value, `lo` in the low half.
pub open spec fn pack(lo: u16, hi: u16) -> u32 {
    (lo + hi * 0x1_0000) as u32
}

/// A coordinate cut down to the 16 bits that a message parameter has room
/// for.
pub open spec fn low_word(v: i32) -> u16 {
    (v & 0xFFFF) as u16
}

/// The event is one that the hook inspects: its code is not negative and it
/// reports a pointer move.
pub open spec fn spec_is_pointer_move(n_code: i32, w_param: usize) -> bool {
    n_code >= 0 && w_param == WM_MOUSEMOVE
}

impl Probe {
    /// The pointer is over the surface.
    pub open spec fn hit(self) -> bool {
        self.client.contains(self.point)
    }

    /// The synthetic move message for the surface.
    pub open spec fn message(self) -> MoveMessage {
        MoveMessage {
            target: self.target,
            message: WM_MOUSEMOVE,
            wparam: 0,
            lparam: pack(low_word(self.point.x), low_word(self.point.y)),
        }
    }
}

/// The messages that one move event gives rise to: one for each probe that
/// hits, in the order of the probes.
pub open spec fn fan_out(probes: Seq<Probe>) -> Seq<MoveMessage>
    decreases probes.len(),
{
    if probes.len() == 0 {
        Seq::empty()
    } else if probes.last().hit() {
        fan_out(probes.drop_last()).push(probes.last().message())
    } else {
        fan_out(probes.drop_last())
    }
}

/// How many of the probes for `target` hit.
pub open spec fn hits_on(probes: Seq<Probe>, target: isize) -> nat
    decreases probes.len(),
{
    if probes.len() == 0 {
        0
    } else if probes.last().target == target && probes.last().hit() {
        hits_on(probes.drop_last(), target) + 1
    } else {
        hits_on(probes.drop_last(), target)
    }
}

/// How many of the messages are addressed to `target`.
pub open spec fn posts_to(posts: Seq<MoveMessage>, target: isize) -> nat
    decreases posts.len(),
{
    if posts.len() == 0 {
        0
    } else if posts.last().target == target {
        posts_to(posts.drop_last(), target) + 1
    } else {
        posts_to(posts.drop_last(), target)
    }
}

/// Packs two 16-bit words into one 32-bit message parameter: `lo` fills the
/// low word and `hi` the high word, and each can be read back from its half.
pub fn make_lparam(lo: u16, hi: u16) -> (packed: u32)
    ensures
        packed == pack(lo, hi),
        packed == lo + hi * 0x1_0000,
        packed & 0xFFFF == lo,
        packed >> 16 == hi,
{
    let packed = (lo as u32) | ((hi as u32) << 16);
    assert(packed == (lo as u32) + (hi as u32) * 0x1_0000 && packed & 0xFFFF == lo as u32 && packed
        >> 16 == hi as u32) by (bit_vector)
        requires
            packed == (lo as u32) | ((hi as u32) << 16),
    ;
    packed
}

fn truncate(v: i32) -> (word: u16)
    ensures
        word == low_word(v),
{
    assert(v & 0xFFFF == (v as u16) as i32) by (bit_vector);
    #[verifier::truncate]
    (v as u16)
}

/// Whether the hook inspects an event with this code and this message
/// identifier. Every other event is passed on untouched.
#[verifier::when_used_as_spec(spec_is_pointer_move)]
pub fn is_pointer_move(n_code: i32, w_param: usize) -> (inspect: bool)
    ensures
        inspect == spec_is_pointer_move(n_code, w_param),
{
    n_code >= 0 && w_param == WM_MOUSEMOVE as usize
}

/// Decides what one observed pointer event makes the hook post.
///
/// For an event that is not inspected nothing is posted. For a pointer move
/// every probe whose point lies within its client rectangle yields exactly
/// one move message, addressed to the probe's surface and carrying the
/// point; the other probes yield none. Surfaces do not compete: when several
/// of them lie under the pointer each gets its message.
pub fn mouse_hook(n_code: i32, w_param: usize, probes: &Vec<Probe>) -> (posts: Vec<MoveMessage>)
    ensures
        posts@ == if is_pointer_move(n_code, w_param) {
            fan_out(probes@)
        } else {
            Seq::empty()
        },
{
    let mut posts: Vec<MoveMessage> = Vec::new();
    if !is_pointer_move(n_code, w_param) {
        return posts;
    }
    let mut i: usize = 0;
    while i < probes.len()
        invariant
            i <= probes.len(),
            posts@ == fan_out(probes@.take(i as int)),
        decreases probes.len() - i,
    {
        let probe = probes[i];
        proof {
            let upto = probes@.take(i + 1);
            assert(upto.drop_last() == probes@.take(i as int));
            assert(upto.last() == probe);
        }
        if probe.client.contains(probe.point) {
            posts.push(
                MoveMessage {
                    target: probe.target,
                    message: WM_MOUSEMOVE,
                    wparam: 0,
                    lparam: make_lparam(truncate(probe.point.x), truncate(probe.point.y)),
                },
            );
        }
        i += 1;
    }
    assert(probes@.take(probes@.len() as int) == probes@);
    posts
}

/// A coordinate that fits in 16 bits travels in a message unchanged, so a
/// point within a client area of ordinary size arrives as it was observed.
pub proof fn lemma_low_word_keeps_small(v: i32)
    requires
        0 <= v < 0x1_0000,
    ensures
        low_word(v) == v,
{
    assert(v & 0xFFFF == v) by (bit_vector)
        requires
            0 <= v < 0x1_0000,
    ;
}

/// Fan-out: each surface receives exactly as many messages as it has probes
/// that hit, no message goes anywhere else, and every message is the one
/// that belongs to a probe that hit.
pub proof fn lemma_fan_out_counts(probes: Seq<Probe>, target: isize)
    ensures
        posts_to(fan_out(probes), target) == hits_on(probes, target),
        fan_out(probes).len() <= probes.len(),
        forall|j: int|
            0 <= j < fan_out(probes).len() ==> exists|i: int|
                0 <= i < probes.len() && probes[i].hit() && #[trigger] fan_out(probes)[j]
                    == probes[i].message(),
        forall|i: int|
            0 <= i < probes.len() && (#[trigger] probes[i]).hit() ==> fan_out(probes).contains(
                probes[i].message(),
            ),
    decreases probes.len(),
{
    if probes.len() > 0 {
        let rest = probes.drop_last();
        let last = probes.last();
        lemma_fan_out_counts(rest, target);
        let posts = fan_out(probes);
        if last.hit() {
            assert(posts.drop_last() == fan_out(rest));
            assert(posts.last() == last.message());
        }
        assert forall|j: int| 0 <= j < posts.len() implies exists|i: int|
            0 <= i < probes.len() && probes[i].hit() && #[trigger] posts[j]
                == probes[i].message() by {
            if j < fan_out(rest).len() {
                let i = choose|i: int|
                    0 <= i < rest.len() && rest[i].hit() && fan_out(rest)[j] == rest[i].message();
                assert(probes[i] == rest[i]);
            } else {
                assert(posts[j] == probes[probes.len() - 1].message());
            }
        }
        assert forall|i: int| 0 <= i < probes.len() && (#[trigger] probes[i]).hit() implies posts.contains(
            probes[i].message(),
        ) by {
            if i < rest.len() {
                assert(rest[i] == probes[i]);
                let j = choose|j: int|
                    0 <= j < fan_out(rest).len() && fan_out(rest)[j] == rest[i].message();
                assert(posts[j] == rest[i].message());
            } else {
                assert(posts[posts.len() - 1] == probes[i].message());
            }
        }
    }
}

/// With one probe per surface, as a snapshot of the registry gives them, a
/// surface under the pointer receives exactly one message and any other
/// surface none.
pub proof fn lemma_one_message_per_surface(probes: Seq<Probe>, at: int)
    requires
        0 <= at < probes.len(),
        forall|i: int, j: int|
            0 <= i < j < probes.len() ==> (#[trigger] probes[i]).target != (
            #[trigger] probes[j]).target,
    ensures
        posts_to(fan_out(probes), probes[at].target) == if probes[at].hit() {
            1nat
        } else {
            0nat
        },
{
    lemma_fan_out_counts(probes, probes[at].target);
    lemma_hits_on_distinct(probes, at);
}

proof fn lemma_hits_on_absent(probes: Seq<Probe>, target: isize)
    requires
        forall|i: int| 0 <= i < probes.len() ==> (#[trigger] probes[i]).target != target,
    ensures
        hits_on(probes, target) == 0,
    decreases probes.len(),
{
    if probes.len() > 0 {
        let rest = probes.drop_last();
        assert(probes.last() == probes[probes.len() - 1]);
        assert forall|i: int| 0 <= i < rest.len() implies (#[trigger] rest[i]).target != target by {
            assert(rest[i] == probes[i]);
        }
        lemma_hits_on_absent(rest, target);
    }
}

proof fn lemma_hits_on_distinct(probes: Seq<Probe>, at: int)
    requires
        0 <= at < probes.len(),
        forall|i: int, j: int|
            0 <= i < j < probes.len() ==> (#[trigger] probes[i]).target != (
            #[trigger] probes[j]).target,
    ensures
        hits_on(probes, probes[at].target) == if probes[at].hit() {
            1nat
        } else {
            0nat
        },
    decreases probes.len(),
{
    let rest = probes.drop_last();
    let target = probes[at].target;
    assert(probes.last() == probes[probes.len() - 1]);
    assert forall|i: int, j: int| 0 <= i < j < rest.len() implies (#[trigger] rest[i]).target != (
    #[trigger] rest[j]).target by {
        assert(rest[i] == probes[i]);
        assert(rest[j] == probes[j]);
    }
    if at == probes.len() - 1 {
        assert forall|i: int| 0 <= i < rest.len() implies (#[trigger] rest[i]).target != target by {
            assert(rest[i] == probes[i]);
        }
        lemma_hits_on_absent(rest, target);
    } else {
        assert(rest[at] == probes[at]);
        lemma_hits_on_distinct(rest, at);
    }
}

} // verus!
