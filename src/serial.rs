use vstd::prelude::*;
use crate::line::{LineAssembler, RxError, NEWLINE};
use crate::queue::SpawnQueue;

verus! {

/// What one read of the serial receiver gave: a byte, or a receive fault.
#[derive(Clone, Copy, Debug, PartialEq, Eq, Structural)]
pub enum RxEvent {
    Byte(u8),
    Fault(RxError),
}

/// The payloads that an event hands to the line task: the byte itself, or
/// the fault's marker followed by a newline that forces the line out.
pub open spec fn rx_payloads(ev: RxEvent) -> Seq<u8> {
    match ev {
        RxEvent::Byte(b) => seq![b],
        RxEvent::Fault(k) => seq![k.spec_marker(), NEWLINE],
    }
}

/// The queue after offering each payload of `ps` in turn; those that find
/// it full are dropped.
pub open spec fn offered_all(q: Seq<u8>, ps: Seq<u8>) -> Seq<u8>
    decreases ps.len(),
{
    if ps.len() == 0 {
        q
    } else {
        crate::queue::offered(offered_all(q, ps.drop_last()), ps.last())
    }
}

/// Hands what the receiver gave to the line task's queue, without blocking:
/// a payload that finds the queue full is dropped. Returns how many were
/// accepted.
pub fn receive(q: &mut SpawnQueue, ev: RxEvent) -> (r: usize)
    requires
        old(q).wf(),
    ensures
        final(q).wf(),
        final(q)@ == offered_all(old(q)@, rx_payloads(ev)),
        r == final(q)@.len() - old(q)@.len(),
{
    match ev {
        RxEvent::Byte(b) => {
            let ok = q.try_spawn(b);
            assert(seq![b].drop_last() =~= Seq::<u8>::empty());
            assert(offered_all(old(q)@, Seq::<u8>::empty()) == old(q)@);
            if ok.is_ok() {
                1
            } else {
                0
            }
        },
        RxEvent::Fault(k) => {
            let first = q.try_spawn(k.marker());
            let second = q.try_spawn(NEWLINE);
            let ghost ps = seq![k.spec_marker(), NEWLINE];
            assert(ps.drop_last() =~= seq![k.spec_marker()]);
            assert(seq![k.spec_marker()].drop_last() =~= Seq::<u8>::empty());
            assert(offered_all(old(q)@, Seq::<u8>::empty()) == old(q)@);
            let ghost once = crate::queue::offered(old(q)@, k.spec_marker());
            assert(offered_all(old(q)@, seq![k.spec_marker()]) == once);
            assert(offered_all(old(q)@, ps) == crate::queue::offered(once, NEWLINE));
            let mut n: usize = 0;
            if first.is_ok() {
                n = n + 1;
            }
            if second.is_ok() {
                n = n + 1;
            }
            n
        },
    }
}

/// Runs the line task for every request waiting in `q`, oldest first, and
/// returns the lines that they flushed, in order.
pub fn run_pending(q: &mut SpawnQueue, assembler: &mut LineAssembler) -> (lines: Vec<String>)
    requires
        old(q).wf(),
        old(assembler).wf(),
    ensures
        final(q).wf(),
        final(assembler).wf(),
        final(q)@ == Seq::<u8>::empty(),
        final(assembler)@ == crate::line::feed_all(old(assembler)@, old(q)@),
        lines@.map_values(|l: String| l@) == crate::line::lines_of(old(assembler)@, old(q)@),
{
    let ghost start = assembler@;
    let ghost all = q@;
    proof {
        q.lemma_bounded();
    }
    let mut lines: Vec<String> = Vec::new();
    let mut n: usize = 0;
    while q.len() > 0
        invariant
            q.wf(),
            assembler.wf(),
            0 <= n <= all.len(),
            all.len() <= crate::queue::QUEUE_CAPACITY,
            q@ == all.subrange(n as int, all.len() as int),
            assembler@ == crate::line::feed_all(start, all.take(n as int)),
            lines@.map_values(|l: String| l@) == crate::line::lines_of(start, all.take(n as int)),
        decreases q@.len(),
    {
        let p = q.pop();
        let ghost before = assembler@;
        let b = match p {
            Some(b) => b,
            None => 0,
        };
        assert(b == all[n as int]);
        assert(all.take(n + 1).drop_last() =~= all.take(n as int));
        assert(all.take(n + 1).last() == b);
        let out = assembler.on_byte(b);
        match out {
            Some(l) => {
                let ghost prev = lines@;
                lines.push(l);
                assert(lines@.map_values(|l: String| l@) =~= prev.map_values(|l: String| l@).push(
                    before,
                ));
            },
            None => {},
        }
        n = n + 1;
        assert(q@ =~= all.subrange(n as int, all.len() as int));
    }
    assert(all.take(n as int) =~= all);
    lines
}

} // verus!
