//! An in-memory sink for serialised data.
use vstd::prelude::*;

verus! {

/// `std::io::Error`, opaque: writing to memory makes no value of it.
#[verifier::external_type_specification]
#[verifier::external_body]
pub struct ExIoError(std::io::Error);

/// A writer that keeps all that it is given.
pub struct VecWriter(pub Vec<u8>);

impl View for VecWriter {
    type V = Seq<u8>;

    open spec fn view(&self) -> Seq<u8> {
        self.0@
    }
}

/// `buf` is written to a writer that holds `before`, and then it holds `after`.
pub open spec fn written(before: Seq<u8>, after: Seq<u8>, buf: Seq<u8>) -> bool {
    after == before + buf
}

impl lightning::util::ser::Writer for VecWriter {
    /// Appends `buf`. Never fails.
    fn write_all(&mut self, buf: &[u8]) -> (r: Result<(), std::io::Error>)
        ensures
            r is Ok,
            written(old(self)@, final(self)@, buf@),
            final(self).0@.len() == old(self).0@.len() + buf@.len(),
            forall|i: int| 0 <= i < old(self).0@.len() ==> final(self).0@[i] == old(self).0@[i],
            forall|i: int|
                0 <= i < buf@.len() ==> final(self).0@[old(self).0@.len() + i] == #[trigger] buf@[i],
    {
        self.0.extend_from_slice(buf);
        assert(self@ =~= old(self)@ + buf@);
        Ok(())
    }
}

/// Law: a write keeps every byte that was there, in its place, and puts those of `buf`
/// behind them, in order and nothing else.
pub proof fn law_write_appends(before: Seq<u8>, after: Seq<u8>, buf: Seq<u8>)
    ensures
        written(before, after, buf) <==> {
            &&& after.len() == before.len() + buf.len()
            &&& forall|i: int| 0 <= i < before.len() ==> after[i] == before[i]
            &&& forall|i: int| 0 <= i < buf.len() ==> after[before.len() + i] == #[trigger] buf[i]
        },
{
    if after.len() == before.len() + buf.len() && (forall|i: int|
        0 <= i < before.len() ==> after[i] == before[i]) && (forall|i: int|
        0 <= i < buf.len() ==> after[before.len() + i] == #[trigger] buf[i]) {
        assert forall|i: int| before.len() <= i < after.len() implies after[i] == (before + buf)[i] by {
            assert(after[before.len() + (i - before.len())] == buf[i - before.len()]);
        }
        assert(after =~= before + buf);
    }
}

/// `bufs` are written one after the other; `states[k]` is held after `k` of them.
pub open spec fn is_write_run(states: Seq<Seq<u8>>, bufs: Seq<Seq<u8>>) -> bool {
    &&& states.len() == bufs.len() + 1
    &&& forall|k: int| 0 <= k < bufs.len() ==> written(states[k], states[k + 1], #[trigger] bufs[k])
}

/// Law: after any number of writes the writer holds what it held before, followed by all
/// that was written, in order.
pub proof fn law_writes_concatenate(states: Seq<Seq<u8>>, bufs: Seq<Seq<u8>>)
    requires
        is_write_run(states, bufs),
    ensures
        states.last() == states[0] + bufs.flatten(),
    decreases bufs.len(),
{
    if bufs.len() == 0 {
        assert(states[0] + bufs.flatten() =~= states[0]);
    } else {
        let n = bufs.len() - 1;
        assert forall|k: int| 0 <= k < n implies written(
            states.drop_last()[k],
            states.drop_last()[k + 1],
            #[trigger] bufs.drop_last()[k],
        ) by {
            assert(written(states[k], states[k + 1], bufs[k]));
        }
        law_writes_concatenate(states.drop_last(), bufs.drop_last());
        assert(written(states[n], states[n + 1], bufs[n]));
        bufs.drop_last().lemma_flatten_push(bufs.last());
        assert(bufs.drop_last().push(bufs.last()) =~= bufs);
        assert(states[0] + bufs.flatten() =~= (states[0] + bufs.drop_last().flatten())
            + bufs.last());
    }
}

} // verus!
