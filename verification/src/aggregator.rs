//! A bounded collection of signatures on their way to a proof.

use vstd::prelude::*;
use crate::bytes::{be32, push_be32};
use crate::text::{decimal, push_decimal, push_text};

verus! {

/// A signature with the message it signs and the key it is to be checked
/// against, each as bytes.
#[derive(Debug, Clone)]
pub struct AggregatedSignature {
    pub signature: Vec<u8>,
    pub message: Vec<u8>,
    pub root: Vec<u8>,
    pub public_seed: Vec<u8>,
}

/// The aggregator holds as many signatures as it may.
#[derive(Debug, Clone, Copy, PartialEq, Eq, Structural)]
pub struct AggregatorFull {
    pub max_signatures: usize,
}

impl AggregatorFull {
    /// The message of the error as a sequence of characters.
    pub open spec fn message_text(self) -> Seq<char> {
        "Aggregator is full (max "@ + decimal(self.max_signatures as nat) + " signatures)"@
    }

    /// The message of the error, for a reader.
    pub fn message(&self) -> (text: String)
        ensures
            text@ == self.message_text(),
    {
        let mut text = String::new();
        push_text(&mut text, "Aggregator is full (max ");
        push_decimal(&mut text, self.max_signatures as u64);
        push_text(&mut text, " signatures)");
        assert(text@ =~= self.message_text());
        text
    }
}

/// The bytes of one entry: the signature and the message, each behind its
/// length as four bytes, most significant first, then the root and the seed.
pub open spec fn entry_bytes(e: AggregatedSignature) -> Seq<u8> {
    be32(e.signature@.len()) + e.signature@ + be32(e.message@.len()) + e.message@ + e.root@
        + e.public_seed@
}

/// The bytes of the first `n` entries, one after the other.
pub open spec fn entries_bytes(entries: Seq<AggregatedSignature>, n: nat) -> Seq<u8>
    decreases n,
{
    if n == 0 {
        Seq::empty()
    } else {
        entries_bytes(entries, (n - 1) as nat) + entry_bytes(entries[n - 1])
    }
}

/// The bytes that go to the proof: the number of entries as four bytes, most
/// significant first, and the entries.
pub open spec fn proof_bytes(entries: Seq<AggregatedSignature>) -> Seq<u8> {
    be32(entries.len()) + entries_bytes(entries, entries.len())
}

/// Collects signatures up to a fixed number, for verification as a batch.
pub struct SignatureAggregator {
    entries: Vec<AggregatedSignature>,
    max_signatures: usize,
}

impl SignatureAggregator {
    /// The entries held, in the order in which they were added.
    pub closed spec fn view(&self) -> Seq<AggregatedSignature> {
        self.entries@
    }

    /// The number of entries that the aggregator may hold.
    pub closed spec fn capacity(&self) -> nat {
        self.max_signatures as nat
    }

    /// The aggregator holds no more than it may.
    pub open spec fn wf(&self) -> bool {
        self@.len() <= self.capacity()
    }

    /// An empty aggregator for up to 10 signatures.
    pub fn new() -> (agg: Self)
        ensures
            agg.wf(),
            agg@.len() == 0,
            agg.capacity() == 10,
    {
        Self::with_capacity(10)
    }

    /// An empty aggregator for up to 100 signatures.
    pub fn new_100() -> (agg: Self)
        ensures
            agg.wf(),
            agg@.len() == 0,
            agg.capacity() == 100,
    {
        Self::with_capacity(100)
    }

    /// An empty aggregator for up to 1000 signatures.
    pub fn new_1000() -> (agg: Self)
        ensures
            agg.wf(),
            agg@.len() == 0,
            agg.capacity() == 1000,
    {
        Self::with_capacity(1000)
    }

    /// An empty aggregator for up to 10,000 signatures.
    pub fn new_10000() -> (agg: Self)
        ensures
            agg.wf(),
            agg@.len() == 0,
            agg.capacity() == 10000,
    {
        Self::with_capacity(10000)
    }

    /// An empty aggregator for up to `max_signatures` signatures.
    pub fn with_capacity(max_signatures: usize) -> (agg: Self)
        ensures
            agg.wf(),
            agg@.len() == 0,
            agg.capacity() == max_signatures,
    {
        SignatureAggregator { entries: Vec::new(), max_signatures }
    }

    /// Adds a signature with its message and key, unless the aggregator is full.
    pub fn add_signature(
        &mut self,
        signature: Vec<u8>,
        message: Vec<u8>,
        root: Vec<u8>,
        public_seed: Vec<u8>,
    ) -> (res: Result<(), AggregatorFull>)
        requires
            old(self).wf(),
        ensures
            final(self).wf(),
            final(self).capacity() == old(self).capacity(),
            res is Ok <==> old(self)@.len() < old(self).capacity(),
            res is Ok ==> final(self)@ == old(self)@.push(
                AggregatedSignature { signature, message, root, public_seed },
            ),
            res is Err ==> final(self)@ == old(self)@ && res->Err_0.max_signatures
                == old(self).capacity(),
    {
        if self.entries.len() >= self.max_signatures {
            return Err(AggregatorFull { max_signatures: self.max_signatures });
        }
        self.entries.push(AggregatedSignature { signature, message, root, public_seed });
        Ok(())
    }

    /// The bytes that go to the proof.
    pub fn serialize_for_proof(&self) -> (data: Vec<u8>)
        ensures
            data@ == proof_bytes(self@),
    {
        let mut data: Vec<u8> = Vec::new();
        push_be32(&mut data, self.entries.len() as u64);
        let mut i: usize = 0;
        while i < self.entries.len()
            invariant
                i <= self.entries@.len(),
                data@ == be32(self.entries@.len()) + entries_bytes(self.entries@, i as nat),
            decreases self.entries@.len() - i,
        {
            let e = &self.entries[i];
            let ghost before = data@;
            push_be32(&mut data, e.signature.len() as u64);
            data.extend_from_slice(e.signature.as_slice());
            push_be32(&mut data, e.message.len() as u64);
            data.extend_from_slice(e.message.as_slice());
            data.extend_from_slice(e.root.as_slice());
            data.extend_from_slice(e.public_seed.as_slice());
            assert(data@ =~= before + entry_bytes(self.entries@[i as int]));
            assert(data@ =~= be32(self.entries@.len()) + entries_bytes(
                self.entries@,
                (i + 1) as nat,
            ));
            i += 1;
        }
        data
    }

    /// The number of signatures held.
    pub fn len(&self) -> (n: usize)
        ensures
            n == self@.len(),
    {
        self.entries.len()
    }

    /// Whether no signature is held.
    pub fn is_empty(&self) -> (empty: bool)
        ensures
            empty == (self@.len() == 0),
    {
        self.entries.len() == 0
    }

    /// Drops all signatures; the capacity stays.
    pub fn clear(&mut self)
        ensures
            final(self)@.len() == 0,
            final(self).capacity() == old(self).capacity(),
            final(self).wf(),
    {
        self.entries.clear();
    }
}

} // verus!
