//! The batch buffer: accumulates write statements as serialized text,
//! tracks term counts and byte size, owns the temporary-identifier counter,
//! and decides when the pending batch must be committed.
//!
//! Committing itself is a blocking call into the destination store, so the
//! buffer never performs it: `transact` hands the caller the serialized
//! batch to submit. After the store accepts a batch the caller calls
//! `reset`; after a rejection the buffer is left as it stands, so its raw
//! content can be surfaced for diagnosis.

use vstd::prelude::*;
use vstd::string::StringExecFns;
use vstd::utf8::encode_utf8;

use crate::catalog::Keyword;
use crate::text::dec_digits;
use crate::text::dec_int;
use crate::text::escape_str;
use crate::text::escape_string;
use crate::text::push_dec_i64;
use crate::text::push_dec_u64;

verus! {

/// The text an empty buffer starts with: the opening bracket of the batch.
pub open spec fn buffer_header() -> Seq<char> {
    "[\n"@
}

/// The text of one write statement: an assertion of one attribute value
/// for the entity standing under a temporary identifier.
pub open spec fn stmt_chars(tmpid: int, attr: Seq<char>, value: Seq<char>) -> Seq<char> {
    " [:db/add \""@ + dec_digits(tmpid) + "\" "@ + attr + " "@ + value + "]\n"@
}

/// The value text of a reference to another temporary identifier.
pub open spec fn ref_value_chars(ref_tmpid: int) -> Seq<char> {
    seq!['"'] + dec_digits(ref_tmpid) + seq!['"']
}

/// The value text of a microsecond instant.
pub open spec fn inst_value_chars(micros: int) -> Seq<char> {
    "#instmicros "@ + dec_int(micros)
}

/// The value text of an embedded string: the escaped form in quotes.
pub open spec fn str_value_chars(s: Seq<char>) -> Seq<char> {
    seq!['"'] + escape_str(s) + seq!['"']
}

/// The batch buffer. `counter` issues temporary identifiers, scoped to this
/// buffer instance; `data` is the pending serialized batch; `terms` counts
/// the statements of the pending batch and `total_terms` the statements
/// ever written; `max_buffer_size` is the byte threshold at which the
/// pending batch should be committed.
pub struct TransactBuilder {
    pub counter: u64,
    pub data: String,
    pub total_terms: u64,
    pub terms: u64,
    pub max_buffer_size: usize,
    /// Every temporary identifier this buffer has issued, in issue order.
    pub issued: Ghost<Seq<u64>>,
}

impl TransactBuilder {
    /// The identifiers issued so far are positive, at most the counter, and
    /// strictly increasing in issue order.
    pub open spec fn wf(self) -> bool {
        &&& forall|i: int|
            0 <= i < self.issued@.len() ==> 1 <= #[trigger] self.issued@[i] <= self.counter
        &&& forall|i: int, j: int|
            0 <= i < j < self.issued@.len() ==> self.issued@[i] < self.issued@[j]
    }

    /// What appending a statement leaves untouched: the identifier scope
    /// and the configured threshold.
    pub open spec fn same_scope(pre: TransactBuilder, post: TransactBuilder) -> bool {
        &&& post.counter == pre.counter
        &&& post.max_buffer_size == pre.max_buffer_size
        &&& post.issued == pre.issued
    }

    /// The byte size of the pending serialized batch.
    pub open spec fn byte_size(self) -> nat {
        encode_utf8(self.data@).len()
    }

    /// Whether the pending batch has reached the configured threshold.
    pub open spec fn spec_should_finish(self) -> bool {
        self.byte_size() as usize >= self.max_buffer_size
    }

    pub fn new_with_size(max_buffer_size: usize) -> (b: Self)
        ensures
            b.wf(),
            b.counter == 0,
            b.data@ == buffer_header(),
            b.terms == 0,
            b.total_terms == 0,
            b.max_buffer_size == max_buffer_size,
            b.issued@ == Seq::<u64>::empty(),
    {
        TransactBuilder {
            counter: 0,
            data: "[\n".to_owned(),
            terms: 0,
            total_terms: 0,
            max_buffer_size,
            issued: Ghost(Seq::empty()),
        }
    }

    /// Issues a fresh temporary identifier, strictly greater than every
    /// identifier this buffer has issued before.
    pub fn next_tempid(&mut self) -> (id: u64)
        requires
            old(self).wf(),
            old(self).counter < u64::MAX,
        ensures
            final(self).wf(),
            id == old(self).counter + 1,
            final(self).counter == id,
            final(self).issued@ == old(self).issued@.push(id),
            final(self).data@ == old(self).data@,
            final(self).terms == old(self).terms,
            final(self).total_terms == old(self).total_terms,
            final(self).max_buffer_size == old(self).max_buffer_size,
    {
        self.counter = self.counter + 1;
        proof {
            self.issued@ = self.issued@.push(self.counter);
        }
        self.counter
    }

    /// Appends the fixed opening of a statement: the tag, the quoted
    /// temporary identifier and the attribute keyword.
    fn push_stmt_open(&mut self, tmpid: u64, attr: &Keyword)
        ensures
            final(self).data@ == old(self).data@ + " [:db/add \""@ + dec_digits(tmpid as int)
                + "\" "@ + attr@ + " "@,
            final(self).terms == old(self).terms,
            final(self).total_terms == old(self).total_terms,
            Self::same_scope(*old(self), *final(self)),
    {
        self.data.append(" [:db/add \"");
        push_dec_u64(&mut self.data, tmpid);
        self.data.append("\" ");
        attr.push_onto(&mut self.data);
        self.data.append(" ");
        proof {
            assert(self.data@ =~= old(self).data@ + " [:db/add \""@ + dec_digits(tmpid as int)
                + "\" "@ + attr@ + " "@);
        }
    }

    /// Appends the closing of a statement and counts the new term.
    fn close_stmt(&mut self)
        requires
            old(self).terms < u64::MAX,
            old(self).total_terms < u64::MAX,
        ensures
            final(self).data@ == old(self).data@ + "]\n"@,
            final(self).terms == old(self).terms + 1,
            final(self).total_terms == old(self).total_terms + 1,
            Self::same_scope(*old(self), *final(self)),
    {
        self.data.append("]\n");
        self.terms = self.terms + 1;
        self.total_terms = self.total_terms + 1;
    }

    /// Appends a statement whose value is a reference to another temporary
    /// identifier of this same pending batch.
    pub fn add_ref_to_tmpid(&mut self, tmpid: u64, attr: &Keyword, ref_tmpid: u64)
        requires
            old(self).wf(),
            old(self).issued@.contains(tmpid),
            old(self).terms < u64::MAX,
            old(self).total_terms < u64::MAX,
        ensures
            final(self).wf(),
            final(self).data@ == old(self).data@ + stmt_chars(
                tmpid as int,
                attr@,
                ref_value_chars(ref_tmpid as int),
            ),
            final(self).terms == old(self).terms + 1,
            final(self).total_terms == old(self).total_terms + 1,
            Self::same_scope(*old(self), *final(self)),
    {
        let ghost pre = *old(self);
        self.push_stmt_open(tmpid, attr);
        proof {
            reveal_strlit("\"");
            assert("\""@ =~= seq!['"']);
        }
        self.data.append("\"");
        push_dec_u64(&mut self.data, ref_tmpid);
        self.data.append("\"");
        self.close_stmt();
        proof {
            assert(self.data@ =~= pre.data@ + stmt_chars(
                tmpid as int,
                attr@,
                ref_value_chars(ref_tmpid as int),
            ));
        }
    }

    /// Appends a statement whose value is a microsecond instant.
    pub fn add_inst(&mut self, tmpid: u64, attr: &Keyword, micros: i64)
        requires
            old(self).wf(),
            old(self).issued@.contains(tmpid),
            old(self).terms < u64::MAX,
            old(self).total_terms < u64::MAX,
        ensures
            final(self).wf(),
            final(self).data@ == old(self).data@ + stmt_chars(
                tmpid as int,
                attr@,
                inst_value_chars(micros as int),
            ),
            final(self).terms == old(self).terms + 1,
            final(self).total_terms == old(self).total_terms + 1,
            Self::same_scope(*old(self), *final(self)),
    {
        let ghost pre = *old(self);
        self.push_stmt_open(tmpid, attr);
        self.data.append("#instmicros ");
        push_dec_i64(&mut self.data, micros);
        self.close_stmt();
        proof {
            assert(self.data@ =~= pre.data@ + stmt_chars(
                tmpid as int,
                attr@,
                inst_value_chars(micros as int),
            ));
        }
    }

    /// Appends a statement whose value is another keyword, such as an
    /// enumerated visit type.
    pub fn add_kw(&mut self, tmpid: u64, attr: &Keyword, val: &Keyword)
        requires
            old(self).wf(),
            old(self).issued@.contains(tmpid),
            old(self).terms < u64::MAX,
            old(self).total_terms < u64::MAX,
        ensures
            final(self).wf(),
            final(self).data@ == old(self).data@ + stmt_chars(tmpid as int, attr@, val@),
            final(self).terms == old(self).terms + 1,
            final(self).total_terms == old(self).total_terms + 1,
            Self::same_scope(*old(self), *final(self)),
    {
        let ghost pre = *old(self);
        self.push_stmt_open(tmpid, attr);
        val.push_onto(&mut self.data);
        self.close_stmt();
        proof {
            assert(self.data@ =~= pre.data@ + stmt_chars(tmpid as int, attr@, val@));
        }
    }

    /// Appends a statement whose value is a string, escaped for embedding.
    pub fn add_str(&mut self, tmpid: u64, attr: &Keyword, val: &str)
        requires
            old(self).wf(),
            old(self).issued@.contains(tmpid),
            old(self).terms < u64::MAX,
            old(self).total_terms < u64::MAX,
        ensures
            final(self).wf(),
            final(self).data@ == old(self).data@ + stmt_chars(
                tmpid as int,
                attr@,
                str_value_chars(val@),
            ),
            final(self).terms == old(self).terms + 1,
            final(self).total_terms == old(self).total_terms + 1,
            Self::same_scope(*old(self), *final(self)),
    {
        let ghost pre = *old(self);
        self.push_stmt_open(tmpid, attr);
        proof {
            reveal_strlit("\"");
            assert("\""@ =~= seq!['"']);
        }
        let escaped = escape_string(val);
        self.data.append("\"");
        self.data.append(escaped.as_str());
        self.data.append("\"");
        self.close_stmt();
        proof {
            assert(self.data@ =~= pre.data@ + stmt_chars(
                tmpid as int,
                attr@,
                str_value_chars(val@),
            ));
        }
    }

    /// Appends a statement whose value is a plain integer, such as a
    /// resolved permanent identifier or a frecency.
    pub fn add_long(&mut self, tmpid: u64, attr: &Keyword, val: i64)
        requires
            old(self).wf(),
            old(self).issued@.contains(tmpid),
            old(self).terms < u64::MAX,
            old(self).total_terms < u64::MAX,
        ensures
            final(self).wf(),
            final(self).data@ == old(self).data@ + stmt_chars(
                tmpid as int,
                attr@,
                dec_int(val as int),
            ),
            final(self).terms == old(self).terms + 1,
            final(self).total_terms == old(self).total_terms + 1,
            Self::same_scope(*old(self), *final(self)),
    {
        let ghost pre = *old(self);
        self.push_stmt_open(tmpid, attr);
        push_dec_i64(&mut self.data, val);
        self.close_stmt();
        proof {
            assert(self.data@ =~= pre.data@ + stmt_chars(
                tmpid as int,
                attr@,
                dec_int(val as int),
            ));
        }
    }

    /// Closes the pending batch text with its final bracket and hands it
    /// back, ready to be submitted.
    pub fn finish(&mut self) -> (r: &str)
        ensures
            final(self).data@ == old(self).data@ + "]"@,
            r@ == final(self).data@,
            final(self).terms == old(self).terms,
            final(self).total_terms == old(self).total_terms,
            Self::same_scope(*old(self), *final(self)),
    {
        self.data.append("]");
        self.data.as_str()
    }

    /// Empties the pending batch: the text returns to its baseline and the
    /// pending term count to zero. The temporary-identifier counter is not
    /// reset: identifiers must stay unique while a logical scope is still
    /// open across commits. Call this only after the destination store has
    /// accepted the pending batch.
    pub fn reset(&mut self)
        ensures
            final(self).data@ == buffer_header(),
            final(self).terms == 0,
            final(self).total_terms == old(self).total_terms,
            Self::same_scope(*old(self), *final(self)),
    {
        self.terms = 0;
        self.data = "[\n".to_owned();
    }

    /// Whether the pending batch's byte size has reached the configured
    /// threshold. A threshold of zero asks for a commit after every
    /// logical unit.
    pub fn should_finish(&self) -> (r: bool)
        ensures
            r == self.spec_should_finish(),
    {
        self.data.as_str().len() >= self.max_buffer_size
    }

    /// If the pending batch holds any terms, closes it and returns its
    /// serialized text for the caller to submit as one atomic transaction;
    /// the buffer keeps the closed text until `reset`, so a rejected commit
    /// leaves it intact for diagnosis. With no pending terms this is a
    /// no-op returning nothing.
    pub fn transact(&mut self) -> (r: Option<String>)
        requires
            old(self).wf(),
        ensures
            final(self).wf(),
            old(self).terms == 0 ==> r is None && *final(self) == *old(self),
            old(self).terms != 0 ==> {
                &&& r is Some
                &&& r->Some_0@ == old(self).data@ + "]"@
                &&& final(self).data@ == old(self).data@ + "]"@
                &&& final(self).terms == old(self).terms
                &&& final(self).total_terms == old(self).total_terms
                &&& Self::same_scope(*old(self), *final(self))
            },
    {
        if self.terms != 0 {
            let text = self.finish().to_owned();
            Some(text)
        } else {
            None
        }
    }

    /// The flush decision: commits the pending batch exactly when its byte
    /// size has reached the threshold and it holds at least one term, and
    /// then returns the whole closed batch, never part of it.
    pub fn maybe_transact(&mut self) -> (r: Option<String>)
        requires
            old(self).wf(),
        ensures
            final(self).wf(),
            !(old(self).spec_should_finish() && old(self).terms != 0) ==> r is None
                && *final(self) == *old(self),
            old(self).spec_should_finish() && old(self).terms != 0 ==> {
                &&& r is Some
                &&& r->Some_0@ == old(self).data@ + "]"@
                &&& final(self).data@ == old(self).data@ + "]"@
                &&& final(self).terms == old(self).terms
                &&& final(self).total_terms == old(self).total_terms
                &&& Self::same_scope(*old(self), *final(self))
            },
    {
        if self.should_finish() {
            self.transact()
        } else {
            None
        }
    }
}

/// Law: within one buffer's open scope, `next_tempid` never returns the
/// same value twice — the identifiers issued so far are pairwise distinct.
pub proof fn lemma_tempids_unique(b: TransactBuilder)
    requires
        b.wf(),
    ensures
        forall|i: int, j: int|
            0 <= i < j < b.issued@.len() ==> b.issued@[i] != b.issued@[j],
{
}

} // verus!
