use crate::digest::{keccak256, keccak256_of, Digest};
use crate::transaction::{NamespaceId, Transaction};
use vstd::prelude::*;

verus! {

/// The bytes of one namespace within a block's payload: those from `start`
/// up to, and without, `end`.
#[derive(Clone, Copy, Debug)]
pub struct NamespaceRange {
    pub namespace: NamespaceId,
    pub start: usize,
    pub end: usize,
}

/// Where each namespace's bytes stand in a block's payload.
#[derive(Debug)]
pub struct NamespaceTable {
    pub entries: Vec<NamespaceRange>,
}

impl NamespaceTable {
    /// The table of a payload without bytes.
    pub fn empty() -> (table: NamespaceTable)
        ensures
            table.entries@.len() == 0,
    {
        NamespaceTable { entries: Vec::new() }
    }

}

impl NamespaceTable {
    /// The position of the first entry for a namespace from `from` on, or
    /// the number of entries where there is none.
    pub open spec fn position_of(entries: Seq<NamespaceRange>, namespace: u64, from: int) -> int
        decreases entries.len() - from,
    {
        if from >= entries.len() {
            entries.len() as int
        } else if entries[from].namespace.id == namespace {
            from
        } else {
            Self::position_of(entries, namespace, from + 1)
        }
    }

    /// Where the bytes of a namespace stand: the first entry of the table
    /// for that namespace, or `None` where the table has none.
    pub fn get(&self, namespace: NamespaceId) -> (r: Option<NamespaceRange>)
        ensures
            match r {
                Some(range) => Self::position_of(self.entries@, namespace.id, 0)
                    < self.entries@.len() && range == self.entries@[Self::position_of(
                    self.entries@,
                    namespace.id,
                    0,
                )] && range.namespace.id == namespace.id,
                None => Self::position_of(self.entries@, namespace.id, 0) == self.entries@.len(),
            },
    {
        let mut i: usize = 0;
        while i < self.entries.len()
            invariant
                i <= self.entries.len(),
                Self::position_of(self.entries@, namespace.id, 0) == Self::position_of(
                    self.entries@,
                    namespace.id,
                    i as int,
                ),
            decreases self.entries.len() - i,
        {
            if self.entries[i].namespace.id == namespace.id {
                return Some(self.entries[i]);
            }
            i += 1;
        }
        None
    }
}

impl Clone for NamespaceTable {
    fn clone(&self) -> (table: NamespaceTable)
        ensures
            table.entries@ == self.entries@,
    {
        let mut entries: Vec<NamespaceRange> = Vec::new();
        let mut i: usize = 0;
        while i < self.entries.len()
            invariant
                i <= self.entries.len(),
                entries@ == self.entries@.subrange(0, i as int),
            decreases self.entries.len() - i,
        {
            entries.push(self.entries[i]);
            assert(entries@ =~= self.entries@.subrange(0, i + 1));
            i += 1;
        }
        assert(self.entries@.subrange(0, self.entries@.len() as int) =~= self.entries@);
        NamespaceTable { entries }
    }
}

/// The bytes of the first `n` transactions that belong to a namespace, one
/// transaction after the other.
pub open spec fn bytes_of_namespace(txns: Seq<Transaction>, namespace: u64, n: nat) -> Seq<u8>
    decreases n,
{
    if n == 0 {
        Seq::empty()
    } else {
        let before = bytes_of_namespace(txns, namespace, (n - 1) as nat);
        if txns[n - 1].spec_namespace() == namespace {
            before + txns[n - 1].spec_payload()
        } else {
            before
        }
    }
}

/// Whether no transaction before the one at position `i` belongs to its
/// namespace.
pub open spec fn opens_namespace(txns: Seq<Transaction>, i: int) -> bool {
    forall|j: int| 0 <= j < i ==> (#[trigger] txns[j]).spec_namespace() != txns[i].spec_namespace()
}

/// The payload of the namespaces that are opened by the first `n`
/// transactions: the bytes of each namespace in one piece, the namespaces in
/// the order in which they first appear.
pub open spec fn payload_of(txns: Seq<Transaction>, n: nat) -> Seq<u8>
    decreases n,
{
    if n == 0 {
        Seq::empty()
    } else {
        let before = payload_of(txns, (n - 1) as nat);
        if opens_namespace(txns, n - 1) {
            before + bytes_of_namespace(txns, txns[n - 1].spec_namespace(), txns.len())
        } else {
            before
        }
    }
}

/// The table of the namespaces that are opened by the first `n`
/// transactions: for each, its name and where its bytes stand in the
/// payload.
pub open spec fn table_of(txns: Seq<Transaction>, n: nat) -> Seq<(u64, int, int)>
    decreases n,
{
    if n == 0 {
        Seq::empty()
    } else {
        let before = table_of(txns, (n - 1) as nat);
        if opens_namespace(txns, n - 1) {
            before.push(
                (
                    txns[n - 1].spec_namespace(),
                    payload_of(txns, (n - 1) as nat).len() as int,
                    payload_of(txns, n).len() as int,
                ),
            )
        } else {
            before
        }
    }
}

/// The pieces that a table names lie one behind the other and make up the
/// whole payload: the first starts at 0, each starts where the one before it
/// ends, and the last ends where the payload ends.
pub proof fn lemma_table_covers_payload(txns: Seq<Transaction>, n: nat)
    requires
        n <= txns.len(),
    ensures
        table_of(txns, n).len() == 0 ==> payload_of(txns, n).len() == 0,
        table_of(txns, n).len() > 0 ==> table_of(txns, n)[0].1 == 0 && table_of(txns, n).last().2
            == payload_of(txns, n).len(),
        forall|k: int|
            0 <= k < table_of(txns, n).len() ==> (#[trigger] table_of(txns, n)[k]).1 <= table_of(
                txns,
                n,
            )[k].2,
        forall|k: int|
            0 < k < table_of(txns, n).len() ==> (#[trigger] table_of(txns, n)[k]).1 == table_of(
                txns,
                n,
            )[k - 1].2,
    decreases n,
{
    if n > 0 {
        lemma_table_covers_payload(txns, (n - 1) as nat);
    }
}

/// The payload grows at its end only: what the first `m` transactions open
/// stands at the front of what the first `n` open, for `m` up to `n`.
pub proof fn lemma_payload_grows(txns: Seq<Transaction>, m: nat, n: nat)
    requires
        m <= n,
    ensures
        payload_of(txns, m).len() <= payload_of(txns, n).len(),
        payload_of(txns, n).subrange(0, payload_of(txns, m).len() as int) == payload_of(txns, m),
        table_of(txns, m).len() <= table_of(txns, n).len(),
        table_of(txns, n).subrange(0, table_of(txns, m).len() as int) == table_of(txns, m),
    decreases n,
{
    if m < n {
        lemma_payload_grows(txns, m, (n - 1) as nat);
        assert(payload_of(txns, n).subrange(0, payload_of(txns, m).len() as int) =~= payload_of(
            txns,
            (n - 1) as nat,
        ).subrange(0, payload_of(txns, m).len() as int));
        assert(table_of(txns, n).subrange(0, table_of(txns, m).len() as int) =~= table_of(
            txns,
            (n - 1) as nat,
        ).subrange(0, table_of(txns, m).len() as int));
    } else {
        assert(payload_of(txns, n).subrange(0, payload_of(txns, n).len() as int) =~= payload_of(
            txns,
            n,
        ));
        assert(table_of(txns, n).subrange(0, table_of(txns, n).len() as int) =~= table_of(txns, n));
    }
}

/// Each entry of the table names the bytes of its namespace: between its
/// two ends the payload holds the bytes of all transactions of that
/// namespace, in their order.
pub proof fn lemma_table_names_namespaces(txns: Seq<Transaction>, n: nat, k: int)
    requires
        n <= txns.len(),
        0 <= k < table_of(txns, n).len(),
    ensures
        0 <= table_of(txns, n)[k].1 <= table_of(txns, n)[k].2 <= payload_of(txns, n).len(),
        payload_of(txns, n).subrange(table_of(txns, n)[k].1, table_of(txns, n)[k].2)
            == bytes_of_namespace(txns, table_of(txns, n)[k].0, txns.len()),
    decreases n,
{
    let before = (n - 1) as nat;
    lemma_payload_grows(txns, before, n);
    if k < table_of(txns, before).len() {
        lemma_table_names_namespaces(txns, before, k);
        assert(table_of(txns, n)[k] == table_of(txns, n).subrange(
            0,
            table_of(txns, before).len() as int,
        )[k]);
        let (namespace, start, end) = table_of(txns, n)[k];
        assert(payload_of(txns, n).subrange(start, end) =~= payload_of(txns, n).subrange(
            0,
            payload_of(txns, before).len() as int,
        ).subrange(start, end));
    } else {
        let (namespace, start, end) = table_of(txns, n)[k];
        assert(payload_of(txns, n).subrange(start, end) =~= bytes_of_namespace(
            txns,
            namespace,
            txns.len(),
        ));
    }
}

/// What one entry of a table says: a namespace and the two ends of its
/// bytes.
pub open spec fn range_view(range: NamespaceRange) -> (u64, int, int) {
    (range.namespace.id, range.start as int, range.end as int)
}

/// The payload of a block: the bytes of its transactions, namespace by
/// namespace.
#[derive(Debug)]
pub struct Payload {
    bytes: Vec<u8>,
}

/// Appends the bytes of `src` to `out`.
fn append_bytes(out: &mut Vec<u8>, src: &Vec<u8>)
    ensures
        final(out)@ == old(out)@ + src@,
{
    let ghost before = out@;
    let mut i: usize = 0;
    while i < src.len()
        invariant
            i <= src.len(),
            out@ == before + src@.subrange(0, i as int),
        decreases src.len() - i,
    {
        out.push(src[i]);
        assert(out@ =~= before + src@.subrange(0, i + 1));
        i += 1;
    }
    assert(src@.subrange(0, src@.len() as int) =~= src@);
}

/// Whether no transaction before the one at position `i` belongs to its
/// namespace.
fn is_first_of_namespace(txns: &Vec<Transaction>, i: usize) -> (first: bool)
    requires
        i < txns.len(),
    ensures
        first == opens_namespace(txns@, i as int),
{
    let namespace = txns[i].namespace().id;
    let mut j: usize = 0;
    while j < i
        invariant
            j <= i,
            i < txns.len(),
            namespace == txns@[i as int].spec_namespace(),
            forall|k: int| 0 <= k < j ==> (#[trigger] txns@[k]).spec_namespace() != namespace,
        decreases i - j,
    {
        if txns[j].namespace().id == namespace {
            return false;
        }
        j += 1;
    }
    true
}

impl Payload {
    /// The bytes of the payload.
    pub closed spec fn view(&self) -> Seq<u8> {
        self.bytes@
    }

    /// Lays the transactions of a block out as a payload, and says in a table
    /// where the bytes of each namespace stand. The bytes of one namespace
    /// stand in one piece, its transactions in their order, and the
    /// namespaces in the order in which they first appear.
    pub fn from_transactions(txns: &Vec<Transaction>) -> (r: (Payload, NamespaceTable))
        ensures
            r.0@ == payload_of(txns@, txns@.len()),
            r.1.entries@.len() == table_of(txns@, txns@.len()).len(),
            forall|k: int|
                0 <= k < r.1.entries@.len() ==> range_view(#[trigger] r.1.entries@[k]) == table_of(
                    txns@,
                    txns@.len(),
                )[k],
    {
        let mut bytes: Vec<u8> = Vec::new();
        let mut entries: Vec<NamespaceRange> = Vec::new();
        let mut i: usize = 0;
        while i < txns.len()
            invariant
                i <= txns.len(),
                bytes@ == payload_of(txns@, i as nat),
                entries@.len() == table_of(txns@, i as nat).len(),
                forall|k: int|
                    0 <= k < entries@.len() ==> range_view(#[trigger] entries@[k]) == table_of(
                        txns@,
                        i as nat,
                    )[k],
            decreases txns.len() - i,
        {
            if is_first_of_namespace(txns, i) {
                let namespace = txns[i].namespace();
                let start = bytes.len();
                let ghost before = bytes@;
                let mut j: usize = 0;
                while j < txns.len()
                    invariant
                        j <= txns.len(),
                        i < txns.len(),
                        namespace.id == txns@[i as int].spec_namespace(),
                        bytes@ == before + bytes_of_namespace(txns@, namespace.id, j as nat),
                    decreases txns.len() - j,
                {
                    if txns[j].namespace().id == namespace.id {
                        append_bytes(&mut bytes, txns[j].payload());
                        assert(bytes@ =~= before + bytes_of_namespace(
                            txns@,
                            namespace.id,
                            (j + 1) as nat,
                        ));
                    }
                    j += 1;
                }
                entries.push(NamespaceRange { namespace, start, end: bytes.len() });
            }
            i += 1;
        }
        (Payload { bytes }, NamespaceTable { entries })
    }

    /// The bytes that stand in the payload between the two ends of a range,
    /// or `None` where the range does not lie within the payload.
    pub fn slice(&self, range: &NamespaceRange) -> (r: Option<Vec<u8>>)
        ensures
            r is Some <==> range.start <= range.end <= self@.len(),
            r is Some ==> r->0@ == self@.subrange(range.start as int, range.end as int),
    {
        if range.start > range.end || range.end > self.bytes.len() {
            return None;
        }
        let mut out: Vec<u8> = Vec::new();
        let mut i: usize = range.start;
        while i < range.end
            invariant
                range.start <= i <= range.end <= self.bytes.len(),
                out@ == self.bytes@.subrange(range.start as int, i as int),
            decreases range.end - i,
        {
            out.push(self.bytes[i]);
            assert(out@ =~= self.bytes@.subrange(range.start as int, i + 1));
            i += 1;
        }
        Some(out)
    }

    /// The bytes of the payload.
    pub fn encode(&self) -> (bytes: &Vec<u8>)
        ensures
            bytes@ == self@,
    {
        &self.bytes
    }

    /// The commitment to the payload.
    pub fn commit(&self) -> (d: Digest)
        ensures
            d@ == keccak256_of(self@),
    {
        keccak256(&self.bytes)
    }
}

} // verus!
