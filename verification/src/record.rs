use vstd::prelude::*;

use crate::errors::TransformError;

verus! {

/// The typed value of one auxiliary entry.  This tool only ever writes
/// 8-bit signed values; the other integer shapes let the entries a record
/// already carries be represented.
#[derive(Clone, Copy, Debug, PartialEq, Eq, Structural)]
pub enum AuxValue {
    I8(i8),
    U8(u8),
    I16(i16),
    U16(u16),
    I32(i32),
    U32(u32),
}

/// One auxiliary entry of a record: a short key (the raw bytes of a one- or
/// two-character tag) and a typed value.
pub struct AuxEntry {
    pub key: Vec<u8>,
    pub value: AuxValue,
}

/// The mathematical shape of an auxiliary entry.
#[verifier::ext_equal]
pub ghost struct AuxEntryView {
    pub key: Seq<u8>,
    pub value: AuxValue,
}

impl View for AuxEntry {
    type V = AuxEntryView;

    open spec fn view(&self) -> AuxEntryView {
        AuxEntryView { key: self.key@, value: self.value }
    }
}

/// The views of a sequence of auxiliary entries.
pub open spec fn aux_views(entries: Seq<AuxEntry>) -> Seq<AuxEntryView> {
    entries.map_values(|e: AuxEntry| e@)
}

/// One alignment record: the fields this tool never touches, and the ordered
/// list of auxiliary entries.
pub struct Record {
    /// Every field of the record other than the auxiliary entries, as the
    /// container format encodes them.  The pipeline carries these bytes
    /// through unchanged.
    pub body: Vec<u8>,
    /// The auxiliary entries, in the order the record carries them.
    pub aux: Vec<AuxEntry>,
}

/// The mathematical shape of a record.
#[verifier::ext_equal]
pub ghost struct RecordView {
    pub body: Seq<u8>,
    pub aux: Seq<AuxEntryView>,
}

impl View for Record {
    type V = RecordView;

    open spec fn view(&self) -> RecordView {
        RecordView { body: self.body@, aux: aux_views(self.aux@) }
    }
}

/// Whether some entry of `aux` carries `key`.
pub open spec fn has_key(aux: Seq<AuxEntryView>, key: Seq<u8>) -> bool {
    exists|i: int| 0 <= i < aux.len() && aux[i].key == key
}

/// How many entries of `aux` carry `key`.
pub open spec fn count_key(aux: Seq<AuxEntryView>, key: Seq<u8>) -> nat
    decreases aux.len(),
{
    if aux.len() == 0 {
        0
    } else {
        count_key(aux.drop_last(), key) + (if aux.last().key == key {
            1nat
        } else {
            0nat
        })
    }
}

/// The value of the first entry of `aux` that carries `key`, if any.
pub open spec fn find_key(aux: Seq<AuxEntryView>, key: Seq<u8>) -> Option<AuxValue>
    decreases aux.len(),
{
    if aux.len() == 0 {
        None
    } else if aux[0].key == key {
        Some(aux[0].value)
    } else {
        find_key(aux.drop_first(), key)
    }
}

/// The record `r` with one entry `key: value` appended to its auxiliary
/// entries and everything else unchanged.
pub open spec fn tag_record_view(r: RecordView, key: Seq<u8>, value: AuxValue) -> RecordView {
    RecordView { body: r.body, aux: r.aux.push(AuxEntryView { key, value }) }
}

/// An auxiliary list carries `key` exactly when the number of entries
/// carrying it is not zero.
pub proof fn lemma_count_key_zero(aux: Seq<AuxEntryView>, key: Seq<u8>)
    ensures
        (count_key(aux, key) == 0) <==> !has_key(aux, key),
    decreases aux.len(),
{
    if aux.len() == 0 {
        assert(!has_key(aux, key));
    } else {
        lemma_count_key_zero(aux.drop_last(), key);
        assert(has_key(aux, key) <==> (has_key(aux.drop_last(), key) || aux.last().key
            == key)) by {
            if has_key(aux.drop_last(), key) {
                let i = choose|i: int|
                    0 <= i < aux.drop_last().len() && aux.drop_last()[i].key == key;
                assert(aux[i].key == key);
            }
            if aux.last().key == key {
                assert(aux[aux.len() - 1].key == key);
            }
            if has_key(aux, key) {
                let i = choose|i: int| 0 <= i < aux.len() && aux[i].key == key;
                if i < aux.len() - 1 {
                    assert(aux.drop_last()[i].key == key);
                }
            }
        }
    }
}

/// Appending an entry adds one to the number of entries carrying its key.
pub proof fn lemma_count_key_push(aux: Seq<AuxEntryView>, e: AuxEntryView, key: Seq<u8>)
    ensures
        count_key(aux.push(e), key) == count_key(aux, key) + (if e.key == key {
            1nat
        } else {
            0nat
        }),
{
    assert(aux.push(e).drop_last() =~= aux);
    assert(aux.push(e).last() == e);
}

/// Looking up `key` after appending an entry under `key` to a list that did
/// not carry it finds the appended value.
pub proof fn lemma_find_key_push(aux: Seq<AuxEntryView>, e: AuxEntryView, key: Seq<u8>)
    requires
        !has_key(aux, key),
        e.key == key,
    ensures
        find_key(aux.push(e), key) == Some(e.value),
    decreases aux.len(),
{
    if aux.len() == 0 {
        assert(aux.push(e)[0] == e);
    } else {
        assert(aux[0].key != key);
        assert(!has_key(aux.drop_first(), key)) by {
            if has_key(aux.drop_first(), key) {
                let i = choose|i: int|
                    0 <= i < aux.drop_first().len() && aux.drop_first()[i].key == key;
                assert(aux[i + 1].key == key);
            }
        }
        lemma_find_key_push(aux.drop_first(), e, key);
        assert(aux.push(e).drop_first() =~= aux.drop_first().push(e));
        assert(aux.push(e)[0] == aux[0]);
    }
}

/// Law: appending the requested entry to a record that does not carry its
/// key yields a record with exactly one entry under that key, holding that
/// value, which is what a lookup finds; every prior entry and the rest of
/// the record are unchanged.
pub proof fn lemma_tagged_record_exactly_one(r: RecordView, key: Seq<u8>, value: AuxValue)
    requires
        !has_key(r.aux, key),
    ensures
        count_key(tag_record_view(r, key, value).aux, key) == 1,
        find_key(tag_record_view(r, key, value).aux, key) == Some(value),
        tag_record_view(r, key, value).aux.drop_last() == r.aux,
        tag_record_view(r, key, value).body == r.body,
{
    let e = AuxEntryView { key, value };
    lemma_count_key_zero(r.aux, key);
    lemma_count_key_push(r.aux, e, key);
    lemma_find_key_push(r.aux, e, key);
    assert(r.aux.push(e).drop_last() =~= r.aux);
}

/// Whether two byte keys hold the same bytes.
fn keys_equal(a: &Vec<u8>, b: &Vec<u8>) -> (r: bool)
    ensures
        r == (a@ == b@),
{
    if a.len() != b.len() {
        return false;
    }
    let mut i: usize = 0;
    while i < a.len()
        invariant
            a@.len() == b@.len(),
            i <= a@.len(),
            forall|j: int| 0 <= j < i ==> a@[j] == b@[j],
        decreases a@.len() - i,
    {
        if a[i] != b[i] {
            return false;
        }
        i += 1;
    }
    proof {
        assert(a@ =~= b@);
    }
    true
}

/// A copy of the given bytes.
fn clone_bytes(v: &Vec<u8>) -> (r: Vec<u8>)
    ensures
        r@ == v@,
{
    let mut r: Vec<u8> = Vec::new();
    let mut i: usize = 0;
    while i < v.len()
        invariant
            i <= v@.len(),
            r@ == v@.take(i as int),
        decreases v@.len() - i,
    {
        r.push(v[i]);
        proof {
            assert(v@.take(i + 1 as int) =~= v@.take(i as int).push(v@[i as int]));
        }
        i += 1;
    }
    proof {
        assert(v@.take(v@.len() as int) =~= v@);
    }
    r
}

impl Clone for AuxEntry {
    fn clone(&self) -> (r: Self)
        ensures
            r@ == self@,
    {
        AuxEntry { key: clone_bytes(&self.key), value: self.value }
    }
}

impl Clone for Record {
    fn clone(&self) -> (r: Self)
        ensures
            r@ == self@,
    {
        let mut aux: Vec<AuxEntry> = Vec::new();
        let mut i: usize = 0;
        while i < self.aux.len()
            invariant
                i <= self.aux@.len(),
                aux@.len() == i,
                forall|j: int| 0 <= j < i ==> #[trigger] aux@[j]@ == self.aux@[j]@,
            decreases self.aux@.len() - i,
        {
            aux.push(self.aux[i].clone());
            i += 1;
        }
        let r = Record { body: clone_bytes(&self.body), aux };
        proof {
            assert forall|j: int| 0 <= j < r.aux@.len() implies aux_views(r.aux@)[j] == aux_views(
                self.aux@,
            )[j] by {}
            assert(aux_views(r.aux@) =~= aux_views(self.aux@));
            assert(r@ =~= self@);
        }
        r
    }
}

impl Record {
    /// Whether this record carries an auxiliary entry under `key`.
    pub fn has_aux_key(&self, key: &Vec<u8>) -> (r: bool)
        ensures
            r == has_key(self@.aux, key@),
    {
        let mut i: usize = 0;
        while i < self.aux.len()
            invariant
                i <= self.aux@.len(),
                forall|j: int| 0 <= j < i ==> #[trigger] self@.aux[j].key != key@,
            decreases self.aux@.len() - i,
        {
            if keys_equal(&self.aux[i].key, key) {
                assert(self@.aux[i as int].key == key@);
                return true;
            }
            i += 1;
        }
        false
    }

    /// The value of the first auxiliary entry under `key`, if the record
    /// carries one.
    pub fn get_aux(&self, key: &Vec<u8>) -> (res: Option<AuxValue>)
        ensures
            res == find_key(self@.aux, key@),
    {
        let mut i: usize = 0;
        proof {
            assert(self@.aux.skip(0) =~= self@.aux);
        }
        while i < self.aux.len()
            invariant
                i <= self.aux@.len(),
                find_key(self@.aux, key@) == find_key(self@.aux.skip(i as int), key@),
            decreases self.aux@.len() - i,
        {
            let suffix = Ghost(self@.aux.skip(i as int));
            assert(suffix@[0] == self@.aux[i as int]);
            if keys_equal(&self.aux[i].key, key) {
                return Some(self.aux[i].value);
            }
            proof {
                assert(suffix@.drop_first() =~= self@.aux.skip(i + 1 as int));
            }
            i += 1;
        }
        proof {
            assert(self@.aux.skip(self.aux@.len() as int) =~= Seq::<AuxEntryView>::empty());
        }
        None
    }

    /// Attach the entry `key: value` to this record.  If the record already
    /// carries an entry under `key` the record is left unchanged and the run
    /// fails with a tag conflict; the value already there is never
    /// overwritten.
    pub fn push_aux(&mut self, key: &Vec<u8>, value: AuxValue) -> (res: Result<
        (),
        TransformError,
    >)
        ensures
            res is Ok <==> !has_key(old(self)@.aux, key@),
            !has_key(old(self)@.aux, key@) ==> final(self)@ == tag_record_view(
                old(self)@,
                key@,
                value,
            ),
            has_key(old(self)@.aux, key@) ==> final(self)@ == old(self)@ && res == Err::<
                (),
                TransformError,
            >(TransformError::TagConflict),
    {
        if self.has_aux_key(key) {
            Err(TransformError::TagConflict)
        } else {
            let entry = AuxEntry { key: clone_bytes(key), value };
            self.aux.push(entry);
            proof {
                assert(aux_views(self.aux@) =~= aux_views(old(self).aux@).push(
                    AuxEntryView { key: key@, value },
                ));
            }
            Ok(())
        }
    }
}

} // verus!
