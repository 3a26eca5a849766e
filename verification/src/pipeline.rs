use vstd::prelude::*;

use crate::errors::TransformError;
use crate::header::add_program_group_record;
use crate::header::provenance_record_view;
use crate::header::Header;
use crate::record::count_key;
use crate::record::find_key;
use crate::record::has_key;
use crate::record::lemma_tagged_record_exactly_one;
use crate::record::tag_record_view;
use crate::record::AuxValue;
use crate::record::Record;
use crate::record::RecordView;

verus! {

/// The views of a sequence of records.
pub open spec fn record_seq_views(records: Seq<Record>) -> Seq<RecordView> {
    records.map_values(|r: Record| r@)
}

/// Whether no record of `records` carries `key`: exactly the inputs on
/// which a run succeeds.
pub open spec fn conflict_free(records: Seq<RecordView>, key: Seq<u8>) -> bool {
    forall|i: int| 0 <= i < records.len() ==> !has_key(#[trigger] records[i].aux, key)
}

/// Every record of `records` with the entry `key: value` appended and
/// nothing else changed.
pub open spec fn tagged_records(records: Seq<RecordView>, key: Seq<u8>, value: AuxValue) -> Seq<
    RecordView,
> {
    records.map_values(|r: RecordView| tag_record_view(r, key, value))
}

/// Derive the output header from the input header: a copy with one
/// provenance record appended.  The input header is left as it was read.
pub fn build_output_header(input: &Header, command_line: &str) -> (out: Header)
    ensures
        out@ == input@.push(provenance_record_view(command_line@)),
{
    let mut out = input.clone();
    add_program_group_record(&mut out, command_line);
    out
}

/// Run the whole transform on decoded values: derive the output header, and
/// tag every record, in input order.  The run succeeds exactly when no input
/// record already carries the tag key; the first record that does ends the
/// run with a tag conflict, and a conflict is the only way the transform
/// itself fails.
pub fn process_records(
    header: &Header,
    records: &Vec<Record>,
    tag: &Vec<u8>,
    value: i8,
    command_line: &str,
) -> (res: Result<(Header, Vec<Record>), TransformError>)
    ensures
        res is Ok <==> conflict_free(record_seq_views(records@), tag@),
        res matches Ok(out) ==> out.0@ == header@.push(provenance_record_view(command_line@))
            && record_seq_views(out.1@) == tagged_records(
            record_seq_views(records@),
            tag@,
            AuxValue::I8(value),
        ),
        res matches Err(e) ==> e == TransformError::TagConflict,
{
    let ghost in_views = record_seq_views(records@);
    let out_header = build_output_header(header, command_line);
    let mut out: Vec<Record> = Vec::new();
    let mut i: usize = 0;
    while i < records.len()
        invariant
            i <= records@.len(),
            in_views == record_seq_views(records@),
            out@.len() == i,
            forall|j: int| 0 <= j < i ==> !has_key(#[trigger] in_views[j].aux, tag@),
            forall|j: int|
                0 <= j < i ==> #[trigger] out@[j]@ == tag_record_view(
                    in_views[j],
                    tag@,
                    AuxValue::I8(value),
                ),
        decreases records@.len() - i,
    {
        let mut rec = records[i].clone();
        assert(rec@ == in_views[i as int]);
        match rec.push_aux(tag, AuxValue::I8(value)) {
            Ok(()) => {
                out.push(rec);
            },
            Err(e) => {
                assert(has_key(in_views[i as int].aux, tag@));
                assert(!conflict_free(in_views, tag@));
                return Err(e);
            },
        }
        i += 1;
    }
    proof {
        assert(conflict_free(in_views, tag@));
        let tagged = tagged_records(in_views, tag@, AuxValue::I8(value));
        assert forall|j: int| 0 <= j < out@.len() implies record_seq_views(out@)[j] == tagged[j]
        by {}
        assert(record_seq_views(out@) =~= tagged);
    }
    Ok((out_header, out))
}

/// Law: tagging preserves record count and order.  The tagged sequence has
/// as many records as the input, and its record at any position is exactly
/// the input record at that position with the one entry appended.
pub proof fn lemma_order_preserved(records: Seq<RecordView>, key: Seq<u8>, value: AuxValue)
    ensures
        tagged_records(records, key, value).len() == records.len(),
        forall|i: int|
            0 <= i < records.len() ==> tagged_records(records, key, value)[i] == tag_record_view(
                records[i],
                key,
                value,
            ),
{
}

/// Law: after a run on conflict-free records, every output record carries
/// exactly one entry under the key, holding the given value, which is what
/// a lookup finds; its other entries and its remaining fields are exactly
/// those of the input record at the same position.
pub proof fn lemma_outputs_tagged_once(records: Seq<RecordView>, key: Seq<u8>, value: AuxValue)
    requires
        conflict_free(records, key),
    ensures
        forall|i: int|
            0 <= i < records.len() ==> {
                let t = #[trigger] tagged_records(records, key, value)[i];
                &&& count_key(t.aux, key) == 1
                &&& find_key(t.aux, key) == Some(value)
                &&& t.body == records[i].body
                &&& t.aux.drop_last() == records[i].aux
            },
{
    assert forall|i: int| 0 <= i < records.len() implies {
        let t = #[trigger] tagged_records(records, key, value)[i];
        &&& count_key(t.aux, key) == 1
        &&& find_key(t.aux, key) == Some(value)
        &&& t.body == records[i].body
        &&& t.aux.drop_last() == records[i].aux
    } by {
        assert(!has_key(records[i].aux, key));
        lemma_tagged_record_exactly_one(records[i], key, value);
    }
}

/// Law: a run is not idempotent.  Tagging the output of a successful run
/// under the same key must fail with a conflict, because every output
/// record now carries the key; an input with no records at all is the one
/// case in which a second run also succeeds.
pub proof fn lemma_rerun_conflicts(records: Seq<RecordView>, key: Seq<u8>, value: AuxValue)
    requires
        records.len() > 0,
    ensures
        !conflict_free(tagged_records(records, key, value), key),
{
    let t = tagged_records(records, key, value);
    assert(t[0] == tag_record_view(records[0], key, value));
    let aux = t[0].aux;
    assert(aux[aux.len() - 1].key == key);
    assert(has_key(aux, key));
}

} // verus!
