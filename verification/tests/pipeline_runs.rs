use bamtag::errors::TransformError;
use bamtag::header::add_program_group_record;
use bamtag::header::program_name;
use bamtag::header::program_version;
use bamtag::header::Header;
use bamtag::header::HeaderRecord;
use bamtag::pipeline::process_records;
use bamtag::record::AuxEntry;
use bamtag::record::AuxValue;
use bamtag::record::Record;

fn plain_record(body: &[u8]) -> Record {
    Record { body: body.to_vec(), aux: Vec::new() }
}

fn record_with_aux(body: &[u8], key: &[u8], value: AuxValue) -> Record {
    Record {
        body: body.to_vec(),
        aux: vec![AuxEntry { key: key.to_vec(), value }],
    }
}

#[test]
fn test_add_program_group_record() {
    let mut header = Header::new();
    let command_line = "some command line options";

    add_program_group_record(&mut header, command_line);

    let pg_records: Vec<&HeaderRecord> = header
        .records
        .iter()
        .filter(|r| r.rec_type == "PG")
        .collect();
    assert!(!pg_records.is_empty(), "No PG records found");

    let record = &pg_records[0];
    assert_eq!(record.field_value("ID").unwrap(), program_name());
    assert_eq!(record.field_value("PN").unwrap(), program_name());
    assert_eq!(record.field_value("VN").unwrap(), program_version());
    assert_eq!(record.field_value("CL").unwrap(), "some command line options");
}

#[test]
fn round_trip_hp_tag() {
    let header = Header::new();
    let records = vec![
        plain_record(&[1, 2, 3]),
        record_with_aux(&[4, 5], b"NM", AuxValue::U8(0)),
    ];
    let tag = b"HP".to_vec();

    let (_, out) = process_records(&header, &records, &tag, 42, "cmd").unwrap();

    assert_eq!(out.len(), 2);
    for record in &out {
        assert_eq!(record.get_aux(&tag), Some(AuxValue::I8(42)));
    }
}

#[test]
fn existing_tag_fails_with_conflict() {
    let header = Header::new();
    let records = vec![
        record_with_aux(&[1], b"NM", AuxValue::I32(3)),
        record_with_aux(&[2], b"NM", AuxValue::I32(0)),
    ];
    let tag = b"NM".to_vec();

    let result = process_records(&header, &records, &tag, 42, "cmd");
    assert_eq!(result.err(), Some(TransformError::TagConflict));
}

#[test]
fn rerun_on_own_output_conflicts() {
    let header = Header::new();
    let records = vec![plain_record(&[9]), plain_record(&[8])];
    let tag = b"HP".to_vec();

    let (out_header, out_records) =
        process_records(&header, &records, &tag, 7, "first run").unwrap();
    let rerun = process_records(&out_header, &out_records, &tag, 7, "second run");
    assert_eq!(rerun.err(), Some(TransformError::TagConflict));
}

#[test]
fn rerun_on_empty_output_succeeds() {
    let header = Header::new();
    let records: Vec<Record> = Vec::new();
    let tag = b"HP".to_vec();

    let (out_header, out_records) =
        process_records(&header, &records, &tag, 7, "first run").unwrap();
    assert!(process_records(&out_header, &out_records, &tag, 7, "second run").is_ok());
}

#[test]
fn order_and_count_preserved() {
    let header = Header::new();
    let records = vec![
        record_with_aux(&[1, 1], b"XA", AuxValue::U16(9)),
        plain_record(&[2, 2, 2]),
        plain_record(&[3]),
    ];
    let tag = b"HP".to_vec();

    let (_, out) = process_records(&header, &records, &tag, -5, "cmd").unwrap();

    assert_eq!(out.len(), records.len());
    for (i, record) in out.iter().enumerate() {
        assert_eq!(record.body, records[i].body);
        assert_eq!(record.aux.len(), records[i].aux.len() + 1);
        for (j, entry) in records[i].aux.iter().enumerate() {
            assert_eq!(record.aux[j].key, entry.key);
            assert_eq!(record.aux[j].value, entry.value);
        }
        let last = record.aux.last().unwrap();
        assert_eq!(last.key, tag);
        assert_eq!(last.value, AuxValue::I8(-5));
    }
}

#[test]
fn header_records_preserved_and_provenance_appended() {
    let mut header = Header::new();
    let mut seq_record = HeaderRecord::new("SQ");
    seq_record.push_tag("SN", "chr1");
    seq_record.push_tag("LN", "248956422");
    header.push_record(&seq_record);

    let records: Vec<Record> = Vec::new();
    let tag = b"HP".to_vec();
    let (out_header, _) =
        process_records(&header, &records, &tag, 1, "bamtag -i in.bam -o out.bam").unwrap();

    assert_eq!(out_header.records.len(), 2);
    assert_eq!(out_header.records[0].rec_type, "SQ");
    assert_eq!(out_header.records[0].field_value("SN").unwrap(), "chr1");
    assert_eq!(out_header.records[0].field_value("LN").unwrap(), "248956422");

    let appended = &out_header.records[1];
    assert_eq!(appended.rec_type, "PG");
    assert_eq!(appended.fields.len(), 4);
    assert_eq!(appended.field_value("ID").unwrap(), program_name());
    assert_eq!(appended.field_value("PN").unwrap(), program_name());
    assert_eq!(appended.field_value("VN").unwrap(), program_version());
    assert_eq!(
        appended.field_value("CL").unwrap(),
        "bamtag -i in.bam -o out.bam"
    );
}

#[test]
fn first_conflicting_value_is_kept() {
    let tag = b"HP".to_vec();
    let mut record = record_with_aux(&[1], b"HP", AuxValue::I8(3));

    let result = record.push_aux(&tag, AuxValue::I8(42));
    assert_eq!(result, Err(TransformError::TagConflict));
    assert_eq!(record.get_aux(&tag), Some(AuxValue::I8(3)));
    assert_eq!(record.aux.len(), 1);
}

#[test]
fn error_messages_name_the_failing_step() {
    assert_eq!(
        TransformError::OpenInput.message(),
        "failed to open the input file"
    );
    assert_eq!(
        TransformError::OpenOutput.message(),
        "failed to open the output file"
    );
    assert_eq!(
        TransformError::ReadRecord.message(),
        "failed to read a record from the input"
    );
    assert_eq!(
        TransformError::TagConflict.message(),
        "a record already carries the requested tag"
    );
    assert_eq!(
        TransformError::WriteRecord.message(),
        "failed to write a record to the output"
    );
}
