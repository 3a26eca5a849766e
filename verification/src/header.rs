use vstd::prelude::*;
use vstd::string::StringExecFns;

verus! {

/// One `key: value` field of a header metadata record.
pub struct HeaderField {
    pub key: String,
    pub value: String,
}

/// The mathematical shape of a header field.
#[verifier::ext_equal]
pub ghost struct HeaderFieldView {
    pub key: Seq<char>,
    pub value: Seq<char>,
}

impl View for HeaderField {
    type V = HeaderFieldView;

    open spec fn view(&self) -> HeaderFieldView {
        HeaderFieldView { key: self.key@, value: self.value@ }
    }
}

impl Clone for HeaderField {
    fn clone(&self) -> (r: Self)
        ensures
            r@ == self@,
    {
        HeaderField { key: self.key.clone(), value: self.value.clone() }
    }
}

/// The views of a sequence of header fields.
pub open spec fn field_views(fields: Seq<HeaderField>) -> Seq<HeaderFieldView> {
    fields.map_values(|f: HeaderField| f@)
}

/// One typed metadata record of a header: a short record type and its
/// ordered fields.
pub struct HeaderRecord {
    pub rec_type: String,
    pub fields: Vec<HeaderField>,
}

/// The mathematical shape of a header record.
#[verifier::ext_equal]
pub ghost struct HeaderRecordView {
    pub rec_type: Seq<char>,
    pub fields: Seq<HeaderFieldView>,
}

impl View for HeaderRecord {
    type V = HeaderRecordView;

    open spec fn view(&self) -> HeaderRecordView {
        HeaderRecordView { rec_type: self.rec_type@, fields: field_views(self.fields@) }
    }
}

impl Clone for HeaderRecord {
    fn clone(&self) -> (r: Self)
        ensures
            r@ == self@,
    {
        let mut fields: Vec<HeaderField> = Vec::new();
        let mut i: usize = 0;
        while i < self.fields.len()
            invariant
                i <= self.fields@.len(),
                fields@.len() == i,
                forall|j: int| 0 <= j < i ==> #[trigger] fields@[j]@ == self.fields@[j]@,
            decreases self.fields@.len() - i,
        {
            fields.push(self.fields[i].clone());
            i += 1;
        }
        let r = HeaderRecord { rec_type: self.rec_type.clone(), fields };
        proof {
            assert forall|j: int| 0 <= j < r.fields@.len() implies field_views(r.fields@)[j]
                == field_views(self.fields@)[j] by {}
            assert(field_views(r.fields@) =~= field_views(self.fields@));
            assert(r@ =~= self@);
        }
        r
    }
}

/// The value of the first field of `fields` under `key`, if any.
pub open spec fn find_field(fields: Seq<HeaderFieldView>, key: Seq<char>) -> Option<Seq<char>>
    decreases fields.len(),
{
    if fields.len() == 0 {
        None
    } else if fields[0].key == key {
        Some(fields[0].value)
    } else {
        find_field(fields.drop_first(), key)
    }
}

impl HeaderRecord {
    /// A new record of the given type, with no fields yet.
    pub fn new(rec_type: &str) -> (r: HeaderRecord)
        ensures
            r@.rec_type == rec_type@,
            r@.fields == Seq::<HeaderFieldView>::empty(),
    {
        let r = HeaderRecord { rec_type: String::from_str(rec_type), fields: Vec::new() };
        proof {
            assert(field_views(r.fields@) =~= Seq::<HeaderFieldView>::empty());
        }
        r
    }

    /// Append one `key: value` field to this record.
    pub fn push_tag(&mut self, key: &str, value: &str)
        ensures
            final(self)@.rec_type == old(self)@.rec_type,
            final(self)@.fields == old(self)@.fields.push(
                (HeaderFieldView { key: key@, value: value@ }),
            ),
    {
        self.fields.push(
            HeaderField { key: String::from_str(key), value: String::from_str(value) },
        );
        proof {
            assert(field_views(self.fields@) =~= field_views(old(self).fields@).push(
                HeaderFieldView { key: key@, value: value@ },
            ));
        }
    }

    /// The value of the first field of this record under `key`, if any.
    pub fn field_value(&self, key: &str) -> (res: Option<String>)
        ensures
            res is Some <==> find_field(self@.fields, key@) is Some,
            res matches Some(v) ==> find_field(self@.fields, key@) == Some(v@),
    {
        let k = String::from_str(key);
        let mut i: usize = 0;
        proof {
            assert(self@.fields.skip(0) =~= self@.fields);
        }
        while i < self.fields.len()
            invariant
                i <= self.fields@.len(),
                k@ == key@,
                find_field(self@.fields, key@) == find_field(self@.fields.skip(i as int), key@),
            decreases self.fields@.len() - i,
        {
            let suffix = Ghost(self@.fields.skip(i as int));
            assert(suffix@[0] == self@.fields[i as int]);
            if self.fields[i].key == k {
                let v = self.fields[i].value.clone();
                return Some(v);
            }
            proof {
                assert(suffix@.drop_first() =~= self@.fields.skip(i + 1 as int));
            }
            i += 1;
        }
        proof {
            assert(self@.fields.skip(self.fields@.len() as int) =~= Seq::<HeaderFieldView>::empty());
        }
        None
    }
}

/// A file header: its metadata records, in order.
pub struct Header {
    pub records: Vec<HeaderRecord>,
}

/// The views of a sequence of header records.
pub open spec fn header_record_views(records: Seq<HeaderRecord>) -> Seq<HeaderRecordView> {
    records.map_values(|r: HeaderRecord| r@)
}

impl View for Header {
    type V = Seq<HeaderRecordView>;

    open spec fn view(&self) -> Seq<HeaderRecordView> {
        header_record_views(self.records@)
    }
}

impl Clone for Header {
    fn clone(&self) -> (r: Self)
        ensures
            r@ == self@,
    {
        let mut records: Vec<HeaderRecord> = Vec::new();
        let mut i: usize = 0;
        while i < self.records.len()
            invariant
                i <= self.records@.len(),
                records@.len() == i,
                forall|j: int| 0 <= j < i ==> #[trigger] records@[j]@ == self.records@[j]@,
            decreases self.records@.len() - i,
        {
            records.push(self.records[i].clone());
            i += 1;
        }
        let r = Header { records };
        proof {
            assert forall|j: int| 0 <= j < r.records@.len() implies header_record_views(
                r.records@,
            )[j] == header_record_views(self.records@)[j] by {}
            assert(header_record_views(r.records@) =~= header_record_views(self.records@));
        }
        r
    }
}

impl Header {
    /// A header with no metadata records.
    pub fn new() -> (h: Header)
        ensures
            h@ == Seq::<HeaderRecordView>::empty(),
    {
        let h = Header { records: Vec::new() };
        proof {
            assert(h@ =~= Seq::<HeaderRecordView>::empty());
        }
        h
    }

    /// Append one metadata record, after every record already there.
    pub fn push_record(&mut self, record: &HeaderRecord)
        ensures
            final(self)@ == old(self)@.push(record@),
    {
        self.records.push(record.clone());
        proof {
            assert(header_record_views(self.records@) =~= header_record_views(
                old(self).records@,
            ).push(record@));
        }
    }
}

/// The identifier under which this tool records itself in provenance
/// records.
pub open spec fn spec_program_name() -> Seq<char> {
    "bamtag"@
}

/// The version string this build records in provenance records.
pub open spec fn spec_program_version() -> Seq<char> {
    "0.1.0"@
}

/// The build identifier and name, as recorded in provenance records.
pub fn program_name() -> (s: &'static str)
    ensures
        s@ == spec_program_name(),
{
    "bamtag"
}

/// The build version, as recorded in provenance records.
pub fn program_version() -> (s: &'static str)
    ensures
        s@ == spec_program_version(),
{
    "0.1.0"
}

/// The provenance record of one run: a record of type `PG` whose four
/// fields are the build identifier, the program name, the program version,
/// and the literal invocation command line, in that order.
pub open spec fn provenance_record_view(command_line: Seq<char>) -> HeaderRecordView {
    HeaderRecordView {
        rec_type: "PG"@,
        fields: seq![
            HeaderFieldView { key: "ID"@, value: spec_program_name() },
            HeaderFieldView { key: "PN"@, value: spec_program_name() },
            HeaderFieldView { key: "VN"@, value: spec_program_version() },
            HeaderFieldView { key: "CL"@, value: command_line },
        ],
    }
}

/// Build the provenance record for a run invoked with the given command
/// line.
pub fn provenance_record(command_line: &str) -> (r: HeaderRecord)
    ensures
        r@ == provenance_record_view(command_line@),
{
    let mut r = HeaderRecord::new("PG");
    r.push_tag("ID", program_name());
    r.push_tag("PN", program_name());
    r.push_tag("VN", program_version());
    r.push_tag("CL", command_line);
    proof {
        assert(r@.fields =~= provenance_record_view(command_line@).fields);
        assert(r@ =~= provenance_record_view(command_line@));
    }
    r
}

/// Append the provenance record for this run to the header.  No record
/// already there is replaced, reordered or changed, so every earlier
/// provenance chain stays readable.
pub fn add_program_group_record(header: &mut Header, command_line: &str)
    ensures
        final(header)@ == old(header)@.push(provenance_record_view(command_line@)),
{
    let record = provenance_record(command_line);
    header.push_record(&record);
}

/// Law: a header with the provenance record appended still holds every
/// record of the original header, each at its original position, and holds
/// the provenance record as its one new, final record.
pub proof fn lemma_header_lineage(records: Seq<HeaderRecordView>, command_line: Seq<char>)
    ensures
        records.push(provenance_record_view(command_line)).len() == records.len() + 1,
        forall|i: int|
            0 <= i < records.len() ==> records.push(provenance_record_view(command_line))[i]
                == records[i],
        records.push(provenance_record_view(command_line))[records.len() as int]
            == provenance_record_view(command_line),
{
}

/// Law: the provenance record's type is `PG` and its four fields hold
/// exactly the build identifier, the build name, the build version, and the
/// command line, under the keys `ID`, `PN`, `VN` and `CL`, in that order.
pub proof fn lemma_provenance_fields(command_line: Seq<char>)
    ensures
        provenance_record_view(command_line).rec_type == "PG"@,
        provenance_record_view(command_line).fields.len() == 4,
        provenance_record_view(command_line).fields[0] == (HeaderFieldView {
            key: "ID"@,
            value: spec_program_name(),
        }),
        provenance_record_view(command_line).fields[1] == (HeaderFieldView {
            key: "PN"@,
            value: spec_program_name(),
        }),
        provenance_record_view(command_line).fields[2] == (HeaderFieldView {
            key: "VN"@,
            value: spec_program_version(),
        }),
        provenance_record_view(command_line).fields[3] == (HeaderFieldView {
            key: "CL"@,
            value: command_line,
        }),
{
}

} // verus!
