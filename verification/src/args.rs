use vstd::prelude::*;
use vstd::string::StrSliceExecFns;
use vstd::string::StringExecFns;

verus! {

/// The validated command-line surface of the tool.  The host program parses
/// the raw arguments into this shape and checks the tag with `validate_tag`
/// before the pipeline runs.
pub struct Args {
    /// Path of the input container file.
    pub input: String,
    /// Number of worker threads for the shared compression pool.
    pub threads: u32,
    /// Tag key to add to every record (one or two characters).
    pub tag: String,
    /// Signed 8-bit value stored under the tag key.
    pub value: i8,
    /// Path of the output container file.
    pub output_file: String,
    /// Compression level for the output encoder.
    pub compression: u32,
}

/// The rejection message for a tag key whose length is out of range.
pub open spec fn spec_tag_error_message() -> Seq<char> {
    "Input must be between 1 and 2 characters long"@
}

/// Validate that the tag key has one or two characters.  Nothing else about
/// the key is constrained: its raw bytes are used verbatim as the entry key.
pub fn validate_tag(input: &str) -> (res: Result<(), String>)
    ensures
        res is Ok <==> 1 <= input@.len() <= 2,
        res matches Err(msg) ==> msg@ == spec_tag_error_message(),
{
    let n: usize = input.unicode_len();
    if n == 0 || n > 2 {
        Err(String::from_str("Input must be between 1 and 2 characters long"))
    } else {
        Ok(())
    }
}

/// The views of a sequence of strings.
pub open spec fn string_views(parts: Seq<String>) -> Seq<Seq<char>> {
    parts.map_values(|s: String| s@)
}

/// The given parts joined by single spaces: empty for no parts, and no
/// leading or trailing separator otherwise.
pub open spec fn spec_join_spaced(parts: Seq<Seq<char>>) -> Seq<char>
    decreases parts.len(),
{
    if parts.len() == 0 {
        Seq::empty()
    } else if parts.len() == 1 {
        parts[0]
    } else {
        spec_join_spaced(parts.drop_last()) + " "@ + parts.last()
    }
}

/// Join the argument vector of the process into the literal invocation
/// command line, parts separated by single spaces.
pub fn join_args(parts: &Vec<String>) -> (r: String)
    ensures
        r@ == spec_join_spaced(string_views(parts@)),
{
    let ghost views = string_views(parts@);
    let mut r = String::new();
    let mut i: usize = 0;
    while i < parts.len()
        invariant
            i <= parts.len(),
            views == string_views(parts@),
            r@ == spec_join_spaced(views.take(i as int)),
        decreases parts.len() - i,
    {
        if i > 0 {
            r.append(" ");
        }
        r.append(parts[i].as_str());
        proof {
            let prefix = views.take(i as int);
            let next = views.take(i + 1 as int);
            assert(next.drop_last() =~= prefix);
            assert(next.last() == views[i as int]);
            if i == 0 {
                assert(r@ =~= next[0]);
                assert(r@ == spec_join_spaced(next));
            } else {
                assert(r@ =~= spec_join_spaced(prefix) + " "@ + views[i as int]);
            }
        }
        i += 1;
    }
    proof {
        assert(views.take(parts@.len() as int) =~= views);
    }
    r
}

} // verus!
